use codex_review_auth::text::{
    chars_of, contains_text, find_first, push_unique, replace_all, trim_margin, Margin,
};

#[test]
fn trimming_takes_margins_off_both_ends() {
    assert_eq!(trim_margin("  a b\n", Margin::WhiteSpace), "a b");
    assert_eq!(trim_margin("//a/b/", Margin::Slash), "a/b");
    assert_eq!(trim_margin("///", Margin::Slash), "");
    assert_eq!(trim_margin("", Margin::WhiteSpace), "");
    assert_eq!(trim_margin("\u{3000}\u{e9}\u{85}", Margin::WhiteSpace), "\u{e9}");
}

#[test]
fn replacing_agrees_with_the_standard_library() {
    for text in ["", "a", "aa", "aaa", "aaaa", "ab", "abab", "xabyabz", "\u{e9}ab\u{e9}"] {
        for pattern in ["a", "aa", "ab", "b", "aba"] {
            for by in ["", "a", "ab", "\u{e9}"] {
                assert_eq!(replace_all(text, pattern, by), text.replace(pattern, by));
            }
        }
    }
}

#[test]
fn searching_finds_the_first() {
    let chars = chars_of("a{b{\u{e9}}c}d");
    assert_eq!(find_first(&chars, '{'), Some(1));
    assert_eq!(find_first(&chars, 'x'), None);
}

#[test]
fn a_text_is_put_into_a_list_once() {
    let mut list: Vec<String> = Vec::new();
    push_unique(&mut list, "a".to_string());
    push_unique(&mut list, "b".to_string());
    push_unique(&mut list, "a".to_string());
    assert_eq!(list, vec!["a".to_string(), "b".to_string()]);
    assert!(contains_text(&list, &"b".to_string()));
    assert!(!contains_text(&list, &"c".to_string()));
}
