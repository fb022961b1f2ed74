//! Text helpers on characters: trimming, searching, replacing.

use vstd::prelude::*;

verus! {

/// What `trim_margin` takes off both ends of a text.
#[derive(Clone, Copy, Debug, PartialEq, Eq, Structural)]
pub enum Margin {
    /// Characters with the Unicode property `White_Space`.
    WhiteSpace,
    /// The character `/`.
    Slash,
}

/// The characters with the Unicode property `White_Space`.
pub open spec fn is_white_space(c: char) -> bool {
    ||| '\u{9}' <= c && c <= '\u{d}'
    ||| c == ' '
    ||| c == '\u{85}'
    ||| c == '\u{a0}'
    ||| c == '\u{1680}'
    ||| '\u{2000}' <= c && c <= '\u{200a}'
    ||| c == '\u{2028}'
    ||| c == '\u{2029}'
    ||| c == '\u{202f}'
    ||| c == '\u{205f}'
    ||| c == '\u{3000}'
}

impl Margin {
    /// Whether `c` belongs to this kind of margin.
    pub open spec fn has(self, c: char) -> bool {
        match self {
            Margin::WhiteSpace => is_white_space(c),
            Margin::Slash => c == '/',
        }
    }

    /// Whether `c` belongs to this kind of margin.
    pub fn contains(self, c: char) -> (r: bool)
        ensures
            r == self.has(c),
    {
        match self {
            Margin::WhiteSpace => ('\u{9}' <= c && c <= '\u{d}') || c == ' ' || c == '\u{85}'
                || c == '\u{a0}' || c == '\u{1680}' || ('\u{2000}' <= c && c <= '\u{200a}')
                || c == '\u{2028}' || c == '\u{2029}' || c == '\u{202f}' || c == '\u{205f}'
                || c == '\u{3000}',
            Margin::Slash => c == '/',
        }
    }
}

/// `s` without the margin characters at its start and at its end.
pub open spec fn trimmed(s: Seq<char>, margin: Margin) -> Seq<char>
    decreases s.len(),
{
    if s.len() == 0 {
        s
    } else if margin.has(s.first()) {
        trimmed(s.drop_first(), margin)
    } else if margin.has(s.last()) {
        trimmed(s.drop_last(), margin)
    } else {
        s
    }
}

/// Trimming keeps `s[lo..hi]` when all else is margin and that piece has none at its ends.
proof fn lemma_trimmed_is_middle(s: Seq<char>, margin: Margin, lo: int, hi: int)
    requires
        0 <= lo <= hi <= s.len(),
        forall|i: int| 0 <= i < lo ==> margin.has(#[trigger] s[i]),
        forall|i: int| hi <= i < s.len() ==> margin.has(#[trigger] s[i]),
        lo < hi ==> !margin.has(s[lo]) && !margin.has(s[hi - 1]),
    ensures
        trimmed(s, margin) == s.subrange(lo, hi),
    decreases s.len(),
{
    if s.len() == 0 {
        assert(s.subrange(lo, hi) =~= s);
    } else if margin.has(s.first()) {
        let t = s.drop_first();
        if lo == 0 {
            assert(hi == 0);
            lemma_trimmed_is_middle(t, margin, 0, 0);
            assert(t.subrange(0, 0) =~= s.subrange(lo, hi));
        } else {
            lemma_trimmed_is_middle(t, margin, lo - 1, hi - 1);
            assert(t.subrange(lo - 1, hi - 1) =~= s.subrange(lo, hi));
        }
    } else {
        assert(lo == 0);
        if margin.has(s.last()) {
            let t = s.drop_last();
            assert(0 < hi < s.len());
            lemma_trimmed_is_middle(t, margin, lo, hi);
            assert(t.subrange(lo, hi) =~= s.subrange(lo, hi));
        } else {
            assert(s.subrange(lo, hi) =~= s);
        }
    }
}

/// The characters of `s`, one by one.
pub fn chars_of(s: &str) -> (r: Vec<char>)
    ensures
        r@ == s@,
{
    let mut r: Vec<char> = Vec::new();
    for c in it: s.chars()
        invariant
            it.seq() == s@,
            r@ == s@.take(it.index() as int),
    {
        r.push(c);
    }
    r
}

/// `s` without the margin characters at its start and at its end.
pub fn trim_margin<'a>(s: &'a str, margin: Margin) -> (r: &'a str)
    ensures
        r@ == trimmed(s@, margin),
        exists|lo: int, hi: int|
            {
                &&& 0 <= lo <= hi <= s@.len()
                &&& r@ == #[trigger] s@.subrange(lo, hi)
                &&& forall|i: int| 0 <= i < lo ==> margin.has(#[trigger] s@[i])
                &&& forall|i: int| hi <= i < s@.len() ==> margin.has(#[trigger] s@[i])
                &&& lo < hi ==> !margin.has(s@[lo]) && !margin.has(s@[hi - 1])
            },
{
    let chars = chars_of(s);
    let mut lo: usize = 0;
    while lo < chars.len() && margin.contains(chars[lo])
        invariant
            lo <= chars.len(),
            forall|i: int| 0 <= i < lo ==> margin.has(#[trigger] chars@[i]),
        decreases chars.len() - lo,
    {
        lo = lo + 1;
    }
    let mut hi: usize = chars.len();
    while lo < hi && margin.contains(chars[hi - 1])
        invariant
            lo <= hi <= chars.len(),
            forall|i: int| hi <= i < chars.len() ==> margin.has(#[trigger] chars@[i]),
        decreases hi,
    {
        hi = hi - 1;
    }
    proof {
        lemma_trimmed_is_middle(s@, margin, lo as int, hi as int);
    }
    s.substring_char(lo, hi)
}

/// White space is what Unicode gives that property, by code points, and the other margin is the
/// slash alone.
pub proof fn law_margin_characters(c: char)
    ensures
        ({
            let point = c as u32;
            Margin::WhiteSpace.has(c) <==> {
                ||| 0x9 <= point <= 0xd
                ||| point == 0x20
                ||| point == 0x85
                ||| point == 0xa0
                ||| point == 0x1680
                ||| 0x2000 <= point <= 0x200a
                ||| 0x2028 <= point <= 0x2029
                ||| point == 0x202f
                ||| point == 0x205f
                ||| point == 0x3000
            }
        }),
        is_white_space(c) == Margin::WhiteSpace.has(c),
        Margin::Slash.has(c) <==> c == '/',
{
}

/// Whatever margin stands around a text that has none at its ends, trimming leaves that text, all
/// of it and nothing else.
pub proof fn law_trimming_leaves_the_middle(
    before: Seq<char>,
    middle: Seq<char>,
    after: Seq<char>,
    margin: Margin,
)
    requires
        forall|i: int| 0 <= i < before.len() ==> margin.has(#[trigger] before[i]),
        forall|i: int| 0 <= i < after.len() ==> margin.has(#[trigger] after[i]),
        middle.len() > 0 ==> !margin.has(middle.first()) && !margin.has(middle.last()),
    ensures
        trimmed(before + middle + after, margin) == middle,
{
    let s = before + middle + after;
    let lo = before.len() as int;
    let hi = lo + middle.len();
    assert forall|i: int| 0 <= i < lo implies margin.has(#[trigger] s[i]) by {
        assert(s[i] == before[i]);
    }
    assert forall|i: int| hi <= i < s.len() implies margin.has(#[trigger] s[i]) by {
        assert(s[i] == after[i - hi]);
    }
    lemma_trimmed_is_middle(s, margin, lo, hi);
    assert(s.subrange(lo, hi) =~= middle);
}

/// Trimming twice is trimming once, and what is left has no margin at either end.
pub proof fn law_trimming_is_idempotent(s: Seq<char>, margin: Margin)
    ensures
        trimmed(trimmed(s, margin), margin) == trimmed(s, margin),
        trimmed(s, margin).len() > 0 ==> !margin.has(trimmed(s, margin).first()) && !margin.has(
            trimmed(s, margin).last(),
        ),
    decreases s.len(),
{
    if s.len() == 0 {
    } else if margin.has(s.first()) {
        law_trimming_is_idempotent(s.drop_first(), margin);
    } else if margin.has(s.last()) {
        law_trimming_is_idempotent(s.drop_last(), margin);
    }
}

/// Margin characters put at the start or the end of a text make no difference to what is left.
pub proof fn law_margin_is_lost(s: Seq<char>, margin: Margin, c: char)
    requires
        margin.has(c),
    ensures
        trimmed(seq![c] + s, margin) == trimmed(s, margin),
        trimmed(s.push(c), margin) == trimmed(s, margin),
    decreases s.len(),
{
    assert((seq![c] + s).drop_first() =~= s);
    if s.len() == 0 {
        assert(s.push(c).drop_first() =~= s);
    } else if margin.has(s.first()) {
        law_margin_is_lost(s.drop_first(), margin, c);
        assert(s.push(c).drop_first() =~= s.drop_first().push(c));
    } else {
        assert(s.push(c).drop_last() =~= s);
    }
}

/// The texts that a list of strings holds, in order.
pub open spec fn texts(list: Seq<String>) -> Seq<Seq<char>> {
    list.map_values(|s: String| s@)
}

/// The texts of a list stand at the places of its strings, and there are no others.
pub proof fn law_texts(list: Seq<String>)
    ensures
        texts(list).len() == list.len(),
        forall|i: int| 0 <= i < list.len() ==> #[trigger] texts(list)[i] == list[i]@,
{
}

/// `list` with `item` at its end, unless it is in the list already.
pub open spec fn with_unique(list: Seq<Seq<char>>, item: Seq<char>) -> Seq<Seq<char>> {
    if list.contains(item) {
        list
    } else {
        list.push(item)
    }
}

/// Everything in the list stays in its place, the item is in the list afterwards, and nothing
/// comes to it but an item that was not there.
pub proof fn law_item_is_added_once(list: Seq<Seq<char>>, item: Seq<char>)
    ensures
        list.is_prefix_of(with_unique(list, item)),
        with_unique(list, item).contains(item),
        list.contains(item) ==> with_unique(list, item).len() == list.len(),
        !list.contains(item) ==> with_unique(list, item).len() == list.len() + 1
            && with_unique(list, item).last() == item,
{
    if !list.contains(item) {
        assert(list.push(item)[list.len() as int] == item);
        assert(list.push(item).take(list.len() as int) =~= list);
    } else {
        assert(list.take(list.len() as int) =~= list);
    }
}

/// Whether `list` holds the text of `item`.
pub fn contains_text(list: &Vec<String>, item: &String) -> (r: bool)
    ensures
        r == texts(list@).contains(item@),
{
    for i in 0..list.len()
        invariant
            forall|j: int| 0 <= j < i ==> texts(list@)[j] != item@,
    {
        if list[i] == *item {
            assert(texts(list@)[i as int] == item@);
            return true;
        }
    }
    false
}

/// Puts `item` at the end of `list`, unless its text is there already.
pub fn push_unique(list: &mut Vec<String>, item: String)
    ensures
        texts(final(list)@) == with_unique(texts(old(list)@), item@),
{
    if !contains_text(list, &item) {
        list.push(item);
        assert(texts(list@) =~= texts(old(list)@).push(item@));
    }
}

/// `s` with every occurrence of `pattern` replaced by `by`, found from left to right.
pub open spec fn replaced(s: Seq<char>, pattern: Seq<char>, by: Seq<char>) -> Seq<char>
    decreases s.len(),
{
    if s.len() == 0 {
        s
    } else if pattern.len() > 0 && pattern.is_prefix_of(s) {
        by + replaced(s.skip(pattern.len() as int), pattern, by)
    } else {
        seq![s[0]] + replaced(s.skip(1), pattern, by)
    }
}

/// Whether `pattern` stands at place `at` of `chars`.
fn stands_at(chars: &Vec<char>, at: usize, pattern: &Vec<char>) -> (r: bool)
    requires
        at <= chars.len(),
    ensures
        r == pattern@.is_prefix_of(chars@.skip(at as int)),
{
    if chars.len() - at < pattern.len() {
        return false;
    }
    for i in 0..pattern.len()
        invariant
            at + pattern.len() <= chars.len(),
            forall|j: int| 0 <= j < i ==> pattern@[j] == #[trigger] chars@.skip(at as int)[j],
    {
        if chars[at + i] != pattern[i] {
            assert(chars@.skip(at as int)[i as int] != pattern@[i as int]);
            return false;
        }
    }
    assert(pattern@ =~= chars@.skip(at as int).take(pattern@.len() as int));
    true
}

/// `s` with every occurrence of `pattern` replaced by `by`, found from left to right.
pub fn replace_all(s: &str, pattern: &str, by: &str) -> (r: String)
    requires
        pattern@.len() > 0,
    ensures
        r@ == replaced(s@, pattern@, by@),
{
    let chars = chars_of(s);
    let pattern_chars = chars_of(pattern);
    let mut r = String::new();
    let mut from: usize = 0;
    let mut i: usize = 0;
    assert(s@.skip(0) =~= s@);
    assert(r@ + s@.subrange(0, 0) + replaced(s@, pattern@, by@) =~= replaced(s@, pattern@, by@));
    while i < chars.len()
        invariant
            chars@ == s@,
            pattern_chars@ == pattern@,
            pattern@.len() > 0,
            from <= i <= chars.len(),
            replaced(s@, pattern@, by@) == r@ + s@.subrange(from as int, i as int) + replaced(
                s@.skip(i as int),
                pattern@,
                by@,
            ),
        decreases chars.len() - i,
    {
        let ghost rest = s@.skip(i as int);
        if stands_at(&chars, i, &pattern_chars) {
            let ghost before = r@;
            let ghost piece = s@.subrange(from as int, i as int);
            r.append(s.substring_char(from, i));
            r.append(by);
            i = i + pattern_chars.len();
            from = i;
            proof {
                let tail = replaced(s@.skip(i as int), pattern@, by@);
                assert(rest.skip(pattern@.len() as int) =~= s@.skip(i as int));
                assert(before + piece + (by@ + tail) =~= r@ + s@.subrange(i as int, i as int)
                    + tail);
            }
        } else {
            proof {
                let tail = replaced(s@.skip(i + 1), pattern@, by@);
                assert(rest.skip(1) =~= s@.skip(i + 1));
                assert(r@ + s@.subrange(from as int, i as int) + (seq![rest[0]] + tail) =~= r@
                    + s@.subrange(from as int, i + 1) + tail);
            }
            i = i + 1;
        }
    }
    assert(r@ + s@.subrange(from as int, i as int) + replaced(s@.skip(i as int), pattern@, by@)
        =~= r@ + s@.subrange(from as int, i as int));
    r.append(s.substring_char(from, i));
    r
}

/// Replacing changes nothing in a text in which the pattern does not occur.
pub proof fn law_absent_pattern_replaces_nothing(s: Seq<char>, pattern: Seq<char>, by: Seq<char>)
    requires
        forall|i: int| 0 <= i < s.len() ==> !pattern.is_prefix_of(#[trigger] s.skip(i)),
    ensures
        replaced(s, pattern, by) == s,
    decreases s.len(),
{
    if s.len() > 0 {
        let rest = s.skip(1);
        assert(s.skip(0) =~= s);
        assert forall|i: int| 0 <= i < rest.len() implies !pattern.is_prefix_of(
            #[trigger] rest.skip(i),
        ) by {
            assert(rest.skip(i) =~= s.skip(i + 1));
        }
        law_absent_pattern_replaces_nothing(rest, pattern, by);
        assert(seq![s[0]] + rest =~= s);
    }
}

/// The first occurrence of the pattern is replaced, what stands before it stays, and replacing
/// goes on after it.
pub proof fn law_first_occurrence_is_replaced(
    before: Seq<char>,
    pattern: Seq<char>,
    after: Seq<char>,
    by: Seq<char>,
)
    requires
        pattern.len() > 0,
        forall|i: int|
            0 <= i < before.len() ==> !pattern.is_prefix_of(
                #[trigger] (before + pattern + after).skip(i),
            ),
    ensures
        replaced(before + pattern + after, pattern, by) == before + by + replaced(
            after,
            pattern,
            by,
        ),
    decreases before.len(),
{
    let s = before + pattern + after;
    if before.len() == 0 {
        assert(s.take(pattern.len() as int) =~= pattern);
        assert(s.skip(pattern.len() as int) =~= after);
        assert(before + by =~= by);
    } else {
        let init = before.skip(1);
        let rest = init + pattern + after;
        assert(s.skip(1) =~= rest);
        assert(s.skip(0) =~= s);
        assert forall|i: int| 0 <= i < init.len() implies !pattern.is_prefix_of(
            #[trigger] (init + pattern + after).skip(i),
        ) by {
            assert(rest.skip(i) =~= s.skip(i + 1));
        }
        law_first_occurrence_is_replaced(init, pattern, after, by);
        assert(seq![s[0]] + (init + by + replaced(after, pattern, by)) =~= before + by + replaced(
            after,
            pattern,
            by,
        ));
    }
}

/// The place of the first `c` in `s`, or the length of `s`.
pub open spec fn first_place(s: Seq<char>, c: char) -> int
    decreases s.len(),
{
    if s.len() == 0 || s.first() == c {
        0
    } else {
        1 + first_place(s.drop_first(), c)
    }
}

/// `first_place` is the place of a `c` without one before it, or past the end.
pub proof fn lemma_first_place(s: Seq<char>, c: char)
    ensures
        0 <= first_place(s, c) <= s.len(),
        first_place(s, c) < s.len() ==> s[first_place(s, c)] == c,
        forall|i: int| 0 <= i < first_place(s, c) ==> #[trigger] s[i] != c,
    decreases s.len(),
{
    if s.len() > 0 && s.first() != c {
        lemma_first_place(s.drop_first(), c);
        assert forall|i: int| 0 <= i < first_place(s, c) implies #[trigger] s[i] != c by {
            if i > 0 {
                assert(s.drop_first()[i - 1] == s[i]);
            }
        }
    }
}

/// The place of the first `c`, if there is one.
pub fn find_first(chars: &Vec<char>, c: char) -> (r: Option<usize>)
    ensures
        match r {
            Some(i) => i == first_place(chars@, c) && i < chars@.len(),
            None => first_place(chars@, c) == chars@.len(),
        },
        match r {
            Some(i) => {
                &&& i < chars@.len()
                &&& chars@[i as int] == c
                &&& forall|j: int| 0 <= j < i ==> #[trigger] chars@[j] != c
            },
            None => forall|j: int| 0 <= j < chars@.len() ==> #[trigger] chars@[j] != c,
        },
{
    proof {
        lemma_first_place(chars@, c);
    }
    for i in 0..chars.len()
        invariant
            forall|j: int| 0 <= j < i ==> #[trigger] chars@[j] != c,
            first_place(chars@, c) < chars@.len() ==> chars@[first_place(chars@, c)] == c,
            forall|j: int| 0 <= j < first_place(chars@, c) ==> #[trigger] chars@[j] != c,
            0 <= first_place(chars@, c) <= chars@.len(),
    {
        if chars[i] == c {
            return Some(i);
        }
    }
    None
}

} // verus!
