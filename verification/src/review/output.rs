//! The structured output of a review, and how it is read from the last message of the agent.

use vstd::prelude::*;

use crate::text::{chars_of, find_first, first_place, lemma_first_place};

verus! {

/// The output of a review. `F` is a finding, and `R` holds the rest of the output.
#[derive(Debug)]
pub struct ReviewOutputEvent<F, R> {
    pub findings: Vec<F>,
    pub overall_explanation: String,
    pub rest: R,
}

impl<F, R: Default> Default for ReviewOutputEvent<F, R> {
    fn default() -> (r: Self)
        ensures
            r.findings@.len() == 0,
            r.overall_explanation@.len() == 0,
            call_ensures(R::default, (), r.rest),
    {
        ReviewOutputEvent {
            findings: Vec::new(),
            overall_explanation: String::new(),
            rest: R::default(),
        }
    }
}

impl<F, R: Default> ReviewOutputEvent<F, R> {
    /// Whether this output carries nothing but `text`, as its explanation.
    pub open spec fn is_plain(self, text: Seq<char>) -> bool {
        &&& self.findings@.len() == 0
        &&& self.overall_explanation@ == text
        &&& call_ensures(R::default, (), self.rest)
    }
}

/// Where a scan of a JSON text stands.
#[derive(Debug, Clone, Copy, PartialEq, Eq, Structural)]
pub enum Scan {
    /// Outside of strings.
    Code,
    /// Within a string.
    Quoted,
    /// Within a string, behind a backslash.
    Escaped,
}

impl Scan {
    /// Where the scan stands after `c`.
    pub open spec fn after(self, c: char) -> Scan {
        match self {
            Scan::Code => if c == '"' {
                Scan::Quoted
            } else {
                Scan::Code
            },
            Scan::Quoted => if c == '"' {
                Scan::Code
            } else if c == '\\' {
                Scan::Escaped
            } else {
                Scan::Quoted
            },
            Scan::Escaped => Scan::Quoted,
        }
    }

    /// How many braces are open after `c`, when `depth` were before it. Braces within strings do
    /// not count.
    pub open spec fn depth_after(self, depth: int, c: char) -> int {
        if self is Code && c == '{' {
            depth + 1
        } else if self is Code && c == '}' {
            depth - 1
        } else {
            depth
        }
    }

    /// Takes the next character.
    fn next(self, c: char) -> (r: Scan)
        ensures
            r == self.after(c),
    {
        match self {
            Scan::Code => if c == '"' {
                Scan::Quoted
            } else {
                Scan::Code
            },
            Scan::Quoted => if c == '"' {
                Scan::Code
            } else if c == '\\' {
                Scan::Escaped
            } else {
                Scan::Quoted
            },
            Scan::Escaped => Scan::Quoted,
        }
    }
}

/// The place from `at` on of the `}` that leaves no brace open, when `depth` are open before it.
pub open spec fn closing_place(s: Seq<char>, at: int, scan: Scan, depth: int) -> Option<int>
    decreases s.len() - at,
{
    if at >= s.len() {
        None
    } else if scan is Code && s[at] == '}' && depth <= 1 {
        Some(at)
    } else {
        closing_place(s, at + 1, scan.after(s[at]), scan.depth_after(depth, s[at]))
    }
}

/// The first object in `text`: the part from the first `{` to the `}` that closes it, if one
/// does. Braces within JSON strings neither open nor close.
pub open spec fn object_in(text: Seq<char>) -> Option<Seq<char>> {
    let start = first_place(text, '{');
    match closing_place(text, start, Scan::Code, 0) {
        Some(end) => Some(text.subrange(start, end + 1)),
        None => None,
    }
}

/// The first object in `text`: the part from the first `{` to the `}` that closes it, if one
/// does. Braces within JSON strings neither open nor close.
pub fn embedded_object<'a>(text: &'a str) -> (r: Option<&'a str>)
    ensures
        match r {
            Some(slice) => object_in(text@) == Some(slice@),
            None => object_in(text@) is None,
        },
{
    let chars = chars_of(text);
    let start = match find_first(&chars, '{') {
        Some(start) => start,
        None => return None,
    };
    proof {
        lemma_first_place(text@, '{');
    }
    let mut i: usize = start;
    let mut scan = Scan::Code;
    let mut depth: usize = 0;
    while i < chars.len()
        invariant
            chars@ == text@,
            start == first_place(text@, '{'),
            start < chars.len(),
            chars@[start as int] == '{',
            start <= i <= chars.len(),
            depth <= i - start,
            i == start ==> scan is Code,
            i > start ==> depth > 0,
            closing_place(text@, start as int, Scan::Code, 0) == closing_place(
                text@,
                i as int,
                scan,
                depth as int,
            ),
        decreases chars.len() - i,
    {
        let c = chars[i];
        match scan {
            Scan::Code => {
                if c == '{' {
                    depth = depth + 1;
                } else if c == '}' {
                    if depth == 1 {
                        return Some(text.substring_char(start, i + 1));
                    }
                    depth = depth - 1;
                }
            },
            _ => {},
        }
        scan = scan.next(c);
        i = i + 1;
    }
    None
}

/// What is left of `text` behind the first object in it, or behind the first `{` where none closes
/// it.
pub open spec fn behind_object(text: Seq<char>) -> Seq<char> {
    let taken = match object_in(text) {
        Some(object) => object.len() as int,
        None => 1,
    };
    text.skip(first_place(text, '{') + taken)
}

/// The objects in `text`, from left to right. An object within another one is part of it, and a
/// `{` that nothing closes is passed over.
pub open spec fn objects_in(text: Seq<char>) -> Seq<Seq<char>>
    decreases text.len(),
{
    if first_place(text, '{') >= text.len() {
        seq![]
    } else {
        proof {
            lemma_first_place(text, '{');
            law_object_is_its_own_object(text);
        }
        match object_in(text) {
            Some(object) => seq![object] + objects_in(behind_object(text)),
            None => objects_in(behind_object(text)),
        }
    }
}

/// What is left of `text` behind `object`, the first object in it, or behind the first `{` where
/// none closes it. There is nothing without a `{`.
fn skip_object<'a>(text: &'a str, object: Option<&'a str>) -> (r: Option<&'a str>)
    requires
        match object {
            Some(slice) => object_in(text@) == Some(slice@),
            None => object_in(text@) is None,
        },
    ensures
        match r {
            Some(rest) => {
                &&& first_place(text@, '{') < text@.len()
                &&& rest@ == behind_object(text@)
                &&& rest@.len() < text@.len()
            },
            None => first_place(text@, '{') >= text@.len(),
        },
{
    proof {
        law_object_is_its_own_object(text@);
    }
    let chars = chars_of(text);
    match find_first(&chars, '{') {
        Some(start) => {
            let taken: usize = match object {
                Some(slice) => slice.unicode_len(),
                None => 1,
            };
            assert(start + taken <= chars.len());
            Some(text.substring_char(start + taken, chars.len()))
        },
        None => None,
    }
}

/// What is made of the attempts to parse the text and the objects in it.
pub open spec fn resolves_to<F, R: Default>(
    text: Seq<char>,
    whole: Option<ReviewOutputEvent<F, R>>,
    embedded: Option<ReviewOutputEvent<F, R>>,
    output: ReviewOutputEvent<F, R>,
) -> bool {
    match (whole, embedded) {
        (Some(event), _) => output == event,
        (None, Some(event)) => output == event,
        (None, None) => output.is_plain(text),
    }
}

/// The output that the text itself parses to, else the one that an object in it parses to, else
/// one that carries the text as its explanation.
pub fn resolve_review_output<F, R: Default>(
    text: &str,
    whole: Option<ReviewOutputEvent<F, R>>,
    embedded: Option<ReviewOutputEvent<F, R>>,
) -> (r: ReviewOutputEvent<F, R>)
    ensures
        resolves_to(text@, whole, embedded, r),
        whole matches Some(event) ==> r == event,
        whole is None && embedded is Some ==> r == embedded->0,
        whole is None && embedded is None ==> r.findings@.len() == 0 && r.overall_explanation@
            == text@ && call_ensures(R::default, (), r.rest),
{
    match (whole, embedded) {
        (Some(event), _) => event,
        (None, Some(event)) => event,
        (None, None) => ReviewOutputEvent {
            overall_explanation: text.to_string(),
            ..Default::default()
        },
    }
}

/// Whether a parser gives `parsed` for the text `text`.
pub open spec fn parses_to<F, R, P: Fn(&str) -> Option<ReviewOutputEvent<F, R>>>(
    parse: P,
    text: Seq<char>,
    parsed: Option<ReviewOutputEvent<F, R>>,
) -> bool {
    exists|s: &str| s@ == text && #[trigger] call_ensures(parse, (s,), parsed)
}

/// Whether `parsed` is what a parser, tried on `objects` one after the other until one parses,
/// gives in the end.
pub open spec fn first_parsed<F, R, P: Fn(&str) -> Option<ReviewOutputEvent<F, R>>>(
    parse: P,
    objects: Seq<Seq<char>>,
    parsed: Option<ReviewOutputEvent<F, R>>,
) -> bool
    decreases objects.len(),
{
    if objects.len() == 0 {
        parsed is None
    } else {
        ||| parsed is Some && parses_to(parse, objects.first(), parsed)
        ||| parses_to(parse, objects.first(), None) && first_parsed(
            parse,
            objects.drop_first(),
            parsed,
        )
    }
}

/// Whether `output` is what the parser, tried on `text` and then on the objects in it, leads to.
pub open spec fn reads_as<F, R: Default, P: Fn(&str) -> Option<ReviewOutputEvent<F, R>>>(
    parse: P,
    text: Seq<char>,
    output: ReviewOutputEvent<F, R>,
) -> bool {
    exists|
        whole: Option<ReviewOutputEvent<F, R>>,
        embedded: Option<ReviewOutputEvent<F, R>>,
    | #[trigger]
        resolves_to(text, whole, embedded, output) && parses_to(parse, text, whole) && (
        whole is None ==> first_parsed(parse, objects_in(text), embedded))
}

/// Tries the parser on the objects in `text`, from left to right, until one parses.
fn parse_objects<F, R, P: Fn(&str) -> Option<ReviewOutputEvent<F, R>>>(
    text: &str,
    parse: &P,
) -> (r: Option<ReviewOutputEvent<F, R>>)
    requires
        forall|s: &str| call_requires(*parse, (s,)),
    ensures
        first_parsed(*parse, objects_in(text@), r),
{
    let mut rest = text;
    loop
        invariant
            forall|s: &str| call_requires(*parse, (s,)),
            forall|parsed: Option<ReviewOutputEvent<F, R>>|
                first_parsed(*parse, objects_in(rest@), parsed) ==> #[trigger] first_parsed(
                    *parse,
                    objects_in(text@),
                    parsed,
                ),
        decreases rest@.len(),
    {
        let object = embedded_object(rest);
        let ghost objects = objects_in(rest@);
        proof {
            lemma_first_place(rest@, '{');
            law_object_is_its_own_object(rest@);
        }
        if let Some(slice) = object {
            assert(objects.first() == slice@);
            assert(objects.drop_first() =~= objects_in(behind_object(rest@)));
            let parsed = (*parse)(slice);
            assert(parses_to(*parse, slice@, parsed));
            if parsed.is_some() {
                assert(first_parsed(*parse, objects, parsed));
                return parsed;
            }
        }
        match skip_object(rest, object) {
            Some(behind) => {
                rest = behind;
            },
            None => return None,
        }
    }
}

/// Reads a review output from the text of the review agent. The text is parsed as it is; where that
/// fails, the first object in it that parses is taken; where none does, the output carries the
/// plain text.
pub fn parse_review_output_event<F, R: Default, P: Fn(&str) -> Option<ReviewOutputEvent<F, R>>>(
    text: &str,
    parse: P,
) -> (r: ReviewOutputEvent<F, R>)
    requires
        forall|s: &str| call_requires(parse, (s,)),
    ensures
        reads_as(parse, text@, r),
{
    let whole = parse(text);
    let embedded = if whole.is_none() {
        parse_objects(text, &parse)
    } else {
        None
    };
    resolve_review_output(text, whole, embedded)
}

/// The output of a review that ended with this last message of the agent: none without one.
pub fn review_output<F, R: Default, P: Fn(&str) -> Option<ReviewOutputEvent<F, R>>>(
    last_agent_message: Option<String>,
    parse: P,
) -> (r: Option<ReviewOutputEvent<F, R>>)
    requires
        forall|s: &str| call_requires(parse, (s,)),
    ensures
        match (last_agent_message, r) {
            (Some(message), Some(output)) => reads_as(parse, message@, output),
            (None, None) => true,
            _ => false,
        },
{
    match last_agent_message {
        Some(message) => Some(parse_review_output_event(message.as_str(), parse)),
        None => None,
    }
}

/// The closing place is that of a `}`.
proof fn lemma_closing_place(s: Seq<char>, at: int, scan: Scan, depth: int)
    requires
        0 <= at,
    ensures
        closing_place(s, at, scan, depth) matches Some(end) ==> at <= end < s.len() && s[end]
            == '}',
    decreases s.len() - at,
{
    if at < s.len() {
        lemma_closing_place(s, at + 1, scan.after(s[at]), scan.depth_after(depth, s[at]));
    }
}

/// The closing place depends on nothing but the characters up to it: a text with the same
/// characters, `shift` places further on, has it `shift` places further on.
proof fn lemma_closing_place_moves(
    s: Seq<char>,
    t: Seq<char>,
    shift: int,
    at: int,
    scan: Scan,
    depth: int,
)
    requires
        0 <= at,
        0 <= at + shift,
        closing_place(s, at, scan, depth) matches Some(end) && end + shift < t.len() && forall|
            i: int,
        | at <= i <= end ==> #[trigger] s[i] == t[i + shift],
    ensures
        closing_place(t, at + shift, scan, depth) == Some(
            closing_place(s, at, scan, depth)->0 + shift,
        ),
    decreases s.len() - at,
{
    lemma_closing_place(s, at, scan, depth);
    assert(s[at] == t[at + shift]);
    if !(scan is Code && s[at] == '}' && depth <= 1) {
        lemma_closing_place_moves(
            s,
            t,
            shift,
            at + 1,
            scan.after(s[at]),
            scan.depth_after(depth, s[at]),
        );
    }
}

/// The first object in a text starts with the first `{` of the text, ends with a `}`, and is the
/// first object in itself.
pub proof fn law_object_is_its_own_object(text: Seq<char>)
    ensures
        object_in(text) matches Some(object) ==> {
            let start = first_place(text, '{');
            &&& start + object.len() <= text.len()
            &&& object == text.subrange(start, start + object.len())
            &&& object.len() > 1
            &&& object.first() == '{'
            &&& object.last() == '}'
            &&& object_in(object) == Some(object)
        },
{
    lemma_first_place(text, '{');
    if let Some(object) = object_in(text) {
        let start = first_place(text, '{');
        lemma_closing_place(text, start, Scan::Code, 0);
        let end = closing_place(text, start, Scan::Code, 0)->0;
        assert(text[start] == '{');
        assert(object =~= text.subrange(start, start + object.len()));
        lemma_closing_place_moves(text, object, -start, start, Scan::Code, 0);
        assert(first_place(object, '{') == 0);
        assert(object.subrange(0, end - start + 1) =~= object);
    }
}

/// There is no object in a text without a `{` that a `}` follows.
pub proof fn law_object_needs_both_braces(text: Seq<char>)
    ensures
        object_in(text) is Some ==> exists|i: int, j: int|
            0 <= i < j < text.len() && #[trigger] text[i] == '{' && #[trigger] text[j] == '}',
{
    lemma_first_place(text, '{');
    let start = first_place(text, '{');
    if object_in(text) is Some {
        lemma_closing_place(text, start, Scan::Code, 0);
        let end = closing_place(text, start, Scan::Code, 0)->0;
        assert(text[start] == '{' && text[end] == '}');
    }
}

/// An object ends as soon as its first brace is closed: no shorter piece of it is an object.
pub proof fn law_object_ends_where_it_is_closed(object: Seq<char>, len: int)
    requires
        object_in(object) == Some(object),
        0 <= len < object.len(),
    ensures
        object_in(object.take(len)) is None,
{
    law_object_is_its_own_object(object);
    let piece = object.take(len);
    lemma_first_place(object, '{');
    lemma_first_place(piece, '{');
    let start = first_place(piece, '{');
    if object_in(piece) is Some {
        lemma_closing_place(piece, start, Scan::Code, 0);
        assert(first_place(object, '{') == 0);
        assert(piece[0] == object[0]);
        lemma_closing_place_moves(piece, object, 0, start, Scan::Code, 0);
    }
}

/// The first object is found whatever stands before it, as long as that has no `{`, and whatever
/// stands after it.
pub proof fn law_first_object_is_found(before: Seq<char>, object: Seq<char>, after: Seq<char>)
    requires
        object_in(object) == Some(object),
        forall|i: int| 0 <= i < before.len() ==> #[trigger] before[i] != '{',
    ensures
        object_in(before + object + after) == Some(object),
{
    let text = before + object + after;
    let start = before.len() as int;
    law_object_is_its_own_object(object);
    lemma_first_place(text, '{');
    lemma_first_place(object, '{');
    lemma_closing_place(object, first_place(object, '{'), Scan::Code, 0);
    assert(text[start] == object[0]);
    assert(first_place(text, '{') == start) by {
        assert forall|i: int| 0 <= i < start implies #[trigger] text[i] != '{' by {
            assert(text[i] == before[i]);
        }
    }
    assert(first_place(object, '{') == 0);
    lemma_closing_place_moves(object, text, start, 0, Scan::Code, 0);
    assert(text.subrange(start, start + object.len()) =~= object);
}

/// A text that surely parses is read as what it parses to, whatever object is in it.
pub proof fn law_parsed_text_is_the_output<
    F,
    R: Default,
    P: Fn(&str) -> Option<ReviewOutputEvent<F, R>>,
>(parse: P, text: Seq<char>, event: ReviewOutputEvent<F, R>, output: ReviewOutputEvent<F, R>)
    requires
        reads_as(parse, text, output),
        forall|parsed: Option<ReviewOutputEvent<F, R>>| #[trigger]
            parses_to(parse, text, parsed) ==> parsed == Some(event),
    ensures
        output == event,
{
}

/// Every object in a text is an object by itself.
pub proof fn law_objects_are_objects(text: Seq<char>)
    ensures
        forall|i: int|
            0 <= i < objects_in(text).len() ==> object_in(#[trigger] objects_in(text)[i]) == Some(
                objects_in(text)[i],
            ),
    decreases text.len(),
{
    lemma_first_place(text, '{');
    law_object_is_its_own_object(text);
    if first_place(text, '{') < text.len() {
        law_objects_are_objects(behind_object(text));
    }
}

/// The objects in a text are the first one, and then those behind it.
pub proof fn law_objects_in_a_row(before: Seq<char>, object: Seq<char>, after: Seq<char>)
    requires
        object_in(object) == Some(object),
        forall|i: int| 0 <= i < before.len() ==> #[trigger] before[i] != '{',
    ensures
        objects_in(before + object + after) == seq![object] + objects_in(after),
{
    let text = before + object + after;
    law_object_is_its_own_object(object);
    law_first_object_is_found(before, object, after);
    law_object_is_its_own_object(text);
    lemma_first_place(text, '{');
    let start = before.len() as int;
    assert(text[start] == object[0]);
    assert(first_place(text, '{') == start) by {
        assert forall|i: int| 0 <= i < start implies #[trigger] text[i] != '{' by {
            assert(text[i] == before[i]);
        }
    }
    assert(behind_object(text) =~= after);
}

/// Where the object at `place` surely parses, and none before it does, it is the first that
/// parses.
proof fn lemma_first_parsed<F, R, P: Fn(&str) -> Option<ReviewOutputEvent<F, R>>>(
    parse: P,
    objects: Seq<Seq<char>>,
    place: int,
    event: ReviewOutputEvent<F, R>,
    parsed: Option<ReviewOutputEvent<F, R>>,
)
    requires
        first_parsed(parse, objects, parsed),
        0 <= place < objects.len(),
        forall|i: int, p: Option<ReviewOutputEvent<F, R>>|
            0 <= i < place && #[trigger] parses_to(parse, objects[i], p) ==> p is None,
        forall|p: Option<ReviewOutputEvent<F, R>>| #[trigger]
            parses_to(parse, objects[place], p) ==> p == Some(event),
    ensures
        parsed == Some(event),
    decreases objects.len(),
{
    if place > 0 {
        let later = objects.drop_first();
        assert forall|i: int, p: Option<ReviewOutputEvent<F, R>>|
            0 <= i < place - 1 && #[trigger] parses_to(parse, later[i], p) implies p is None by {
            assert(later[i] == objects[i + 1]);
        }
        assert(later[place - 1] == objects[place]);
        assert(objects[0] == objects.first());
        lemma_first_parsed(parse, later, place - 1, event, parsed);
    }
}

/// Where no object parses, none is the first that does.
proof fn lemma_none_parsed<F, R, P: Fn(&str) -> Option<ReviewOutputEvent<F, R>>>(
    parse: P,
    objects: Seq<Seq<char>>,
    parsed: Option<ReviewOutputEvent<F, R>>,
)
    requires
        first_parsed(parse, objects, parsed),
        forall|i: int, p: Option<ReviewOutputEvent<F, R>>|
            0 <= i < objects.len() && #[trigger] parses_to(parse, objects[i], p) ==> p is None,
    ensures
        parsed is None,
    decreases objects.len(),
{
    if objects.len() > 0 {
        let later = objects.drop_first();
        assert forall|i: int, p: Option<ReviewOutputEvent<F, R>>|
            0 <= i < later.len() && #[trigger] parses_to(parse, later[i], p) implies p is None by {
            assert(later[i] == objects[i + 1]);
        }
        assert(objects[0] == objects.first());
        if parsed is Some {
            lemma_none_parsed(parse, later, parsed);
        }
    }
}

/// A text that does not parse is read as what an object in it surely parses to, where no object
/// before that one parses.
pub proof fn law_parsed_object_is_the_output<
    F,
    R: Default,
    P: Fn(&str) -> Option<ReviewOutputEvent<F, R>>,
>(
    parse: P,
    text: Seq<char>,
    place: int,
    event: ReviewOutputEvent<F, R>,
    output: ReviewOutputEvent<F, R>,
)
    requires
        reads_as(parse, text, output),
        0 <= place < objects_in(text).len(),
        forall|parsed: Option<ReviewOutputEvent<F, R>>| #[trigger]
            parses_to(parse, text, parsed) ==> parsed is None,
        forall|i: int, parsed: Option<ReviewOutputEvent<F, R>>|
            0 <= i < place && #[trigger] parses_to(parse, objects_in(text)[i], parsed)
                ==> parsed is None,
        forall|parsed: Option<ReviewOutputEvent<F, R>>| #[trigger]
            parses_to(parse, objects_in(text)[place], parsed) ==> parsed == Some(event),
    ensures
        output == event,
{
    let (whole, embedded): (
        Option<ReviewOutputEvent<F, R>>,
        Option<ReviewOutputEvent<F, R>>,
    ) = choose|
        whole: Option<ReviewOutputEvent<F, R>>,
        embedded: Option<ReviewOutputEvent<F, R>>,
    | #[trigger]
        resolves_to(text, whole, embedded, output) && parses_to(parse, text, whole) && (
        whole is None ==> first_parsed(parse, objects_in(text), embedded));
    lemma_first_parsed(parse, objects_in(text), place, event, embedded);
}

/// A text that does not parse, and holds no object that does, is kept as it is.
pub proof fn law_unparsed_text_is_kept<
    F,
    R: Default,
    P: Fn(&str) -> Option<ReviewOutputEvent<F, R>>,
>(parse: P, text: Seq<char>, output: ReviewOutputEvent<F, R>)
    requires
        reads_as(parse, text, output),
        forall|parsed: Option<ReviewOutputEvent<F, R>>| #[trigger]
            parses_to(parse, text, parsed) ==> parsed is None,
        forall|i: int, parsed: Option<ReviewOutputEvent<F, R>>|
            0 <= i < objects_in(text).len() && #[trigger] parses_to(
                parse,
                objects_in(text)[i],
                parsed,
            ) ==> parsed is None,
    ensures
        output.is_plain(text),
{
    let (whole, embedded): (
        Option<ReviewOutputEvent<F, R>>,
        Option<ReviewOutputEvent<F, R>>,
    ) = choose|
        whole: Option<ReviewOutputEvent<F, R>>,
        embedded: Option<ReviewOutputEvent<F, R>>,
    | #[trigger]
        resolves_to(text, whole, embedded, output) && parses_to(parse, text, whole) && (
        whole is None ==> first_parsed(parse, objects_in(text), embedded));
    lemma_none_parsed(parse, objects_in(text), embedded);
}

/// A text of two objects in a row, which does not parse as a whole, is read as what the first
/// one surely parses to, though the second one parses too.
pub proof fn law_first_of_two_objects_is_the_output<
    F,
    R: Default,
    P: Fn(&str) -> Option<ReviewOutputEvent<F, R>>,
>(
    parse: P,
    first: Seq<char>,
    between: Seq<char>,
    second: Seq<char>,
    first_event: ReviewOutputEvent<F, R>,
    second_event: ReviewOutputEvent<F, R>,
    output: ReviewOutputEvent<F, R>,
)
    requires
        object_in(first) == Some(first),
        object_in(second) == Some(second),
        reads_as(parse, first + between + second, output),
        forall|parsed: Option<ReviewOutputEvent<F, R>>| #[trigger]
            parses_to(parse, first + between + second, parsed) ==> parsed is None,
        forall|parsed: Option<ReviewOutputEvent<F, R>>| #[trigger]
            parses_to(parse, first, parsed) ==> parsed == Some(first_event),
        forall|parsed: Option<ReviewOutputEvent<F, R>>| #[trigger]
            parses_to(parse, second, parsed) ==> parsed == Some(second_event),
    ensures
        output == first_event,
{
    let text = first + between + second;
    assert(seq![] + first + (between + second) =~= text);
    law_objects_in_a_row(seq![], first, between + second);
    assert(objects_in(text)[0] == first);
    law_parsed_object_is_the_output(parse, text, 0, first_event, output);
}

/// A text of two objects, which does not parse as a whole, is read as what the second one surely
/// parses to, where the first one does not parse.
pub proof fn law_second_of_two_objects_is_the_output<
    F,
    R: Default,
    P: Fn(&str) -> Option<ReviewOutputEvent<F, R>>,
>(
    parse: P,
    first: Seq<char>,
    between: Seq<char>,
    second: Seq<char>,
    event: ReviewOutputEvent<F, R>,
    output: ReviewOutputEvent<F, R>,
)
    requires
        object_in(first) == Some(first),
        object_in(second) == Some(second),
        forall|i: int| 0 <= i < between.len() ==> #[trigger] between[i] != '{',
        reads_as(parse, first + between + second, output),
        forall|parsed: Option<ReviewOutputEvent<F, R>>| #[trigger]
            parses_to(parse, first + between + second, parsed) ==> parsed is None,
        forall|parsed: Option<ReviewOutputEvent<F, R>>| #[trigger]
            parses_to(parse, first, parsed) ==> parsed is None,
        forall|parsed: Option<ReviewOutputEvent<F, R>>| #[trigger]
            parses_to(parse, second, parsed) ==> parsed == Some(event),
    ensures
        output == event,
{
    let text = first + between + second;
    assert(seq![] + first + (between + second) =~= text);
    law_objects_in_a_row(seq![], first, between + second);
    assert(between + second + seq![] =~= between + second);
    law_objects_in_a_row(between, second, seq![]);
    assert(objects_in(text)[0] == first);
    assert(objects_in(text)[1] == second);
    law_parsed_object_is_the_output(parse, text, 1, event, output);
}

/// The scan of a text is in the state that marks of its strings give, and the closing place is
/// where the marks of its depth say.
proof fn lemma_marked_closing_place(
    text: Seq<char>,
    start: int,
    s: Seq<char>,
    quoted: Seq<bool>,
    escaped: Seq<bool>,
    depth: Seq<int>,
    end: int,
    at: int,
)
    requires
        0 <= start,
        start + s.len() == text.len(),
        forall|i: int| 0 <= i < s.len() ==> #[trigger] s[i] == text[start + i],
        s.len() > 0 && s[0] == '{',
        quoted.len() == s.len() + 1 && !quoted[0],
        escaped.len() == s.len() + 1 && !escaped[0],
        depth.len() == s.len() + 1 && depth[0] == 0,
        forall|i: int|
            0 <= i < s.len() ==> if #[trigger] s[i] == '"' {
                &&& quoted[i + 1] == (!quoted[i] || escaped[i])
                &&& !escaped[i + 1]
                &&& depth[i + 1] == depth[i]
            } else {
                &&& quoted[i + 1] == quoted[i]
                &&& escaped[i + 1] == (s[i] == '\\' && quoted[i] && !escaped[i])
                &&& s[i] == '{' && !quoted[i] ==> depth[i + 1] == depth[i] + 1
                &&& s[i] == '}' && !quoted[i] ==> depth[i + 1] == depth[i] - 1
                &&& s[i] != '{' && s[i] != '}' || quoted[i] ==> depth[i + 1] == depth[i]
            },
        0 <= at < end <= s.len() + 1,
        forall|i: int| 0 < i < end && i <= s.len() ==> #[trigger] depth[i] > 0,
        end <= s.len() ==> depth[end] == 0,
        escaped[at] ==> quoted[at],
    ensures
        closing_place(
            text,
            start + at,
            if !quoted[at] {
                Scan::Code
            } else if escaped[at] {
                Scan::Escaped
            } else {
                Scan::Quoted
            },
            depth[at],
        ) == if end <= s.len() {
            Some(start + end - 1)
        } else {
            None
        },
    decreases end - at,
{
    if at < s.len() {
        let c = s[at];
        assert(c == text[start + at]);
        if at + 1 < end {
            assert(depth[at + 1] > 0);
            lemma_marked_closing_place(
                text,
                start,
                s,
                quoted,
                escaped,
                depth,
                end,
                at + 1,
            );
        } else {
            assert(at > 0 ==> depth[at] > 0);
        }
    }
}

/// The first `{` of a text opens an object that reaches to where as many braces are closed as were
/// opened, however deep they are nested, and no further. The marks say of every place in the text
/// from that brace on whether it is within a JSON string, whether it is behind a backslash there,
/// and how many more braces were opened than closed outside of strings.
pub proof fn law_object_reaches_to_its_closing_brace(
    before: Seq<char>,
    s: Seq<char>,
    quoted: Seq<bool>,
    escaped: Seq<bool>,
    depth: Seq<int>,
    end: int,
)
    requires
        forall|i: int| 0 <= i < before.len() ==> #[trigger] before[i] != '{',
        s.len() > 0 && s[0] == '{',
        quoted.len() == s.len() + 1 && !quoted[0],
        escaped.len() == s.len() + 1 && !escaped[0],
        depth.len() == s.len() + 1 && depth[0] == 0,
        forall|i: int|
            0 <= i < s.len() ==> if #[trigger] s[i] == '"' {
                &&& quoted[i + 1] == (!quoted[i] || escaped[i])
                &&& !escaped[i + 1]
                &&& depth[i + 1] == depth[i]
            } else {
                &&& quoted[i + 1] == quoted[i]
                &&& escaped[i + 1] == (s[i] == '\\' && quoted[i] && !escaped[i])
                &&& s[i] == '{' && !quoted[i] ==> depth[i + 1] == depth[i] + 1
                &&& s[i] == '}' && !quoted[i] ==> depth[i + 1] == depth[i] - 1
                &&& s[i] != '{' && s[i] != '}' || quoted[i] ==> depth[i + 1] == depth[i]
            },
        0 < end <= s.len(),
        depth[end] == 0,
        forall|i: int| 0 < i < end ==> #[trigger] depth[i] > 0,
    ensures
        object_in(before + s) == Some(s.take(end)),
{
    let text = before + s;
    let start = before.len() as int;
    lemma_place_behind(before, s);
    lemma_marked_closing_place(text, start, s, quoted, escaped, depth, end, 0);
    assert(text.subrange(start, start + end) =~= s.take(end));
}

/// Where more braces stay open than are closed from the first `{` of a text on, there is no object
/// at that brace. The marks are those of `law_object_reaches_to_its_closing_brace`.
pub proof fn law_open_brace_is_no_object(
    before: Seq<char>,
    s: Seq<char>,
    quoted: Seq<bool>,
    escaped: Seq<bool>,
    depth: Seq<int>,
)
    requires
        forall|i: int| 0 <= i < before.len() ==> #[trigger] before[i] != '{',
        s.len() > 0 && s[0] == '{',
        quoted.len() == s.len() + 1 && !quoted[0],
        escaped.len() == s.len() + 1 && !escaped[0],
        depth.len() == s.len() + 1 && depth[0] == 0,
        forall|i: int|
            0 <= i < s.len() ==> if #[trigger] s[i] == '"' {
                &&& quoted[i + 1] == (!quoted[i] || escaped[i])
                &&& !escaped[i + 1]
                &&& depth[i + 1] == depth[i]
            } else {
                &&& quoted[i + 1] == quoted[i]
                &&& escaped[i + 1] == (s[i] == '\\' && quoted[i] && !escaped[i])
                &&& s[i] == '{' && !quoted[i] ==> depth[i + 1] == depth[i] + 1
                &&& s[i] == '}' && !quoted[i] ==> depth[i + 1] == depth[i] - 1
                &&& s[i] != '{' && s[i] != '}' || quoted[i] ==> depth[i + 1] == depth[i]
            },
        forall|i: int| 0 < i <= s.len() ==> #[trigger] depth[i] > 0,
    ensures
        object_in(before + s) is None,
{
    lemma_place_behind(before, s);
    lemma_marked_closing_place(
        before + s,
        before.len() as int,
        s,
        quoted,
        escaped,
        depth,
        s.len() as int + 1,
        0,
    );
}

/// The first `{` of a text is the one behind a part without any.
proof fn lemma_place_behind(before: Seq<char>, s: Seq<char>)
    requires
        forall|i: int| 0 <= i < before.len() ==> #[trigger] before[i] != '{',
        s.len() > 0 && s[0] == '{',
    ensures
        first_place(before + s, '{') == before.len(),
{
    let text = before + s;
    lemma_first_place(text, '{');
    assert(text[before.len() as int] == '{');
    assert forall|i: int| 0 <= i < before.len() implies #[trigger] text[i] != '{' by {
        assert(text[i] == before[i]);
    }
}

/// A text without a `{` holds no object.
pub proof fn law_no_object_without_a_brace(text: Seq<char>)
    requires
        forall|i: int| 0 <= i < text.len() ==> #[trigger] text[i] != '{',
    ensures
        object_in(text) is None,
        objects_in(text).len() == 0,
{
    lemma_first_place(text, '{');
    lemma_closing_place(text, first_place(text, '{'), Scan::Code, 0);
}

/// A `{` that nothing closes hides no object behind it.
pub proof fn law_open_brace_is_passed_over(before: Seq<char>, after: Seq<char>)
    requires
        forall|i: int| 0 <= i < before.len() ==> #[trigger] before[i] != '{',
        object_in(before + seq!['{'] + after) is None,
    ensures
        objects_in(before + seq!['{'] + after) == objects_in(after),
{
    let text = before + seq!['{'] + after;
    assert(before + (seq!['{'] + after) =~= text);
    lemma_place_behind(before, seq!['{'] + after);
    assert(behind_object(text) =~= after);
}

/// What the parser surely gives for the text is the output, whatever it gives for its parts.
pub proof fn law_parser_decides_on_the_text<
    F,
    R: Default,
    P: Fn(&str) -> Option<ReviewOutputEvent<F, R>>,
>(parse: P, text: Seq<char>, event: ReviewOutputEvent<F, R>, output: ReviewOutputEvent<F, R>)
    requires
        reads_as(parse, text, output),
        forall|s: &str, parsed: Option<ReviewOutputEvent<F, R>>|
            s@ == text && #[trigger] call_ensures(parse, (s,), parsed) ==> parsed == Some(event),
    ensures
        output == event,
{
    law_parsed_text_is_the_output(parse, text, event, output);
}

/// Where the parser refuses the text and the objects in it before the one at `place`, what it
/// surely gives for that one is the output, however many were refused.
pub proof fn law_parser_decides_on_the_objects<
    F,
    R: Default,
    P: Fn(&str) -> Option<ReviewOutputEvent<F, R>>,
>(
    parse: P,
    text: Seq<char>,
    place: int,
    event: ReviewOutputEvent<F, R>,
    output: ReviewOutputEvent<F, R>,
)
    requires
        reads_as(parse, text, output),
        0 <= place < objects_in(text).len(),
        forall|s: &str, parsed: Option<ReviewOutputEvent<F, R>>|
            (s@ == text || exists|i: int| 0 <= i < place && #[trigger] objects_in(text)[i] == s@)
                && #[trigger] call_ensures(parse, (s,), parsed) ==> parsed is None,
        forall|s: &str, parsed: Option<ReviewOutputEvent<F, R>>|
            s@ == objects_in(text)[place] && #[trigger] call_ensures(parse, (s,), parsed)
                ==> parsed == Some(event),
    ensures
        output == event,
{
    assert forall|i: int, parsed: Option<ReviewOutputEvent<F, R>>|
        0 <= i < place && #[trigger] parses_to(
            parse,
            objects_in(text)[i],
            parsed,
        ) implies parsed is None by {
        let s = choose|s: &str|
            s@ == objects_in(text)[i] && #[trigger] call_ensures(parse, (s,), parsed);
        assert(call_ensures(parse, (s,), parsed));
    }
    law_parsed_object_is_the_output(parse, text, place, event, output);
}

/// Where the parser refuses the text and every object in it, the output is the text itself, as
/// the explanation, without findings.
pub proof fn law_refused_text_is_the_explanation<
    F,
    R: Default,
    P: Fn(&str) -> Option<ReviewOutputEvent<F, R>>,
>(parse: P, text: Seq<char>, output: ReviewOutputEvent<F, R>)
    requires
        reads_as(parse, text, output),
        forall|s: &str, parsed: Option<ReviewOutputEvent<F, R>>|
            (s@ == text || objects_in(text).contains(s@)) && #[trigger] call_ensures(
                parse,
                (s,),
                parsed,
            ) ==> parsed is None,
    ensures
        output.findings@.len() == 0,
        output.overall_explanation@ == text,
        call_ensures(R::default, (), output.rest),
{
    assert forall|i: int, parsed: Option<ReviewOutputEvent<F, R>>|
        0 <= i < objects_in(text).len() && #[trigger] parses_to(
            parse,
            objects_in(text)[i],
            parsed,
        ) implies parsed is None by {
        let s = choose|s: &str|
            s@ == objects_in(text)[i] && #[trigger] call_ensures(parse, (s,), parsed);
        assert(objects_in(text).contains(s@));
        assert(call_ensures(parse, (s,), parsed));
    }
    law_unparsed_text_is_kept(parse, text, output);
}

/// A message that holds a complete object, however deep it is nested, behind a part without braces
/// is read as what the parser surely gives for that object, whatever stands behind it, where the
/// parser refuses the message. The marks are those of `law_object_reaches_to_its_closing_brace`.
pub proof fn law_embedded_object_is_the_output<
    F,
    R: Default,
    P: Fn(&str) -> Option<ReviewOutputEvent<F, R>>,
>(
    parse: P,
    before: Seq<char>,
    s: Seq<char>,
    quoted: Seq<bool>,
    escaped: Seq<bool>,
    depth: Seq<int>,
    after: Seq<char>,
    event: ReviewOutputEvent<F, R>,
    output: ReviewOutputEvent<F, R>,
)
    requires
        forall|i: int| 0 <= i < before.len() ==> #[trigger] before[i] != '{',
        s.len() > 0 && s[0] == '{',
        quoted.len() == s.len() + 1 && !quoted[0],
        escaped.len() == s.len() + 1 && !escaped[0],
        depth.len() == s.len() + 1 && depth[0] == 0,
        forall|i: int|
            0 <= i < s.len() ==> if #[trigger] s[i] == '"' {
                &&& quoted[i + 1] == (!quoted[i] || escaped[i])
                &&& !escaped[i + 1]
                &&& depth[i + 1] == depth[i]
            } else {
                &&& quoted[i + 1] == quoted[i]
                &&& escaped[i + 1] == (s[i] == '\\' && quoted[i] && !escaped[i])
                &&& s[i] == '{' && !quoted[i] ==> depth[i + 1] == depth[i] + 1
                &&& s[i] == '}' && !quoted[i] ==> depth[i + 1] == depth[i] - 1
                &&& s[i] != '{' && s[i] != '}' || quoted[i] ==> depth[i + 1] == depth[i]
            },
        depth[s.len() as int] == 0,
        forall|i: int| 0 < i < s.len() ==> #[trigger] depth[i] > 0,
        reads_as(parse, before + s + after, output),
        forall|t: &str, parsed: Option<ReviewOutputEvent<F, R>>|
            t@ == before + s + after && #[trigger] call_ensures(parse, (t,), parsed)
                ==> parsed is None,
        forall|t: &str, parsed: Option<ReviewOutputEvent<F, R>>|
            t@ == s && #[trigger] call_ensures(parse, (t,), parsed) ==> parsed == Some(event),
    ensures
        output == event,
{
    let none: Seq<char> = seq![];
    law_object_reaches_to_its_closing_brace(none, s, quoted, escaped, depth, s.len() as int);
    assert(none + s =~= s);
    assert(s.take(s.len() as int) =~= s);
    law_objects_in_a_row(before, s, after);
    assert(objects_in(before + s + after)[0] == s);
    law_parser_decides_on_the_objects(parse, before + s + after, 0, event, output);
}

} // verus!
