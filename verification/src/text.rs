//! What the library needs to know of text: whitespace trimming, prefixes,
//! suffixes, containment and joining, each stated over sequences of characters.

use vstd::prelude::*;

verus! {

/// The characters with Unicode's `White_Space` property.
pub open spec fn is_white_space(c: char) -> bool {
    let code = c as u32;
    ||| 0x09 <= code <= 0x0d
    ||| code == 0x20
    ||| code == 0x85
    ||| code == 0xa0
    ||| code == 0x1680
    ||| 0x2000 <= code <= 0x200a
    ||| code == 0x2028
    ||| code == 0x2029
    ||| code == 0x202f
    ||| code == 0x205f
    ||| code == 0x3000
}

/// `text` without its leading whitespace.
pub open spec fn trimmed_start(text: Seq<char>) -> Seq<char>
    decreases text.len(),
{
    if text.len() > 0 && is_white_space(text[0]) {
        trimmed_start(text.drop_first())
    } else {
        text
    }
}

/// `text` without its trailing whitespace.
pub open spec fn trimmed_end(text: Seq<char>) -> Seq<char>
    decreases text.len(),
{
    if text.len() > 0 && is_white_space(text.last()) {
        trimmed_end(text.drop_last())
    } else {
        text
    }
}

/// An ASCII capital as its small letter; any other character as it is.
pub open spec fn ascii_lower(c: char) -> char {
    if 'A' <= c <= 'Z' {
        ((c as u32) + 0x20) as char
    } else {
        c
    }
}

/// `text` with its ASCII capitals as small letters.
pub open spec fn ascii_lowered(text: Seq<char>) -> Seq<char> {
    text.map_values(|c: char| ascii_lower(c))
}

/// `needle` stands in `text` at position `at`.
pub open spec fn occurs_at(text: Seq<char>, needle: Seq<char>, at: int) -> bool {
    0 <= at && at + needle.len() <= text.len() && text.subrange(at, at + needle.len()) == needle
}

/// `needle` stands somewhere in `text`.
pub open spec fn contains_text(text: Seq<char>, needle: Seq<char>) -> bool {
    exists|at: int| #[trigger] occurs_at(text, needle, at)
}

/// Leading and trailing whitespace aside, `text` begins with `open` and ends with
/// `close`, where ASCII letters may be capital or small.
pub open spec fn marked_text(text: Seq<char>, open: Seq<char>, close: Seq<char>) -> bool {
    let trimmed = trimmed_end(trimmed_start(text));
    &&& ascii_lowered(open).is_prefix_of(ascii_lowered(trimmed))
    &&& ascii_lowered(close).is_suffix_of(ascii_lowered(trimmed))
}

/// `text` begins with one of `prefixes`.
pub open spec fn starts_with_any(text: Seq<char>, prefixes: Seq<Seq<char>>) -> bool {
    exists|i: int| 0 <= i < prefixes.len() && (#[trigger] prefixes[i]).is_prefix_of(text)
}

/// `lines`, one after the other, with a newline between neighbours.
pub open spec fn joined_lines(lines: Seq<Seq<char>>) -> Seq<char>
    decreases lines.len(),
{
    if lines.len() == 0 {
        Seq::empty()
    } else if lines.len() == 1 {
        lines[0]
    } else {
        joined_lines(lines.drop_last()) + seq!['\n'] + lines.last()
    }
}

/// Calls `str::trim_start`: the text without leading whitespace, where whitespace
/// is what Unicode's `White_Space` property says.
#[verifier::external_body]
pub(crate) fn trim_start(text: &str) -> (rest: &str)
    ensures
        rest@ == trimmed_start(text@),
{
    text.trim_start()
}

/// Calls `str::trim_end`: the text without trailing whitespace, where whitespace
/// is what Unicode's `White_Space` property says.
#[verifier::external_body]
pub(crate) fn trim_end(text: &str) -> (rest: &str)
    ensures
        rest@ == trimmed_end(text@),
{
    text.trim_end()
}

/// Calls `str::to_ascii_lowercase`: the text with the letters `A` to `Z` mapped
/// to `a` to `z`, and every other character as it is.
#[verifier::external_body]
pub(crate) fn to_ascii_lowercase(text: &str) -> (lowered: String)
    ensures
        lowered@ == ascii_lowered(text@),
{
    text.to_ascii_lowercase()
}

/// Calls `str::strip_prefix`: what follows `prefix` in `text`, where `text`
/// begins with it.
#[verifier::external_body]
pub(crate) fn strip_prefix<'a>(text: &'a str, prefix: &str) -> (rest: Option<&'a str>)
    ensures
        rest is Some == prefix@.is_prefix_of(text@),
        rest matches Some(tail) ==> text@ == prefix@ + tail@,
{
    text.strip_prefix(prefix)
}

/// Calls `str::split_once`: the text before and after the first `separator`,
/// where there is one.
#[verifier::external_body]
pub(crate) fn split_once<'a>(text: &'a str, separator: char) -> (parts: Option<(&'a str, &'a str)>)
    ensures
        parts is Some == text@.contains(separator),
        parts matches Some((before, after)) ==> {
            &&& text@ == before@ + seq![separator] + after@
            &&& !before@.contains(separator)
        },
{
    text.split_once(separator)
}

/// Calls `str::starts_with`: whether `prefix` is a prefix of `text`.
#[verifier::external_body]
pub(crate) fn starts_with(text: &str, prefix: &str) -> (found: bool)
    ensures
        found == prefix@.is_prefix_of(text@),
{
    text.starts_with(prefix)
}

/// Calls `str::ends_with`: whether `suffix` is a suffix of `text`.
#[verifier::external_body]
pub(crate) fn ends_with(text: &str, suffix: &str) -> (found: bool)
    ensures
        found == suffix@.is_suffix_of(text@),
{
    text.ends_with(suffix)
}

/// Calls `str::contains`: whether `needle` occurs anywhere in `text`.
#[verifier::external_body]
pub(crate) fn contains(text: &str, needle: &str) -> (found: bool)
    ensures
        found == contains_text(text@, needle@),
{
    text.contains(needle)
}

/// Whether `text` stands between the markers `open` and `close`, leading and
/// trailing whitespace aside and ignoring the case of ASCII letters.
pub fn matches_marked_text(text: &str, open: &str, close: &str) -> (marked: bool)
    ensures
        marked == marked_text(text@, open@, close@),
{
    let lowered = to_ascii_lowercase(trim_end(trim_start(text)));
    let open = to_ascii_lowercase(open);
    let close = to_ascii_lowercase(close);
    starts_with(lowered.as_str(), open.as_str()) && ends_with(lowered.as_str(), close.as_str())
}

/// Lowering letters and trimming whitespace go in either order.
pub proof fn lowering_commutes_with_trimming(text: Seq<char>)
    ensures
        trimmed_start(ascii_lowered(text)) == ascii_lowered(trimmed_start(text)),
        trimmed_end(ascii_lowered(text)) == ascii_lowered(trimmed_end(text)),
    decreases text.len(),
{
    if text.len() > 0 {
        lowering_commutes_with_trimming(text.drop_first());
        lowering_commutes_with_trimming(text.drop_last());
        assert(ascii_lowered(text).drop_first() =~= ascii_lowered(text.drop_first()));
        assert(ascii_lowered(text).drop_last() =~= ascii_lowered(text.drop_last()));
        assert(ascii_lowered(text)[0] == ascii_lower(text[0]));
        assert(ascii_lowered(text).last() == ascii_lower(text.last()));
    }
}

/// Whether a text stands between markers does not depend on the case of its
/// ASCII letters, nor on that of the markers'.
pub proof fn letter_case_does_not_matter(
    text: Seq<char>,
    other: Seq<char>,
    open: Seq<char>,
    other_open: Seq<char>,
    close: Seq<char>,
    other_close: Seq<char>,
)
    requires
        ascii_lowered(text) == ascii_lowered(other),
        ascii_lowered(open) == ascii_lowered(other_open),
        ascii_lowered(close) == ascii_lowered(other_close),
    ensures
        marked_text(text, open, close) == marked_text(other, other_open, other_close),
{
    lowering_commutes_with_trimming(text);
    lowering_commutes_with_trimming(other);
    lowering_commutes_with_trimming(trimmed_start(text));
    lowering_commutes_with_trimming(trimmed_start(other));
}

/// Every text contains itself.
pub proof fn text_contains_itself(text: Seq<char>)
    ensures
        contains_text(text, text),
{
    assert(text.subrange(0, text.len() as int) =~= text);
    assert(occurs_at(text, text, 0));
}

/// A text contains each of the parts that it is made of.
pub proof fn concatenation_contains_middle(before: Seq<char>, middle: Seq<char>, after: Seq<char>)
    ensures
        contains_text(before + middle + after, middle),
{
    let whole = before + middle + after;
    let at = before.len() as int;
    assert(whole.subrange(at, at + middle.len()) =~= middle);
    assert(occurs_at(whole, middle, at));
}

/// Trimming the beginning takes away whitespace and nothing else, and all that
/// stands there.
pub proof fn trimming_the_start(text: Seq<char>)
    ensures
        exists|blank: Seq<char>|
            text == #[trigger] (blank + trimmed_start(text)) && forall|i: int|
                0 <= i < blank.len() ==> is_white_space(#[trigger] blank[i]),
        trimmed_start(text).len() > 0 ==> !is_white_space(trimmed_start(text)[0]),
    decreases text.len(),
{
    if text.len() > 0 && is_white_space(text[0]) {
        trimming_the_start(text.drop_first());
        let rest = choose|blank: Seq<char>|
            text.drop_first() == #[trigger] (blank + trimmed_start(text.drop_first())) && forall|
                i: int,
            |
                0 <= i < blank.len() ==> is_white_space(#[trigger] blank[i]);
        let blank = seq![text[0]] + rest;
        assert(text =~= seq![text[0]] + text.drop_first());
        assert(text =~= blank + trimmed_start(text));
    } else {
        assert(text =~= Seq::<char>::empty() + trimmed_start(text));
    }
}

/// Trimming the end takes away whitespace and nothing else, and all that stands
/// there.
pub proof fn trimming_the_end(text: Seq<char>)
    ensures
        exists|blank: Seq<char>|
            text == #[trigger] (trimmed_end(text) + blank) && forall|i: int|
                0 <= i < blank.len() ==> is_white_space(#[trigger] blank[i]),
        trimmed_end(text).len() > 0 ==> !is_white_space(trimmed_end(text).last()),
    decreases text.len(),
{
    if text.len() > 0 && is_white_space(text.last()) {
        trimming_the_end(text.drop_last());
        let rest = choose|blank: Seq<char>|
            text.drop_last() == #[trigger] (trimmed_end(text.drop_last()) + blank) && forall|
                i: int,
            |
                0 <= i < blank.len() ==> is_white_space(#[trigger] blank[i]);
        let blank = rest.push(text.last());
        assert(text =~= text.drop_last().push(text.last()));
        assert(text =~= trimmed_end(text) + blank);
    } else {
        assert(text =~= trimmed_end(text) + Seq::<char>::empty());
    }
}

} // verus!
