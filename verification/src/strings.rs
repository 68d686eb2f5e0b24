//! What this crate relies on of the standard library's strings beyond the
//! specifications that come with the verifier.

use vstd::prelude::*;

verus! {

/// `String::push` appends one character.
pub assume_specification[ String::push ](s: &mut String, ch: char)
    ensures
        final(s)@ == old(s)@.push(ch),
;

/// Whether `pattern` begins at the first character of `text`.
pub open spec fn starts_with(text: Seq<char>, pattern: Seq<char>) -> bool {
    pattern.len() <= text.len() && text.subrange(0, pattern.len() as int) == pattern
}

/// `text` with every occurrence of a non-empty `from` replaced by `to`.
/// Occurrences are found from left to right and do not overlap: the search
/// goes on behind the end of each occurrence.
pub open spec fn replace_all(text: Seq<char>, from: Seq<char>, to: Seq<char>) -> Seq<char>
    decreases text.len(),
{
    if from.len() == 0 || text.len() < from.len() {
        text
    } else if starts_with(text, from) {
        to + replace_all(text.subrange(from.len() as int, text.len() as int), from, to)
    } else {
        seq![text[0]] + replace_all(text.subrange(1, text.len() as int), from, to)
    }
}

/// `str::replace` with a non-empty pattern: a new string in which all
/// matches of the pattern, which do not overlap, are replaced.
#[verifier::external_body]
pub(crate) fn replace_str(text: &str, from: &str, to: &str) -> (r: String)
    requires
        from@.len() > 0,
    ensures
        r@ == replace_all(text@, from@, to@),
{
    text.replace(from, to)
}

/// Whether `pattern` occurs somewhere in `text`.
pub open spec fn contains_run(text: Seq<char>, pattern: Seq<char>) -> bool {
    exists|i: int|
        0 <= i && i + pattern.len() <= text.len() && #[trigger] text.subrange(
            i,
            i + pattern.len() as int,
        ) == pattern
}

/// `str::contains` with a string as the pattern: whether the pattern
/// matches a part of the text.
#[verifier::external_body]
pub(crate) fn str_contains(text: &str, pattern: &str) -> (r: bool)
    ensures
        r == contains_run(text@, pattern@),
{
    text.contains(pattern)
}

/// The lower-case equivalent of a text, as the Unicode character database
/// of the standard library defines it.
pub uninterp spec fn lowercase_of(text: Seq<char>) -> Seq<char>;

/// `str::to_lowercase`: the lower-case equivalent of the text as a new
/// string.
#[verifier::external_body]
pub(crate) fn str_to_lowercase(text: &str) -> (r: String)
    ensures
        r@ == lowercase_of(text@),
{
    text.to_lowercase()
}

} // verus!
