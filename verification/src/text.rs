//! Searching and comparing text.

use vstd::prelude::*;

verus! {

/// Whether `pattern` stands somewhere in `text`.
pub open spec fn contains_text(text: Seq<char>, pattern: Seq<char>) -> bool {
    exists|i: int|
        0 <= i <= text.len() - pattern.len() && #[trigger] text.subrange(i, i + pattern.len())
            == pattern
}

/// Calls `str::contains` of the standard library with a string pattern: it reports whether the
/// pattern matches a part of the text.
#[verifier::external_body]
pub(crate) fn contains(text: &str, pattern: &str) -> (result: bool)
    ensures
        result == contains_text(text@, pattern@),
{
    text.contains(pattern)
}

/// Whether two texts are the same.
pub fn same_text(a: &str, b: &str) -> (result: bool)
    ensures
        result == (a@ == b@),
{
    a.to_owned() == b.to_owned()
}

} // verus!
