//! Comparisons of strings, stated over their character sequences.

use vstd::prelude::*;

verus! {

/// `needle` stands in `haystack` from position `start` on.
pub open spec fn occurs_at(needle: Seq<char>, haystack: Seq<char>, start: int) -> bool {
    &&& 0 <= start
    &&& start + needle.len() <= haystack.len()
    &&& haystack.subrange(start, start + needle.len()) == needle
}

/// `needle` is a run of consecutive characters of `haystack`. The empty
/// string occurs in every string.
pub open spec fn occurs_in(needle: Seq<char>, haystack: Seq<char>) -> bool {
    exists|start: int| occurs_at(needle, haystack, start)
}

/// Equality of string slices, `str::eq` of the standard library: two slices
/// are equal exactly when they hold the same characters in the same order.
#[verifier::external_body]
pub(crate) fn str_eq(a: &str, b: &str) -> (equal: bool)
    ensures
        equal == (a@ == b@),
{
    a == b
}

/// Substring search, `str::contains` of the standard library with a string
/// slice as the pattern: true exactly when the pattern matches a sub-slice of
/// `haystack`.
#[verifier::external_body]
pub(crate) fn str_contains(haystack: &str, needle: &str) -> (found: bool)
    ensures
        found == occurs_in(needle@, haystack@),
{
    haystack.contains(needle)
}

} // verus!
