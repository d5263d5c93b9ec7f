//! Lookup by a dotted path: `a.b.c` reads `a` in the object, `b` in what
//! that gave, and `c` in what that gave.

use crate::error::KeyNotFound;
use crate::value::{Json, Value};
use vstd::prelude::*;

verus! {

/// The separator of the segments of a path.
pub const SEPARATOR: char = '.';

/// The length of the segment of `path` that starts at `from`: the number of
/// characters from there to the next separator, or to the end.
pub open spec fn segment_len(path: Seq<char>, from: int) -> nat
    decreases path.len() - from,
{
    if from < 0 || from >= path.len() || path[from] == SEPARATOR {
        0
    } else {
        1 + segment_len(path, from + 1)
    }
}

/// What the segments of `path` from position `from` on lead to, starting in
/// `value`: the value under the last segment, or the first segment that is
/// no key of the value it is looked up in.
pub open spec fn descend(value: Json, path: Seq<char>, from: int) -> Result<Json, Seq<char>>
    decreases path.len() - from,
{
    let end = from + segment_len(path, from);
    let segment = path.subrange(from, end);
    match value.member(segment) {
        None => Err(segment),
        Some(next) => if end < path.len() {
            descend(next, path, end + 1)
        } else {
            Ok(next)
        },
    }
}

/// The end of the segment that starts at `from`.
fn segment_end(key: &str, length: usize, from: usize) -> (end: usize)
    requires
        length == key@.len(),
        from <= length,
    ensures
        end == from + segment_len(key@, from as int),
        end <= length,
{
    let mut end: usize = from;
    let mut open: bool = true;
    while open && end < length
        invariant
            from <= end <= length,
            length == key@.len(),
            from + segment_len(key@, from as int) == end + segment_len(key@, end as int),
            !open ==> end < length && key@[end as int] == SEPARATOR,
        decreases length - end + (if open { 1nat } else { 0nat }),
    {
        if key.get_char(end) == SEPARATOR {
            open = false;
        } else {
            end = end + 1;
        }
    }
    end
}

/// The value that the dotted path `key` leads to in `object`, or the first
/// segment of the path that is no key of the value it is looked up in. A
/// path without a separator is a single key.
pub fn get_object_value<'a>(object: &'a Value, key: &str) -> (result: Result<
    &'a Value,
    KeyNotFound,
>)
    ensures
        match result {
            Ok(found) => descend(object@, key@, 0) == Ok::<Json, Seq<char>>(found@),
            Err(missing) => descend(object@, key@, 0) == Err::<Json, Seq<char>>(missing.key@),
        },
{
    let length: usize = key.unicode_len();
    let mut current: &'a Value = object;
    let mut from: usize = 0;
    loop
        invariant
            length == key@.len(),
            from <= length,
            descend(object@, key@, 0) == descend(current@, key@, from as int),
        decreases length - from,
    {
        let end: usize = segment_end(key, length, from);
        let segment: &str = key.substring_char(from, end);
        match current.get(segment) {
            None => {
                return Err(KeyNotFound { key: String::from_str(segment) });
            },
            Some(next) => {
                if end < length {
                    current = next;
                    from = end + 1;
                } else {
                    return Ok(next);
                }
            },
        }
    }
}

} // verus!
