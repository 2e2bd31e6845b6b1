//! Substring search over raw bytes.

use bstr::ByteSlice;
use vstd::prelude::*;
use vstd::slice::slice_subrange;

verus! {

/// True when `needle` stands in `haystack` at byte position `at`.
pub open spec fn occurs_at(haystack: Seq<u8>, needle: Seq<u8>, at: int) -> bool {
    &&& 0 <= at
    &&& at + needle.len() <= haystack.len()
    &&& haystack.subrange(at, at + needle.len()) == needle
}

/// True when `found` is the result of searching `haystack` for `needle` from
/// byte position `start` on: the least position at or after `start` at which
/// `needle` stands, or nothing where there is none.
pub open spec fn is_first_from(
    haystack: Seq<u8>,
    needle: Seq<u8>,
    start: int,
    found: Option<int>,
) -> bool {
    match found {
        Some(at) => {
            &&& start <= at
            &&& occurs_at(haystack, needle, at)
            &&& forall|j: int| start <= j < at ==> !occurs_at(haystack, needle, j)
        },
        None => forall|j: int| start <= j ==> !occurs_at(haystack, needle, j),
    }
}

/// The byte position that a signed `offset` into `len` bytes names: itself
/// when it is not negative, `len + offset` when it is; nothing where that
/// falls before the first byte or after the end.
pub open spec fn start_of(len: int, offset: int) -> Option<int> {
    if 0 <= offset <= len {
        Some(offset)
    } else if offset < 0 && 0 <= len + offset {
        Some(len + offset)
    } else {
        None
    }
}

/// True when `found` is the result of an index search in `haystack` for
/// `needle` that starts at the signed `offset`.
pub open spec fn is_index_of(
    haystack: Seq<u8>,
    needle: Seq<u8>,
    offset: int,
    found: Option<int>,
) -> bool {
    match start_of(haystack.len() as int, offset) {
        Some(start) => is_first_from(haystack, needle, start, found),
        None => found is None,
    }
}

/// The result of an index search in `haystack` for `needle` that starts at
/// the signed `offset`.
pub open spec fn index_of(haystack: Seq<u8>, needle: Seq<u8>, offset: int) -> Option<int> {
    match start_of(haystack.len() as int, offset) {
        Some(start) => first_from(haystack, needle, start),
        None => None,
    }
}

/// The least position at or after `start` at which `needle` stands in
/// `haystack`.
pub open spec fn first_from(haystack: Seq<u8>, needle: Seq<u8>, start: int) -> Option<int>
    decreases haystack.len() - start,
{
    if start < 0 || start + needle.len() > haystack.len() {
        None
    } else if needle.len() == 0 || occurs_at(haystack, needle, start) {
        Some(start)
    } else {
        first_from(haystack, needle, start + 1)
    }
}

/// `first_from` finds the first occurrence.
pub proof fn lemma_first_from(haystack: Seq<u8>, needle: Seq<u8>, start: int)
    requires
        0 <= start,
    ensures
        is_first_from(haystack, needle, start, first_from(haystack, needle, start)),
    decreases haystack.len() - start,
{
    if start + needle.len() <= haystack.len() {
        if needle.len() == 0 {
            assert(haystack.subrange(start, start + 0) =~= needle);
        } else if !occurs_at(haystack, needle, start) {
            lemma_first_from(haystack, needle, start + 1);
        }
    }
}

/// A position as contracts speak of it.
pub open spec fn position(found: Option<usize>) -> Option<int> {
    match found {
        Some(at) => Some(at as int),
        None => None,
    }
}

/// Searches with `bstr::ByteSlice::find`, which returns the index of the
/// first occurrence of the needle in the haystack. Trusted: the result is
/// taken to be that index, or nothing where the needle does not occur.
#[verifier::external_body]
fn find(haystack: &[u8], needle: &[u8]) -> (found: Option<usize>)
    ensures
        is_first_from(haystack@, needle@, 0, position(found)),
{
    haystack.find(needle)
}

/// Resolves a signed offset into a string of `len` bytes.
pub fn resolve_offset(len: usize, offset: i64) -> (start: Option<usize>)
    ensures
        position(start) == start_of(len as int, offset as int),
{
    let len_wide: i128 = len as i128;
    let offset_wide: i128 = offset as i128;
    if offset >= 0 {
        if offset_wide <= len_wide {
            Some(offset as usize)
        } else {
            None
        }
    } else {
        let back: i128 = len_wide + offset_wide;
        if back >= 0 {
            Some(back as usize)
        } else {
            None
        }
    }
}

/// Index search: the position of the first occurrence of `needle` in
/// `haystack` at or after the signed `offset`. A negative offset counts from
/// the end. An empty needle is found at the starting position itself.
pub fn index(haystack: &[u8], needle: &[u8], offset: i64) -> (found: Option<usize>)
    ensures
        is_index_of(haystack@, needle@, offset as int, position(found)),
        position(found) == index_of(haystack@, needle@, offset as int),
{
    let found = index_from(haystack, needle, offset);
    proof {
        lemma_index_of(haystack@, needle@, offset as int, position(found));
    }
    found
}

fn index_from(haystack: &[u8], needle: &[u8], offset: i64) -> (found: Option<usize>)
    ensures
        is_index_of(haystack@, needle@, offset as int, position(found)),
{
    match resolve_offset(haystack.len(), offset) {
        None => None,
        Some(start) => {
            let tail = slice_subrange(haystack, start, haystack.len());
            match find(tail, needle) {
                None => {
                    proof {
                        assert forall|j: int| start <= j implies !occurs_at(
                            haystack@,
                            needle@,
                            j,
                        ) by {
                            lemma_occurs_in_tail(haystack@, needle@, start as int, j - start);
                        }
                    }
                    None
                },
                Some(at) => {
                    proof {
                        lemma_occurs_in_tail(haystack@, needle@, start as int, at as int);
                        assert forall|j: int| start <= j < start + at implies !occurs_at(
                            haystack@,
                            needle@,
                            j,
                        ) by {
                            lemma_occurs_in_tail(haystack@, needle@, start as int, j - start);
                        }
                    }
                    Some(start + at)
                },
            }
        },
    }
}

/// A needle stands in the tail of a haystack where it stands in the haystack
/// itself, moved by the length of what was cut off.
pub proof fn lemma_occurs_in_tail(haystack: Seq<u8>, needle: Seq<u8>, start: int, at: int)
    requires
        0 <= start <= haystack.len(),
        0 <= at,
    ensures
        occurs_at(haystack.subrange(start, haystack.len() as int), needle, at) <==> occurs_at(
            haystack,
            needle,
            start + at,
        ),
{
    let tail = haystack.subrange(start, haystack.len() as int);
    if at + needle.len() <= tail.len() {
        assert(tail.subrange(at, at + needle.len()) =~= haystack.subrange(
            start + at,
            start + at + needle.len(),
        ));
    }
}

/// An index search has one result only.
pub proof fn lemma_index_is_unique(
    haystack: Seq<u8>,
    needle: Seq<u8>,
    offset: int,
    first: Option<int>,
    second: Option<int>,
)
    requires
        is_index_of(haystack, needle, offset, first),
        is_index_of(haystack, needle, offset, second),
    ensures
        first == second,
{
}

/// What meets the description of an index search is its result.
pub proof fn lemma_index_of(haystack: Seq<u8>, needle: Seq<u8>, offset: int, found: Option<int>)
    requires
        is_index_of(haystack, needle, offset, found),
    ensures
        index_of(haystack, needle, offset) == found,
{
    match start_of(haystack.len() as int, offset) {
        Some(start) => {
            lemma_first_from(haystack, needle, start);
        },
        None => {},
    }
    lemma_index_is_unique(haystack, needle, offset, found, index_of(haystack, needle, offset));
}

/// An empty needle is found at the starting position itself.
pub proof fn lemma_empty_needle_at_start(haystack: Seq<u8>, offset: int, found: Option<int>)
    requires
        is_index_of(haystack, Seq::<u8>::empty(), offset, found),
    ensures
        found == start_of(haystack.len() as int, offset),
{
    match start_of(haystack.len() as int, offset) {
        Some(start) => {
            assert(haystack.subrange(start, start + 0) =~= Seq::<u8>::empty());
            assert(occurs_at(haystack, Seq::<u8>::empty(), start));
        },
        None => {},
    }
}

/// A negative offset `-k` searches as the offset `len - k` does, where `k`
/// is no more than the length.
pub proof fn lemma_negative_offset(haystack: Seq<u8>, needle: Seq<u8>, k: int)
    requires
        0 < k <= haystack.len(),
    ensures
        index_of(haystack, needle, -k) == index_of(haystack, needle, haystack.len() - k),
{
}

} // verus!
