//! Pattern location: find the leftmost occurrence of a byte pattern in the
//! buffer and derive the field offset one byte past the match (each key is
//! followed by a single filler byte before its value begins).

use vstd::prelude::*;

verus! {

/// The pattern occurs in `b` starting at index `i`.
pub open spec fn matches_at(b: Seq<u8>, p: Seq<u8>, i: int) -> bool {
    &&& 0 <= i
    &&& i + p.len() <= b.len()
    &&& forall|j: int| 0 <= j < p.len() ==> b[i + j] == p[j]
}

/// The index of the first occurrence of `p` in `b` at or after `i`, if any.
pub open spec fn first_match_from(b: Seq<u8>, p: Seq<u8>, i: int) -> Option<int>
    decreases b.len() - i,
{
    if i < 0 || i + p.len() > b.len() {
        None
    } else if matches_at(b, p, i) {
        Some(i)
    } else {
        first_match_from(b, p, i + 1)
    }
}

/// The index of the leftmost occurrence of `p` in `b`, if any.
pub open spec fn find_pattern(b: Seq<u8>, p: Seq<u8>) -> Option<int> {
    first_match_from(b, p, 0)
}

/// The derived field offset for a pattern: one byte past the end of the
/// leftmost match, skipping the filler byte that follows every key.
pub open spec fn located_offset(b: Seq<u8>, p: Seq<u8>) -> Option<int> {
    match find_pattern(b, p) {
        Some(i) => Some(i + p.len() + 1),
        None => None,
    }
}

proof fn lemma_first_match_from_properties(b: Seq<u8>, p: Seq<u8>, i: int)
    requires
        0 <= i,
    ensures
        match first_match_from(b, p, i) {
            Some(k) => {
                &&& i <= k
                &&& matches_at(b, p, k)
                &&& forall|j: int| i <= j < k ==> !matches_at(b, p, j)
            },
            None => forall|j: int| j >= i ==> !matches_at(b, p, j),
        },
    decreases b.len() - i,
{
    if i + p.len() > b.len() {
        assert forall|j: int| j >= i implies !matches_at(b, p, j) by {}
    } else if matches_at(b, p, i) {
    } else {
        lemma_first_match_from_properties(b, p, i + 1);
    }
}

/// The leftmost-match law: `find_pattern` returns the index of an
/// occurrence that no occurrence precedes, and returns nothing exactly
/// when the pattern occurs nowhere in the buffer.
pub proof fn lemma_find_pattern_leftmost(b: Seq<u8>, p: Seq<u8>)
    ensures
        match find_pattern(b, p) {
            Some(k) => {
                &&& 0 <= k
                &&& matches_at(b, p, k)
                &&& forall|j: int| 0 <= j < k ==> !matches_at(b, p, j)
            },
            None => forall|j: int| !matches_at(b, p, j),
        },
{
    lemma_first_match_from_properties(b, p, 0);
}

/// Compare `p` against `b` at position `i`.
fn is_match_at(b: &[u8], p: &[u8], i: usize) -> (r: bool)
    requires
        i + p@.len() <= b@.len() <= usize::MAX,
    ensures
        r == matches_at(b@, p@, i as int),
{
    let m = p.len();
    let mut j: usize = 0;
    while j < m
        invariant
            j <= m,
            i + m <= b@.len() <= usize::MAX,
            m == p@.len(),
            forall|k: int| 0 <= k < j ==> b@[i + k] == p@[k],
        decreases m - j,
    {
        if b[i + j] != p[j] {
            return false;
        }
        j += 1;
    }
    true
}

/// Scan the buffer for the leftmost occurrence of `pattern` and return the
/// offset one byte past the match, or nothing when the pattern is absent.
pub fn search_bytes(bytes: &[u8], pattern: &[u8]) -> (r: Option<usize>)
    requires
        bytes@.len() < usize::MAX,
    ensures
        r == match located_offset(bytes@, pattern@) {
            Some(off) => Some(off as usize),
            None => None::<usize>,
        },
{
    let n = bytes.len();
    let m = pattern.len();
    if m > n {
        return None;
    }
    let mut i: usize = 0;
    while i <= n - m
        invariant
            i <= n - m + 1,
            m <= n,
            n == bytes@.len() < usize::MAX,
            m == pattern@.len(),
            find_pattern(bytes@, pattern@) == first_match_from(bytes@, pattern@, i as int),
        decreases n - i,
    {
        if is_match_at(bytes, pattern, i) {
            return Some(i + m + 1);
        }
        i += 1;
    }
    None
}

} // verus!
