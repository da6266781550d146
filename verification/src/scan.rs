//! Searching for a byte in a slice.
//!
//! The search itself is `memchr`'s; what it returns is stated exactly, and the
//! lemmas below connect that statement to [`index_of_byte`], the form the rest
//! of the library reasons with.

use vstd::prelude::*;

verus! {

/// `i` is the position of the first `needle` in `s`.
pub open spec fn is_first_at(s: Seq<u8>, needle: u8, i: int) -> bool {
    &&& 0 <= i < s.len()
    &&& s[i] == needle
    &&& forall|j: int| 0 <= j < i ==> s[j] != needle
}

/// `i` is the position of the last `needle` in `s`.
pub open spec fn is_last_at(s: Seq<u8>, needle: u8, i: int) -> bool {
    &&& 0 <= i < s.len()
    &&& s[i] == needle
    &&& forall|j: int| i < j < s.len() ==> s[j] != needle
}

/// `needle` does not occur in `s`.
pub open spec fn absent(s: Seq<u8>, needle: u8) -> bool {
    forall|j: int| 0 <= j < s.len() ==> s[j] != needle
}

/// `memchr::memchr` returns the index of the first occurrence of `needle` in
/// `haystack`, or `None` when there is none.
pub assume_specification[ memchr::memchr ](needle: u8, haystack: &[u8]) -> (r: Option<usize>)
    ensures
        match r {
            Some(i) => is_first_at(haystack@, needle, i as int),
            None => absent(haystack@, needle),
        },
;

/// `memchr::memrchr` returns the index of the last occurrence of `needle` in
/// `haystack`, or `None` when there is none.
pub assume_specification[ memchr::memrchr ](needle: u8, haystack: &[u8]) -> (r: Option<usize>)
    ensures
        match r {
            Some(i) => is_last_at(haystack@, needle, i as int),
            None => absent(haystack@, needle),
        },
;

/// The position of the first `needle` in `s`, or `s.len()` when there is none.
pub open spec fn index_of_byte(s: Seq<u8>, needle: u8) -> int
    decreases s.len(),
{
    if s.len() == 0 {
        0
    } else if s[0] == needle {
        0
    } else {
        1 + index_of_byte(s.drop_first(), needle)
    }
}

/// [`index_of_byte`] stays within bounds, skips only other bytes and stops on
/// the needle.
pub proof fn lemma_index_of_byte(s: Seq<u8>, needle: u8)
    ensures
        0 <= index_of_byte(s, needle) <= s.len(),
        forall|j: int| 0 <= j < index_of_byte(s, needle) ==> s[j] != needle,
        index_of_byte(s, needle) < s.len() ==> s[index_of_byte(s, needle)] == needle,
    decreases s.len(),
{
    if s.len() != 0 && s[0] != needle {
        let rest = s.drop_first();
        lemma_index_of_byte(rest, needle);
        assert forall|j: int| 0 <= j < index_of_byte(s, needle) implies s[j] != needle by {
            if j > 0 {
                assert(s[j] == rest[j - 1]);
            }
        }
        if index_of_byte(s, needle) < s.len() {
            assert(s[index_of_byte(s, needle)] == rest[index_of_byte(rest, needle)]);
        }
    }
}

/// A first occurrence found by search is where [`index_of_byte`] points.
pub proof fn lemma_first_is_index(s: Seq<u8>, needle: u8, i: int)
    requires
        is_first_at(s, needle, i),
    ensures
        index_of_byte(s, needle) == i,
{
    lemma_index_of_byte(s, needle);
}

/// When the needle is absent, [`index_of_byte`] is the length.
pub proof fn lemma_absent_is_len(s: Seq<u8>, needle: u8)
    requires
        absent(s, needle),
    ensures
        index_of_byte(s, needle) == s.len(),
{
    lemma_index_of_byte(s, needle);
}

/// The position of the last `needle` in `s`, or `-1` when there is none.
pub open spec fn last_index_of_byte(s: Seq<u8>, needle: u8) -> int
    decreases s.len(),
{
    if s.len() == 0 {
        -1
    } else if s.last() == needle {
        s.len() - 1
    } else {
        last_index_of_byte(s.drop_last(), needle)
    }
}

/// [`last_index_of_byte`] stays within bounds, skips only other bytes and
/// stops on the needle.
pub proof fn lemma_last_index_of_byte(s: Seq<u8>, needle: u8)
    ensures
        -1 <= last_index_of_byte(s, needle) < s.len(),
        forall|j: int| last_index_of_byte(s, needle) < j < s.len() ==> s[j] != needle,
        last_index_of_byte(s, needle) >= 0 ==> s[last_index_of_byte(s, needle)] == needle,
    decreases s.len(),
{
    if s.len() != 0 && s.last() != needle {
        let rest = s.drop_last();
        lemma_last_index_of_byte(rest, needle);
        assert forall|j: int| last_index_of_byte(s, needle) < j < s.len() implies s[j]
            != needle by {
            if j < s.len() - 1 {
                assert(s[j] == rest[j]);
            }
        }
        if last_index_of_byte(s, needle) >= 0 {
            assert(s[last_index_of_byte(s, needle)] == rest[last_index_of_byte(rest, needle)]);
        }
    }
}

/// A last occurrence found by search is where [`last_index_of_byte`] points.
pub proof fn lemma_last_is_index(s: Seq<u8>, needle: u8, i: int)
    requires
        is_last_at(s, needle, i),
    ensures
        last_index_of_byte(s, needle) == i,
{
    lemma_last_index_of_byte(s, needle);
}

} // verus!
