//! Substring containment on character sequences.

use vstd::prelude::*;
use vstd::string::StrSliceExecFns;

verus! {

/// The needle occurs in the haystack starting at character position `i`.
pub open spec fn is_match_at(hay: Seq<char>, needle: Seq<char>, i: int) -> bool {
    &&& 0 <= i
    &&& i + needle.len() <= hay.len()
    &&& hay.subrange(i, i + needle.len()) == needle
}

/// The needle occurs somewhere in the haystack as a contiguous run of
/// characters. An empty needle occurs in every haystack.
pub open spec fn has_substring(hay: Seq<char>, needle: Seq<char>) -> bool {
    exists|i: int| is_match_at(hay, needle, i)
}

/// An empty needle matches at position 0 of any haystack.
pub proof fn lemma_empty_needle_matches(hay: Seq<char>, needle: Seq<char>)
    requires
        needle.len() == 0,
    ensures
        has_substring(hay, needle),
{
    assert(hay.subrange(0, 0) =~= needle);
    assert(is_match_at(hay, needle, 0));
}

/// Compares the needle against the haystack characters starting at `at`.
fn is_match_at_position(hay: &str, needle: &str, at: usize) -> (found: bool)
    requires
        at + needle@.len() <= hay@.len(),
        hay@.len() <= usize::MAX,
    ensures
        found == is_match_at(hay@, needle@, at as int),
{
    let needle_len = needle.unicode_len();
    let mut j: usize = 0;
    while j < needle_len
        invariant
            needle_len == needle@.len(),
            at + needle_len <= hay@.len(),
            hay@.len() <= usize::MAX,
            j <= needle_len,
            forall|k: int| 0 <= k < j ==> hay@[at + k] == needle@[k],
        decreases needle_len - j,
    {
        if hay.get_char(at + j) != needle.get_char(j) {
            proof {
                assert(hay@.subrange(at as int, at + needle@.len())[j as int] == hay@[at + j]);
            }
            return false;
        }
        j = j + 1;
    }
    proof {
        assert(hay@.subrange(at as int, at + needle@.len()) =~= needle@);
    }
    true
}

/// Whether `hay` contains `needle` as a contiguous substring, comparing
/// characters literally.
pub fn contains_substring(hay: &str, needle: &str) -> (found: bool)
    ensures
        found == has_substring(hay@, needle@),
{
    let hay_len = hay.unicode_len();
    let needle_len = needle.unicode_len();
    if needle_len > hay_len {
        proof {
            assert(forall|i: int| !is_match_at(hay@, needle@, i));
        }
        return false;
    }
    let last_start = hay_len - needle_len;
    let mut i: usize = 0;
    loop
        invariant
            needle_len == needle@.len(),
            hay_len == hay@.len(),
            needle_len <= hay_len,
            last_start == hay_len - needle_len,
            i <= last_start,
            forall|k: int| 0 <= k < i ==> !is_match_at(hay@, needle@, k),
        decreases last_start - i,
    {
        if is_match_at_position(hay, needle, i) {
            return true;
        }
        if i == last_start {
            proof {
                assert(forall|k: int| k > last_start ==> !is_match_at(hay@, needle@, k));
            }
            return false;
        }
        i = i + 1;
    }
}

} // verus!
