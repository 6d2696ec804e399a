//! Substring containment on character sequences: the match rule used by
//! the table's write-verification re-reads and by deletion, where a query
//! word selects every stored word that contains it as a contiguous
//! substring.

use vstd::prelude::*;
use vstd::string::StrSliceExecFns;

verus! {

/// Holds when `needle` occurs in `hay` as a contiguous substring.
/// The empty needle occurs in every sequence.
pub open spec fn contains_word(hay: Seq<char>, needle: Seq<char>) -> bool {
    exists|i: int|
        0 <= i <= hay.len() - needle.len() && #[trigger] hay.subrange(
            i,
            i + needle.len() as int,
        ) == needle
}

/// Every sequence contains itself as a substring.
pub proof fn lemma_contains_word_self(w: Seq<char>)
    ensures
        contains_word(w, w),
{
    assert(w.subrange(0, 0 + w.len() as int) =~= w);
}

/// Decides whether `needle@` matches `hay@` starting at position `i`.
fn match_at(hay: &str, needle: &str, i: usize) -> (r: bool)
    requires
        i + needle@.len() <= hay@.len(),
    ensures
        r == (hay@.subrange(i as int, i + needle@.len() as int) == needle@),
{
    let hl = hay.unicode_len();
    let nl = needle.unicode_len();
    let ghost piece = hay@.subrange(i as int, i + needle@.len() as int);
    let mut j: usize = 0;
    while j < nl
        invariant
            j <= nl,
            hl == hay@.len(),
            nl == needle@.len(),
            i + nl <= hl,
            piece == hay@.subrange(i as int, i + needle@.len() as int),
            forall|k: int| 0 <= k < j ==> hay@[i + k] == needle@[k],
        decreases nl - j,
    {
        if hay.get_char(i + j) != needle.get_char(j) {
            proof {
                assert(piece[j as int] == hay@[i + j]);
            }
            return false;
        }
        j += 1;
    }
    proof {
        assert(piece =~= needle@);
    }
    true
}

/// Decides substring containment: whether `needle` occurs somewhere in
/// `hay` as a contiguous run of characters.
pub fn str_contains(hay: &str, needle: &str) -> (r: bool)
    ensures
        r == contains_word(hay@, needle@),
{
    let hl = hay.unicode_len();
    let nl = needle.unicode_len();
    if nl > hl {
        return false;
    }
    let bound = hl - nl;
    let mut i: usize = 0;
    while i < bound
        invariant
            nl <= hl,
            hl == hay@.len(),
            nl == needle@.len(),
            bound == hl - nl,
            i <= bound,
            forall|k: int|
                0 <= k < i ==> #[trigger] hay@.subrange(k, k + needle@.len() as int) != needle@,
        decreases bound - i,
    {
        if match_at(hay, needle, i) {
            return true;
        }
        i += 1;
    }
    if match_at(hay, needle, bound) {
        return true;
    }
    false
}

} // verus!
