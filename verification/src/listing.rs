//! Ordering of directory listings: directories first, then names in
//! case-sensitive lexicographic order. Local and SFTP listings share this
//! rule.

use vstd::prelude::*;
use crate::models::FileInfo;
use crate::text::{lemma_lex_le_total, lemma_lex_le_trans, lex_le, str_lex_le};

verus! {

broadcast use vstd::seq_lib::group_to_multiset_ensures, vstd::multiset::group_multiset_axioms;

/// The listing order: a directory comes before a file; within one kind,
/// names compare lexicographically.
pub open spec fn file_le(a: FileInfo, b: FileInfo) -> bool {
    if a.is_dir != b.is_dir {
        a.is_dir
    } else {
        lex_le(a.name@, b.name@)
    }
}

/// The sequence is in listing order.
pub open spec fn files_sorted(s: Seq<FileInfo>) -> bool {
    forall|i: int, j: int| 0 <= i < j < s.len() ==> file_le(#[trigger] s[i], #[trigger] s[j])
}

/// Any two entries compare one way or the other.
pub proof fn lemma_file_le_total(a: FileInfo, b: FileInfo)
    ensures
        file_le(a, b) || file_le(b, a),
{
    lemma_lex_le_total(a.name@, b.name@);
}

/// The listing order is transitive.
pub proof fn lemma_file_le_trans(a: FileInfo, b: FileInfo, c: FileInfo)
    requires
        file_le(a, b),
        file_le(b, c),
    ensures
        file_le(a, c),
{
    if a.is_dir == b.is_dir && b.is_dir == c.is_dir {
        lemma_lex_le_trans(a.name@, b.name@, c.name@);
    }
}

/// Compares two entries in listing order.
pub fn file_le_exec(a: &FileInfo, b: &FileInfo) -> (r: bool)
    ensures
        r == file_le(*a, *b),
{
    if a.is_dir != b.is_dir {
        a.is_dir
    } else {
        str_lex_le(a.name.as_str(), b.name.as_str())
    }
}

/// Sorts a listing in place: directories first, then lexicographically by
/// name. The result is a permutation of the input — the same entries, as a
/// multiset — in listing order.
pub fn sort_files(files: &mut Vec<FileInfo>)
    ensures
        final(files)@.to_multiset() == old(files)@.to_multiset(),
        files_sorted(final(files)@),
        final(files)@.len() == old(files)@.len(),
{
    if files.len() <= 1 {
        return;
    }
    let mut i: usize = 1;
    while i < files.len()
        invariant
            1 <= i <= files@.len(),
            files@.to_multiset() == old(files)@.to_multiset(),
            files@.len() == old(files)@.len(),
            files_sorted(files@.take(i as int)),
        decreases files@.len() - i,
    {
        let ghost s0 = files@;
        let x = files.remove(i);
        let ghost s1 = files@;
        proof {
            assert(s1 =~= s0.remove(i as int));
            assert(s0.remove(i as int).to_multiset() == s0.to_multiset().remove(s0[i as int]));
            assert(s1.to_multiset() == s0.to_multiset().remove(x));
            assert(s0.contains(x)) by {
                assert(s0[i as int] == x);
            }
            assert(s0.to_multiset().count(x) > 0);
            assert(forall|t: int| 0 <= t < i ==> s1[t] == s0[t]);
        }
        let mut j: usize = i;
        while j > 0 && !file_le_exec(&files[j - 1], &x)
            invariant
                j <= i,
                i < s0.len(),
                files@ == s1,
                s1.len() == s0.len() - 1,
                files_sorted(s1.take(i as int)),
                forall|t: int| j <= t < i ==> file_le(x, #[trigger] s1[t]),
            decreases j,
        {
            proof {
                lemma_file_le_total(s1[j - 1], x);
            }
            j -= 1;
        }
        let ghost jj = j as int;
        files.insert(j, x);
        proof {
            assert(files@ =~= s1.insert(jj, x));
            assert(s1.insert(jj, x).to_multiset() == s1.to_multiset().insert(x));
            assert(files@.to_multiset() =~= s0.to_multiset());
            // the prefix up to and including the inserted element is sorted
            let s2 = files@;
            assert(forall|t: int| 0 <= t < jj ==> s2[t] == s1[t]);
            assert(forall|t: int| jj < t <= i ==> s2[t] == s1[t - 1]);
            assert(s2[jj] == x);
            assert(forall|t: int| 0 <= t < jj ==> file_le(#[trigger] s2[t], x)) by {
                if jj > 0 {
                    assert(file_le(s1[jj - 1], x));
                    assert(forall|t: int| 0 <= t < jj ==> file_le(#[trigger] s1[t], x)) by {
                        assert forall|t: int| 0 <= t < jj implies file_le(
                            #[trigger] s1[t],
                            x,
                        ) by {
                            if t < jj - 1 {
                                assert(file_le(s1[t], s1[jj - 1]));
                                lemma_file_le_trans(s1[t], s1[jj - 1], x);
                            }
                        }
                    }
                }
            }
            assert(files_sorted(s2.take(i as int + 1))) by {
                assert forall|a: int, b: int| 0 <= a < b < i + 1 implies file_le(
                    #[trigger] s2.take(i as int + 1)[a],
                    #[trigger] s2.take(i as int + 1)[b],
                ) by {
                    assert(s2.take(i as int + 1)[a] == s2[a]);
                    assert(s2.take(i as int + 1)[b] == s2[b]);
                    if a == jj {
                        assert(file_le(x, s1[b - 1]));
                    } else if b == jj {
                        assert(file_le(s2[a], x));
                    } else if a < jj && b < jj {
                        assert(file_le(s1[a], s1[b]));
                    } else if a < jj && b > jj {
                        assert(file_le(s1[a], s1[b - 1]));
                    } else {
                        assert(file_le(s1[a - 1], s1[b - 1]));
                    }
                }
            }
        }
        i += 1;
    }
    proof {
        if files@.len() >= 1 {
            assert(files@.take(files@.len() as int) =~= files@);
        }
    }
}

} // verus!
