//! Sorting by text keys in code-point order, and the permutations it yields.

use vstd::prelude::*;
use crate::text::{lemma_lex_total, lemma_lex_trans, lex_le, lex_le_exec};

verus! {

/// `p` lists each index below `n` exactly once.
pub open spec fn is_perm(p: Seq<usize>, n: nat) -> bool {
    &&& p.len() == n
    &&& p.no_duplicates()
    &&& forall|k: int| 0 <= k < p.len() ==> #[trigger] p[k] < n
}

/// `p` visits `keys` in non-decreasing code-point order.
pub open spec fn sorted_by(p: Seq<usize>, keys: Seq<Seq<char>>) -> bool {
    forall|a: int, b: int|
        0 <= a < b < p.len() ==> lex_le(#[trigger] keys[p[a] as int], #[trigger] keys[p[b] as int])
}

/// `p` keeps indices with equal keys in increasing order.
pub open spec fn stable_by(p: Seq<usize>, keys: Seq<Seq<char>>) -> bool {
    forall|a: int, b: int|
        0 <= a < b < p.len() && #[trigger] keys[p[a] as int] == #[trigger] keys[p[b] as int] ==> p[a] < p[b]
}

/// The indices of `keys` ordered by key; equal keys keep their order.
pub fn sort_indices(keys: &Vec<Vec<char>>) -> (p: Vec<usize>)
    ensures
        is_perm(p@, keys.len() as nat),
        forall|j: usize| j < keys.len() ==> p@.contains(j),
        sorted_by(p@, keys@.map_values(|k: Vec<char>| k@)),
        stable_by(p@, keys@.map_values(|k: Vec<char>| k@)),
{
    let ghost kv = keys@.map_values(|k: Vec<char>| k@);
    let mut p: Vec<usize> = Vec::new();
    let mut i: usize = 0;
    while i < keys.len()
        invariant
            kv == keys@.map_values(|k: Vec<char>| k@),
            i <= keys.len(),
            is_perm(p@, i as nat),
            forall|j: usize| j < i ==> p@.contains(j),
            sorted_by(p@, kv),
            stable_by(p@, kv),
        decreases keys.len() - i,
    {
        let mut pos: usize = 0;
        while pos < p.len() && lex_le_exec(&keys[p[pos]], &keys[i])
            invariant
                kv == keys@.map_values(|k: Vec<char>| k@),
                i < keys.len(),
                pos <= p.len(),
                is_perm(p@, i as nat),
                forall|k: int| 0 <= k < pos ==> lex_le(kv[#[trigger] p@[k] as int], kv[i as int]),
            decreases p.len() - pos,
        {
            pos = pos + 1;
        }
        let ghost p0 = p@;
        if pos < p.len() {
            proof {
                lemma_lex_total(kv[p0[pos as int] as int], kv[i as int]);
            }
        }
        p.insert(pos, i);
        assert(p@ == p0.insert(pos as int, i));
        assert forall|j: usize| j < i + 1 implies p@.contains(j) by {
            if j < i {
                assert(p0.contains(j));
                let k = choose|k: int| 0 <= k < p0.len() && p0[k] == j;
                if k < pos {
                    assert(p@[k] == j);
                } else {
                    assert(p@[k + 1] == j);
                }
            } else {
                assert(p@[pos as int] == j);
            }
        }
        assert forall|k: int| 0 <= k < p@.len() implies #[trigger] p@[k] < i + 1 by {
            if k < pos {
                assert(p@[k] == p0[k]);
            } else if k > pos {
                assert(p@[k] == p0[k - 1]);
            }
        }
        assert forall|a: int, b: int| 0 <= a < b < p@.len() implies p@[a] != p@[b] by {
            if a < pos && b > pos {
                assert(p@[b] == p0[b - 1]);
            } else if b > pos && a > pos {
                assert(p@[a] == p0[a - 1] && p@[b] == p0[b - 1]);
            } else if a == pos {
                assert(p@[b] == p0[b - 1]);
                assert(p0[b - 1] < i);
            } else if b == pos {
                assert(p0[a] < i);
            }
        }
        assert forall|a: int, b: int| 0 <= a < b < p@.len() implies lex_le(
            #[trigger] kv[p@[a] as int],
            #[trigger] kv[p@[b] as int],
        ) by {
            if b < pos {
            } else if a > pos {
                assert(p@[a] == p0[a - 1] && p@[b] == p0[b - 1]);
            } else if a < pos && b == pos {
                assert(lex_le(kv[p0[a] as int], kv[i as int]));
            } else if a < pos && b > pos {
                assert(p@[b] == p0[b - 1]);
                assert(lex_le(kv[p0[a] as int], kv[i as int]));
                assert(lex_le(kv[p0[pos as int] as int], kv[p0[b - 1] as int]) || b - 1 == pos);
                lemma_lex_trans(kv[p0[a] as int], kv[i as int], kv[p0[pos as int] as int]);
                if b - 1 != pos {
                    lemma_lex_trans(
                        kv[p0[a] as int],
                        kv[p0[pos as int] as int],
                        kv[p0[b - 1] as int],
                    );
                }
            } else if a == pos {
                assert(p@[b] == p0[b - 1]);
                if b - 1 != pos {
                    assert(lex_le(kv[p0[pos as int] as int], kv[p0[b - 1] as int]));
                    lemma_lex_trans(kv[i as int], kv[p0[pos as int] as int], kv[p0[b - 1] as int]);
                }
            }
        }
        assert forall|a: int, b: int|
            0 <= a < b < p@.len() && #[trigger] kv[p@[a] as int] == #[trigger] kv[p@[b] as int]
            implies p@[a] < p@[b] by {
            if a > pos {
                assert(p@[a] == p0[a - 1] && p@[b] == p0[b - 1]);
            } else if b < pos {
            } else if a < pos && b > pos {
                assert(p@[b] == p0[b - 1]);
            } else if a < pos && b == pos {
                assert(p0[a] < i);
            } else if a == pos {
                assert(p@[b] == p0[b - 1]);
                assert(kv[i as int] == kv[p0[b - 1] as int]);
                if b - 1 == pos {
                    assert(lex_le(kv[p0[pos as int] as int], kv[i as int]));
                } else {
                    assert(lex_le(kv[p0[pos as int] as int], kv[p0[b - 1] as int]));
                    assert(lex_le(kv[p0[pos as int] as int], kv[i as int]));
                }
            }
        }
        i = i + 1;
    }
    p
}

} // verus!
