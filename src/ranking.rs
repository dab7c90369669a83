//! Ranking indices by a key, largest key first and, among equal keys, the
//! smaller index first.
use vstd::prelude::*;

verus! {

/// Index `a` is ranked ahead of index `b`.
pub open spec fn ranks_before(keys: Seq<u64>, a: usize, b: usize) -> bool {
    keys[a as int] > keys[b as int] || (keys[a as int] == keys[b as int] && a < b)
}

/// `ord` lists indices of `keys`, as many as there are keys, in ranking
/// order (so each at most once).
pub open spec fn is_desc_order(keys: Seq<u64>, ord: Seq<usize>) -> bool {
    &&& ord.len() == keys.len()
    &&& forall|k: int| 0 <= k < ord.len() ==> ord[k] < keys.len()
    &&& forall|a: int, b: int|
        0 <= a < b < ord.len() ==> ranks_before(keys, #[trigger] ord[a], #[trigger] ord[b])
}

/// The indices of `keys` in ranking order (a stable sort, largest first).
pub fn descending_order(keys: &Vec<u64>) -> (r: Vec<usize>)
    ensures
        is_desc_order(keys@, r@),
{
    let mut r: Vec<usize> = Vec::new();
    let mut i: usize = 0;
    while i < keys.len()
        invariant
            i <= keys@.len(),
            r@.len() == i,
            forall|k: int| 0 <= k < r@.len() ==> r@[k] < i,
            forall|a: int, b: int|
                0 <= a < b < r@.len() ==> ranks_before(keys@, #[trigger] r@[a], #[trigger] r@[b]),
        decreases keys@.len() - i,
    {
        let mut p: usize = 0;
        while p < r.len() && keys[r[p]] >= keys[i]
            invariant
                i < keys@.len(),
                p <= r@.len(),
                r@.len() == i,
                forall|k: int| 0 <= k < r@.len() ==> r@[k] < i,
                forall|k: int| 0 <= k < p ==> ranks_before(keys@, #[trigger] r@[k], i),
            decreases r@.len() - p,
        {
            p += 1;
        }
        let ghost before = r@;
        assert forall|k: int| p <= k < before.len() implies ranks_before(
            keys@,
            i,
            #[trigger] before[k],
        ) by {
            if k > p {
                assert(ranks_before(keys@, before[p as int], before[k]));
            }
        }
        r.insert(p, i);
        assert forall|a: int, b: int| 0 <= a < b < r@.len() implies ranks_before(
            keys@,
            #[trigger] r@[a],
            #[trigger] r@[b],
        ) by {
            if b < p {
                assert(r@[a] == before[a] && r@[b] == before[b]);
            } else if b == p {
                assert(r@[a] == before[a]);
            } else if a == p {
                assert(r@[b] == before[b - 1]);
            } else if a < p {
                assert(r@[a] == before[a] && r@[b] == before[b - 1]);
                assert(ranks_before(keys@, before[a], before[b - 1]));
            } else {
                assert(r@[a] == before[a - 1] && r@[b] == before[b - 1]);
                assert(ranks_before(keys@, before[a - 1], before[b - 1]));
            }
        }
        i += 1;
    }
    r
}

} // verus!
