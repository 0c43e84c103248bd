use vstd::prelude::*;

verus! {

/// The indices below `n` that satisfy `p`, in increasing order.
pub open spec fn indices_where(p: spec_fn(int) -> bool, n: int) -> Seq<usize>
    decreases n,
{
    if n <= 0 {
        seq![]
    } else {
        indices_where(p, n - 1) + if p(n - 1) {
            seq![(n - 1) as usize]
        } else {
            seq![]
        }
    }
}

/// `indices_where` lists exactly the indices below `n` that satisfy `p`, each
/// once and in strictly increasing order, and entry `j` has exactly `j`
/// satisfying indices before it.
pub proof fn lemma_indices_where_exact(p: spec_fn(int) -> bool, n: int)
    requires
        0 <= n <= usize::MAX + 1,
    ensures
        indices_where(p, n).len() <= n,
        forall|j: int|
            0 <= j < indices_where(p, n).len() ==> {
                let k = #[trigger] indices_where(p, n)[j] as int;
                &&& 0 <= k < n
                &&& p(k)
                &&& indices_where(p, k).len() == j
            },
        forall|k: int| 0 <= k < n && #[trigger] p(k) ==> indices_where(p, n).contains(k as usize),
        forall|i: int, j: int|
            0 <= i < j < indices_where(p, n).len() ==> indices_where(p, n)[i] < indices_where(p, n)[j],
    decreases n,
{
    if n > 0 {
        lemma_indices_where_exact(p, n - 1);
        let prev = indices_where(p, n - 1);
        let cur = indices_where(p, n);
        assert forall|j: int| 0 <= j < cur.len() implies {
            let k = #[trigger] cur[j] as int;
            &&& 0 <= k < n
            &&& p(k)
            &&& indices_where(p, k).len() == j
        } by {
            if j < prev.len() {
                assert(cur[j] == prev[j]);
            } else {
                assert(cur[j] == (n - 1) as usize);
            }
        }
        assert forall|k: int| 0 <= k < n && #[trigger] p(k) implies cur.contains(k as usize) by {
            if k < n - 1 {
                let j = choose|j: int| 0 <= j < prev.len() && prev[j] == k as usize;
                assert(cur[j] == k as usize);
            } else {
                assert(cur[cur.len() - 1] == k as usize);
            }
        }
        assert forall|i: int, j: int| 0 <= i < j < cur.len() implies cur[i] < cur[j] by {
            assert(cur[i] == prev[i]);
            if j < prev.len() {
                assert(cur[j] == prev[j]);
            } else {
                assert(cur[j] == (n - 1) as usize);
            }
        }
    }
}

} // verus!
