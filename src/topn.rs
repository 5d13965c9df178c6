use vstd::prelude::*;

verus! {

/// `r` lists `min(n, |scores|)` distinct indices of `scores`, highest score
/// first, and no index left out scores above one that is listed.
pub open spec fn is_top_n(scores: Seq<u64>, n: nat, r: Seq<usize>) -> bool {
    &&& r.len() == if n < scores.len() { n } else { scores.len() }
    &&& forall|i: int| 0 <= i < r.len() ==> (#[trigger] r[i]) < scores.len()
    &&& n >= scores.len() ==> forall|k: usize| k < scores.len() ==> #[trigger] r.contains(k)
    &&& forall|i: int, j: int| 0 <= i < j < r.len() ==> r[i] != r[j]
    &&& forall|i: int, j: int| 0 <= i < j < r.len() ==> scores[r[i] as int] >= scores[r[j] as int]
    &&& forall|k: int, i: int| #![trigger scores[k], r[i]]
        0 <= k < scores.len() && !r.contains(k as usize) && 0 <= i < r.len() ==> scores[k] <= scores[r[i] as int]
}

/// Indices of the `n` highest scores, highest first (ties in any order).
pub fn top_indices(scores: &Vec<u64>, n: usize) -> (r: Vec<usize>)
    ensures
        is_top_n(scores@, n as nat, r@),
{
    let len = scores.len();
    let mut idx: Vec<usize> = Vec::new();
    let mut q: usize = 0;
    while q < len
        invariant
            q <= len,
            len == scores@.len(),
            idx@ == Seq::new(q as nat, |p: int| p as usize),
        decreases len - q,
    {
        idx.push(q);
        q = q + 1;
    }
    let ghost mut pos: Seq<int> = Seq::new(len as nat, |p: int| p);
    let cnt: usize = if n < len { n } else { len };
    let mut m: usize = 0;
    while m < cnt
        invariant
            cnt <= len,
            len == scores@.len(),
            m <= cnt,
            idx@.len() == len,
            pos.len() == len,
            forall|p: int| 0 <= p < len ==> (#[trigger] idx@[p]) < len && pos[idx@[p] as int] == p,
            forall|k: int| 0 <= k < len ==> 0 <= #[trigger] pos[k] < len && idx@[pos[k]] == k,
            forall|a: int, b: int| 0 <= a < b < m ==> scores@[idx@[a] as int] >= scores@[idx@[b] as int],
            forall|a: int, b: int| 0 <= a < m && m <= b < len ==> scores@[idx@[a] as int] >= scores@[idx@[b] as int],
        decreases cnt - m,
    {
        let mut best: usize = m;
        let mut t: usize = m + 1;
        while t < len
            invariant
                len == scores@.len(),
                idx@.len() == len,
                m < len,
                m <= best < len,
                m < t <= len,
                forall|p: int| 0 <= p < len ==> (#[trigger] idx@[p]) < len,
                forall|b: int| m <= b < t ==> scores@[idx@[best as int] as int] >= scores@[#[trigger] idx@[b] as int],
            decreases len - t,
        {
            if scores[idx[t]] > scores[idx[best]] {
                best = t;
            }
            t = t + 1;
        }
        let a = idx[m];
        let b = idx[best];
        proof {
            pos = pos.update(a as int, best as int).update(b as int, m as int);
        }
        idx.set(m, b);
        idx.set(best, a);
        m = m + 1;
    }
    idx.truncate(cnt);
    proof {
        assert forall|i: int, j: int| 0 <= i < j < idx@.len() implies idx@[i] != idx@[j] by {
            assert(pos[idx@[i] as int] == i);
            assert(pos[idx@[j] as int] == j);
        }
        if n >= len {
            assert forall|k: usize| k < len implies #[trigger] idx@.contains(k) by {
                assert(idx@[pos[k as int]] == k);
            }
        }
        assert forall|k: int, i: int| #![trigger scores@[k], idx@[i]]
            0 <= k < len && !idx@.contains(k as usize) && 0 <= i < idx@.len() implies scores@[k] <= scores@[idx@[i] as int] by {
            let p = pos[k];
            if p < cnt {
                assert(idx@[p] == k as usize);
            }
        }
    }
    idx
}

} // verus!
