//! A stable ordering by descending weight, as `sort_by_key` with a reversed
//! key leaves a list.
use vstd::prelude::*;

verus! {

/// `r` is `v` reordered by `p` (the position in `v` of each element of
/// `r`) so that heavier elements come first and elements of equal weight
/// keep their order.
pub open spec fn stably_sorted_desc<T>(r: Seq<(T, u64)>, v: Seq<(T, u64)>, p: Seq<int>) -> bool {
    &&& r.len() == v.len()
    &&& p.len() == v.len()
    &&& forall|i: int| 0 <= i < r.len() ==> 0 <= #[trigger] p[i] < v.len() && r[i] == v[p[i]]
    &&& forall|i: int, j: int|
        0 <= i < j < r.len() ==> (#[trigger] r[i]).1 > (#[trigger] r[j]).1 || (r[i].1 == r[j].1
            && p[i] < p[j])
}

/// The weights do not increase along the list.
pub open spec fn weights_descending<T>(r: Seq<(T, u64)>) -> bool {
    forall|i: int, j: int| 0 <= i < j < r.len() ==> (#[trigger] r[i]).1 >= (#[trigger] r[j]).1
}

/// Reorders the pairs, heaviest first; pairs of equal weight keep their
/// order.
pub fn sort_by_weight_desc<T>(v: Vec<(T, u64)>) -> (r: Vec<(T, u64)>)
    ensures
        exists|p: Seq<int>| stably_sorted_desc(r@, v@, p),
{
    let ghost orig = v@;
    let mut rest = v;
    let mut out: Vec<(T, u64)> = Vec::new();
    let ghost mut p: Seq<int> = Seq::empty();
    while rest.len() > 0
        invariant
            rest@ == orig.take(rest@.len() as int),
            rest@.len() <= orig.len(),
            out@.len() + rest@.len() == orig.len(),
            p.len() == out@.len(),
            forall|i: int|
                0 <= i < out@.len() ==> rest@.len() <= #[trigger] p[i] < orig.len() && out@[i]
                    == orig[p[i]],
            forall|i: int, j: int|
                0 <= i < j < out@.len() ==> (#[trigger] out@[i]).1 > (#[trigger] out@[j]).1 || (
                out@[i].1 == out@[j].1 && p[i] < p[j]),
        decreases rest@.len(),
    {
        let ghost idx = rest@.len() - 1;
        let x = rest.pop().unwrap();
        assert(x == orig[idx]);
        assert(rest@ =~= orig.take(idx));
        let w = x.1;
        let mut pos: usize = 0;
        while pos < out.len() && out[pos].1 > w
            invariant
                pos <= out@.len(),
                forall|k: int| 0 <= k < pos ==> (#[trigger] out@[k]).1 > w,
            decreases out@.len() - pos,
        {
            pos = pos + 1;
        }
        let ghost old_out = out@;
        let ghost old_p = p;
        out.insert(pos, x);
        proof {
            p = old_p.insert(pos as int, idx);
            assert forall|i: int| 0 <= i < out@.len() implies rest@.len() <= #[trigger] p[i]
                < orig.len() && out@[i] == orig[p[i]] by {
                if i < pos {
                    assert(out@[i] == old_out[i]);
                    assert(p[i] == old_p[i]);
                } else if i > pos {
                    assert(out@[i] == old_out[i - 1]);
                    assert(p[i] == old_p[i - 1]);
                }
            }
            assert forall|i: int, j: int| 0 <= i < j < out@.len() implies (#[trigger] out@[i]).1
                > (#[trigger] out@[j]).1 || (out@[i].1 == out@[j].1 && p[i] < p[j]) by {
                if j < pos {
                    assert(out@[i] == old_out[i] && out@[j] == old_out[j]);
                    assert(p[i] == old_p[i] && p[j] == old_p[j]);
                } else if j == pos {
                    assert(out@[i] == old_out[i]);
                    assert(old_out[i].1 > w);
                } else if i == pos {
                    assert(out@[j] == old_out[j - 1]);
                    assert(p[j] == old_p[j - 1]);
                    if pos < old_out.len() {
                        assert(!(old_out[pos as int].1 > w));
                        if j - 1 > pos {
                            assert(old_out[pos as int].1 >= old_out[j - 1].1);
                        }
                    }
                } else if i < pos {
                    assert(out@[i] == old_out[i] && out@[j] == old_out[j - 1]);
                    assert(p[i] == old_p[i] && p[j] == old_p[j - 1]);
                } else {
                    assert(out@[i] == old_out[i - 1] && out@[j] == old_out[j - 1]);
                    assert(p[i] == old_p[i - 1] && p[j] == old_p[j - 1]);
                }
            }
        }
    }
    assert(stably_sorted_desc(out@, orig, p));
    out
}

/// A stable descending order is descending.
pub proof fn lemma_stably_sorted_is_descending<T>(r: Seq<(T, u64)>, v: Seq<(T, u64)>, p: Seq<int>)
    requires
        stably_sorted_desc(r, v, p),
    ensures
        weights_descending(r),
{
}

} // verus!
