//! Backend selection: one healthy backend of a snapshot, picked at random
//! with every healthy backend equally likely.

use vstd::prelude::*;
use rand::seq::SliceRandom;
use crate::registry::{Backend, BackendView, backends_view};

verus! {

/// Positions of the healthy backends among the first `n` of `s`, in order.
pub open spec fn healthy_upto(s: Seq<BackendView>, n: int) -> Seq<usize>
    decreases n,
{
    if n <= 0 {
        Seq::empty()
    } else if s[n - 1].healthy {
        healthy_upto(s, n - 1).push((n - 1) as usize)
    } else {
        healthy_upto(s, n - 1)
    }
}

/// Positions of all healthy backends of `s`, in order.
pub open spec fn healthy_positions(s: Seq<BackendView>) -> Seq<usize> {
    healthy_upto(s, s.len() as int)
}

pub open spec fn all_unhealthy(s: Seq<BackendView>) -> bool {
    forall|i: int| 0 <= i < s.len() ==> !(#[trigger] s[i]).healthy
}

/// The positions among the first `n` backends come in increasing order and
/// are exactly those of the healthy ones.
proof fn lemma_healthy_upto(s: Seq<BackendView>, n: int)
    requires
        0 <= n <= s.len(),
        s.len() <= usize::MAX,
    ensures
        healthy_upto(s, n).len() <= n,
        forall|p: int, q: int|
            0 <= p < q < healthy_upto(s, n).len() ==> healthy_upto(s, n)[p] < healthy_upto(
                s,
                n,
            )[q],
        forall|p: int|
            0 <= p < healthy_upto(s, n).len() ==> (#[trigger] healthy_upto(s, n)[p]) < n && s[healthy_upto(
                s,
                n,
            )[p] as int].healthy,
        forall|i: int|
            0 <= i < n && (#[trigger] s[i]).healthy ==> healthy_upto(s, n).contains(i as usize),
    decreases n,
{
    if n > 0 {
        lemma_healthy_upto(s, n - 1);
        let prev = healthy_upto(s, n - 1);
        if s[n - 1].healthy {
            assert(healthy_upto(s, n) == prev.push((n - 1) as usize));
            assert forall|i: int| 0 <= i < n && (#[trigger] s[i]).healthy implies healthy_upto(
                s,
                n,
            ).contains(i as usize) by {
                if i < n - 1 {
                    let p = choose|p: int| 0 <= p < prev.len() && prev[p] == i as usize;
                    assert(healthy_upto(s, n)[p] == i as usize);
                } else {
                    assert(healthy_upto(s, n)[prev.len() as int] == i as usize);
                }
            }
        }
    }
}

/// Every healthy backend of a snapshot is listed among the candidates
/// exactly once, and nothing else is: a uniform pick among the candidates is
/// a uniform pick among the healthy backends, so none of them is starved.
pub proof fn lemma_candidates_are_healthy_backends(s: Seq<BackendView>)
    requires
        s.len() <= usize::MAX,
    ensures
        forall|p: int, q: int|
            0 <= p < healthy_positions(s).len() && 0 <= q < healthy_positions(s).len() && p != q
                ==> healthy_positions(s)[p] != healthy_positions(s)[q],
        forall|i: int|
            0 <= i < s.len() ==> (healthy_positions(s).contains(i as usize) <==> (#[trigger] s[i]).healthy),
        forall|p: int|
            0 <= p < healthy_positions(s).len() ==> (#[trigger] healthy_positions(s)[p]) < s.len(),
{
    lemma_healthy_upto(s, s.len() as int);
    let c = healthy_positions(s);
    assert forall|p: int, q: int| 0 <= p < c.len() && 0 <= q < c.len() && p != q implies c[p]
        != c[q] by {
        if p < q {
            assert(c[p] < c[q]);
        } else {
            assert(c[q] < c[p]);
        }
    }
    assert forall|i: int| 0 <= i < s.len() implies (c.contains(i as usize) <==> (
    #[trigger] s[i]).healthy) by {
        if c.contains(i as usize) {
            let p = choose|p: int| 0 <= p < c.len() && c[p] == i as usize;
            assert(s[c[p] as int].healthy);
        }
    }
}

/// There is no candidate exactly when no backend is healthy.
pub proof fn lemma_no_candidate_iff_all_unhealthy(s: Seq<BackendView>)
    requires
        s.len() <= usize::MAX,
    ensures
        (healthy_positions(s).len() == 0) <==> all_unhealthy(s),
{
    lemma_candidates_are_healthy_backends(s);
    let c = healthy_positions(s);
    if c.len() > 0 {
        assert(s[c[0] as int].healthy);
    }
    if !all_unhealthy(s) {
        let i = choose|i: int| 0 <= i < s.len() && s[i].healthy;
        assert(c.contains(i as usize));
    }
}

/// The positions of the healthy backends of a snapshot, in order.
pub fn healthy_indices(snapshot: &Vec<Backend>) -> (r: Vec<usize>)
    ensures
        r@ == healthy_positions(backends_view(snapshot@)),
{
    let ghost s = backends_view(snapshot@);
    let mut out: Vec<usize> = Vec::new();
    let mut i: usize = 0;
    while i < snapshot.len()
        invariant
            i <= snapshot@.len(),
            s == backends_view(snapshot@),
            out@ == healthy_upto(s, i as int),
        decreases snapshot@.len() - i,
    {
        assert(s[i as int] == snapshot@[i as int]@);
        if snapshot[i].healthy {
            out.push(i);
        }
        i = i + 1;
    }
    out
}

/// Relies on rand's `SliceRandom::choose` with the thread-local generator:
/// `None` for an empty slice, otherwise one of its elements.
#[verifier::external_body]
fn choose_index(candidates: &Vec<usize>) -> (r: Option<usize>)
    ensures
        r.is_none() <==> candidates@.len() == 0,
        r matches Some(i) ==> candidates@.contains(i),
{
    candidates.as_slice().choose(&mut rand::thread_rng()).copied()
}

/// Picks one healthy backend of the snapshot at random, or `None` when no
/// backend is healthy.
pub fn select(snapshot: &Vec<Backend>) -> (r: Option<Backend>)
    ensures
        r.is_none() <==> all_unhealthy(backends_view(snapshot@)),
        r matches Some(b) ==> exists|i: int|
            0 <= i < snapshot@.len() && snapshot@[i].healthy && b@ == #[trigger] snapshot@[i]@,
{
    let ghost s = backends_view(snapshot@);
    let candidates = healthy_indices(snapshot);
    let n: usize = snapshot.len();
    proof {
        assert(s.len() == n);
        lemma_candidates_are_healthy_backends(s);
        lemma_no_candidate_iff_all_unhealthy(s);
    }
    match choose_index(&candidates) {
        Some(i) => {
            proof {
                let p = choose|p: int| 0 <= p < candidates@.len() && candidates@[p] == i;
                assert(healthy_positions(s)[p] < s.len());
                assert(s[i as int] == snapshot@[i as int]@);
            }
            Some(snapshot[i].duplicate())
        },
        None => None,
    }
}

} // verus!
