//! Per-offset accumulation of cut sites over one window.

use vstd::prelude::*;
use crate::window::{Window, WindowView};

verus! {

/// How many entries of `sites` equal `p`.
pub open spec fn count_at(sites: Seq<isize>, p: int) -> nat
    decreases sites.len(),
{
    if sites.len() == 0 {
        0
    } else {
        count_at(sites.drop_last(), p) + if sites.last() == p {
            1nat
        } else {
            0nat
        }
    }
}

/// The coverage vector of `w` under `sites`: entry `i` counts the sites at
/// coordinate `w.start + i`.
pub open spec fn coverage_of(w: WindowView, sites: Seq<isize>) -> Seq<nat> {
    Seq::new(w.length, |i: int| count_at(sites, w.start + i))
}

/// How many entries of `sites` lie inside `w`.
pub open spec fn hits(w: WindowView, sites: Seq<isize>) -> nat
    decreases sites.len(),
{
    if sites.len() == 0 {
        0
    } else {
        hits(w, sites.drop_last()) + if w.contains(sites.last() as int) {
            1nat
        } else {
            0nat
        }
    }
}

/// Sum of a coverage vector.
pub open spec fn total(cov: Seq<nat>) -> nat
    decreases cov.len(),
{
    if cov.len() == 0 {
        0
    } else {
        total(cov.drop_last()) + cov.last()
    }
}

/// Whether `cov` is the coverage vector of `w` under `sites`: one entry per
/// offset of the window, each the count of the sites at that offset.
pub open spec fn is_coverage(cov: Seq<usize>, w: WindowView, sites: Seq<isize>) -> bool {
    &&& cov.len() == w.length
    &&& forall|i: int|
        0 <= i < w.length ==> #[trigger] cov[i] as nat == coverage_of(w, sites)[i]
}

/// Counts the cut sites per offset of `window`. Sites outside the window are
/// dropped without error; sites on the same offset add up.
pub fn accumulate(window: &Window, cut_sites: &Vec<isize>) -> (cov: Vec<usize>)
    ensures
        is_coverage(cov@, window@, cut_sites@),
{
    let mut cov: Vec<usize> = Vec::new();
    let mut n: usize = 0;
    while n < window.length
        invariant
            n <= window.length,
            cov@.len() == n,
            forall|i: int| 0 <= i < n ==> #[trigger] cov@[i] == 0,
        decreases window.length - n,
    {
        cov.push(0);
        n = n + 1;
    }
    let mut k: usize = 0;
    while k < cut_sites.len()
        invariant
            k <= cut_sites.len(),
            cov@.len() == window.length,
            forall|i: int|
                0 <= i < window.length ==> #[trigger] cov@[i] as nat == count_at(
                    cut_sites@.take(k as int),
                    window.start + i,
                ),
            forall|i: int| 0 <= i < window.length ==> #[trigger] cov@[i] <= k,
        decreases cut_sites.len() - k,
    {
        let p: isize = cut_sites[k];
        let d: i128 = p as i128 - window.start as i128;
        proof {
            assert(cut_sites@.take(k + 1).drop_last() == cut_sites@.take(k as int));
            assert(cut_sites@.take(k + 1).last() == p);
        }
        if 0 <= d && d < window.length as i128 {
            let idx: usize = d as usize;
            let c: usize = cov[idx];
            cov.set(idx, c + 1);
        }
        k = k + 1;
    }
    proof {
        assert(cut_sites@.take(k as int) == cut_sites@);
    }
    cov
}

/// One more site outside the window leaves every count as it was.
pub proof fn lemma_outside_site_ignored(w: WindowView, sites: Seq<isize>, p: isize)
    requires
        !w.contains(p as int),
    ensures
        coverage_of(w, sites.push(p)) == coverage_of(w, sites),
        hits(w, sites.push(p)) == hits(w, sites),
{
    assert(sites.push(p).drop_last() == sites);
    assert(coverage_of(w, sites.push(p)) =~= coverage_of(w, sites));
}

/// One more site inside the window raises the count at its offset by one and
/// leaves the others as they were.
pub proof fn lemma_inside_site_counted(w: WindowView, sites: Seq<isize>, p: isize)
    requires
        w.contains(p as int),
    ensures
        coverage_of(w, sites.push(p)) == coverage_of(w, sites).update(
            p - w.start,
            coverage_of(w, sites)[p - w.start] + 1,
        ),
        hits(w, sites.push(p)) == hits(w, sites) + 1,
{
    assert(sites.push(p).drop_last() == sites);
    assert(coverage_of(w, sites.push(p)) =~= coverage_of(w, sites).update(
        p - w.start,
        coverage_of(w, sites)[p - w.start] + 1,
    ));
}

/// Raising one entry by one raises the sum by one.
proof fn lemma_total_update(cov: Seq<nat>, i: int)
    requires
        0 <= i < cov.len(),
    ensures
        total(cov.update(i, cov[i] + 1)) == total(cov) + 1,
    decreases cov.len(),
{
    let up = cov.update(i, cov[i] + 1);
    if i == cov.len() - 1 {
        assert(up.drop_last() == cov.drop_last());
    } else {
        assert(up.drop_last() == cov.drop_last().update(i, cov.drop_last()[i] + 1));
        lemma_total_update(cov.drop_last(), i);
    }
}

/// A vector of zeros sums to zero.
proof fn lemma_total_zeros(cov: Seq<nat>)
    requires
        forall|i: int| 0 <= i < cov.len() ==> cov[i] == 0,
    ensures
        total(cov) == 0,
    decreases cov.len(),
{
    if cov.len() > 0 {
        lemma_total_zeros(cov.drop_last());
    }
}

/// Conservation: the coverage vector of a window sums to the number of sites
/// that lie inside the window.
pub proof fn lemma_conservation(w: WindowView, sites: Seq<isize>)
    ensures
        total(coverage_of(w, sites)) == hits(w, sites),
    decreases sites.len(),
{
    if sites.len() == 0 {
        lemma_total_zeros(coverage_of(w, sites));
    } else {
        let rest = sites.drop_last();
        let p = sites.last();
        assert(rest.push(p) == sites);
        lemma_conservation(w, rest);
        if w.contains(p as int) {
            lemma_inside_site_counted(w, rest, p);
            lemma_total_update(coverage_of(w, rest), p - w.start);
        } else {
            lemma_outside_site_ignored(w, rest, p);
        }
    }
}

/// The counts held in an accumulated vector, as natural numbers.
pub open spec fn counts(cov: Seq<usize>) -> Seq<nat> {
    Seq::new(cov.len(), |i: int| cov[i] as nat)
}

/// Conservation of an accumulated vector: what `accumulate` returns sums to
/// the number of sites handed to it that lie inside the window.
pub proof fn lemma_accumulated_sum(cov: Seq<usize>, w: WindowView, sites: Seq<isize>)
    requires
        is_coverage(cov, w, sites),
    ensures
        total(counts(cov)) == hits(w, sites),
{
    assert(counts(cov) =~= coverage_of(w, sites));
    lemma_conservation(w, sites);
}

/// `count_at` is the multiplicity in the multiset of the sites.
pub proof fn lemma_count_is_multiplicity(sites: Seq<isize>, p: isize)
    ensures
        count_at(sites, p as int) == sites.to_multiset().count(p),
    decreases sites.len(),
{
    broadcast use vstd::seq_lib::group_to_multiset_ensures;

    if sites.len() > 0 {
        let rest = sites.drop_last();
        assert(rest.push(sites.last()) == sites);
        lemma_count_is_multiplicity(rest, p);
    }
}

/// No site lies at a coordinate that a machine word cannot hold.
proof fn lemma_count_beyond_range(sites: Seq<isize>, p: int)
    requires
        p > isize::MAX || p < isize::MIN,
    ensures
        count_at(sites, p) == 0,
    decreases sites.len(),
{
    if sites.len() > 0 {
        lemma_count_beyond_range(sites.drop_last(), p);
    }
}

/// Accumulation does not depend on the order in which the sites arrive: two
/// sequences with the same sites, each as often, give the same vector.
pub proof fn lemma_order_independent(w: WindowView, a: Seq<isize>, b: Seq<isize>)
    requires
        a.to_multiset() == b.to_multiset(),
    ensures
        coverage_of(w, a) == coverage_of(w, b),
{
    assert forall|i: int| 0 <= i < w.length implies coverage_of(w, a)[i] == coverage_of(w, b)[i] by {
        if w.start + i > isize::MAX || w.start + i < isize::MIN {
            lemma_count_beyond_range(a, w.start + i);
            lemma_count_beyond_range(b, w.start + i);
        } else {
            let p: isize = (w.start + i) as isize;
            lemma_count_is_multiplicity(a, p);
            lemma_count_is_multiplicity(b, p);
        }
    }
    assert(coverage_of(w, a) =~= coverage_of(w, b));
}

} // verus!
