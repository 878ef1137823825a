//! Coverage of the windows of one chunk from the alignments retrieved for
//! each of them.

use vstd::prelude::*;
use crate::window::Window;
use crate::shift::{Alignment, all_shiftable, cut_sites, cut_sites_of};
use crate::coverage::{accumulate, is_coverage};
use crate::chunk::{chunk_bounds, chunk_count, chunk_lo, lemma_chunk_count_bounds};

verus! {

/// The range `[from, to)` in which the alignments of a window are looked up:
/// the window's own range, cut at zero, below which no alignment lies. A
/// window with no coordinate at or above zero overlaps no alignment and has
/// no range.
pub fn query_range(window: &Window) -> (range: Option<(isize, isize)>)
    requires
        window.wf(),
    ensures
        range is Some <==> (window@.length > 0 && window@.end() > 0),
        range is Some ==> range.unwrap().1 == window@.end() && range.unwrap().0 == if window@.start
            < 0 {
            0
        } else {
            window@.start
        },
{
    let to: isize = window.end();
    if to <= 0 || window.length == 0 {
        return None;
    }
    let from: isize = if window.start < 0 {
        0
    } else {
        window.start
    };
    Some((from, to))
}

/// The coverage vector of one window from the alignments retrieved for it:
/// the alignments that the filter rejected are dropped, each of the others
/// is reduced to its cut site, and the cut sites are counted per offset.
pub fn window_coverage(window: &Window, alignments: &Vec<Alignment>) -> (cov: Vec<usize>)
    requires
        all_shiftable(alignments@),
    ensures
        is_coverage(cov@, window@, cut_sites_of(alignments@)),
{
    let sites = cut_sites(alignments);
    accumulate(window, &sites)
}

/// The coverage vectors of the windows `lo..hi`, in the order of the
/// windows. `retrieved[j]` holds the alignments found for window `lo + j`.
pub fn chunk_coverage(
    windows: &Vec<Window>,
    lo: usize,
    hi: usize,
    retrieved: &Vec<Vec<Alignment>>,
) -> (out: Vec<Vec<usize>>)
    requires
        lo <= hi <= windows@.len(),
        retrieved@.len() == hi - lo,
        forall|j: int| 0 <= j < retrieved@.len() ==> all_shiftable(#[trigger] retrieved@[j]@),
    ensures
        out@.len() == hi - lo,
        forall|j: int|
            0 <= j < hi - lo ==> is_coverage(
                #[trigger] out@[j]@,
                windows@[lo + j]@,
                cut_sites_of(retrieved@[j]@),
            ),
{
    let mut out: Vec<Vec<usize>> = Vec::new();
    let mut j: usize = 0;
    while j < hi - lo
        invariant
            lo <= hi <= windows@.len(),
            retrieved@.len() == hi - lo,
            forall|j: int| 0 <= j < retrieved@.len() ==> all_shiftable(#[trigger] retrieved@[j]@),
            j <= hi - lo,
            out@.len() == j,
            forall|i: int|
                0 <= i < j ==> is_coverage(
                    #[trigger] out@[i]@,
                    windows@[lo + i]@,
                    cut_sites_of(retrieved@[i]@),
                ),
        decreases hi - lo - j,
    {
        let cov = window_coverage(&windows[lo + j], &retrieved[j]);
        out.push(cov);
        j = j + 1;
    }
    out
}

/// The whole run on one worker: the windows are cut into chunks of
/// `chunk_size`, the chunks are taken in order and the windows of each chunk
/// in order. Entry `j` of the result is the coverage vector of window `j`, so
/// the result is fixed by the arguments. `retrieved[j]` holds the alignments
/// found for window `j`.
pub fn run_sequential(
    windows: &Vec<Window>,
    chunk_size: usize,
    retrieved: &Vec<Vec<Alignment>>,
) -> (out: Vec<Vec<usize>>)
    requires
        chunk_size > 0,
        retrieved@.len() == windows@.len(),
        forall|j: int| 0 <= j < retrieved@.len() ==> all_shiftable(#[trigger] retrieved@[j]@),
    ensures
        out@.len() == windows@.len(),
        forall|j: int|
            0 <= j < windows@.len() ==> is_coverage(
                #[trigger] out@[j]@,
                windows@[j]@,
                cut_sites_of(retrieved@[j]@),
            ),
{
    let n: usize = windows.len();
    let bounds = chunk_bounds(n, chunk_size);
    let mut out: Vec<Vec<usize>> = Vec::new();
    let mut c: usize = 0;
    proof {
        assert(0 * chunk_size == 0) by (nonlinear_arith);
    }
    while c < bounds.len()
        invariant
            n == windows@.len(),
            retrieved@.len() == n,
            forall|j: int| 0 <= j < retrieved@.len() ==> all_shiftable(#[trigger] retrieved@[j]@),
            c <= bounds@.len(),
            bounds@.len() == chunk_count(n as nat, chunk_size as nat),
            forall|i: int|
                0 <= i < bounds@.len() ==> (#[trigger] bounds@[i]).0 == i * chunk_size
                    && bounds@[i].1 == chunk_lo((i + 1) as nat, chunk_size as nat, n as nat)
                    && bounds@[i].0 < bounds@[i].1,
            out@.len() == chunk_lo(c as nat, chunk_size as nat, n as nat),
            forall|i: int|
                0 <= i < out@.len() ==> is_coverage(
                    #[trigger] out@[i]@,
                    windows@[i]@,
                    cut_sites_of(retrieved@[i]@),
                ),
        decreases bounds@.len() - c,
    {
        let lo: usize = bounds[c].0;
        let hi: usize = bounds[c].1;
        let mut j: usize = lo;
        while j < hi
            invariant
                n == windows@.len(),
                retrieved@.len() == n,
                forall|j: int|
                    0 <= j < retrieved@.len() ==> all_shiftable(#[trigger] retrieved@[j]@),
                lo <= j <= hi <= n,
                out@.len() == j,
                forall|i: int|
                    0 <= i < out@.len() ==> is_coverage(
                        #[trigger] out@[i]@,
                        windows@[i]@,
                        cut_sites_of(retrieved@[i]@),
                    ),
            decreases hi - j,
        {
            let cov = window_coverage(&windows[j], &retrieved[j]);
            out.push(cov);
            j = j + 1;
        }
        c = c + 1;
    }
    proof {
        lemma_chunk_count_bounds(n as nat, chunk_size as nat);
    }
    out
}

} // verus!
