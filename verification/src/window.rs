//! Strands and analysis windows.

use vstd::prelude::*;

verus! {

/// The strand of a window or of an alignment.
#[derive(Clone, Copy, Debug, PartialEq, Eq, Structural)]
pub enum Strand {
    Forward,
    Reverse,
}

/// A fixed-width interval `[start, start + length)` on one chromosome.
#[derive(Clone, Debug, PartialEq, Eq)]
pub struct Window {
    pub chromosome: String,
    pub start: isize,
    pub length: usize,
    pub strand: Strand,
}

/// The mathematical content of a window.
pub struct WindowView {
    pub chromosome: Seq<char>,
    pub start: int,
    pub length: nat,
    pub strand: Strand,
}

impl WindowView {
    /// One past the last coordinate of the window.
    pub open spec fn end(self) -> int {
        self.start + self.length
    }

    /// Whether coordinate `p` lies in `[start, start + length)`.
    pub open spec fn contains(self, p: int) -> bool {
        self.start <= p < self.end()
    }
}

impl View for Window {
    type V = WindowView;

    open spec fn view(&self) -> WindowView {
        WindowView {
            chromosome: self.chromosome@,
            start: self.start as int,
            length: self.length as nat,
            strand: self.strand,
        }
    }
}

/// Midpoint of the region `[start, end)`, rounded down.
pub open spec fn region_center(start: int, end: int) -> int {
    (start + end) / 2
}

/// The window of half-width `flank` around the midpoint of the region
/// `[start, end)` of `chromosome`: `2 * flank` long whatever the region's
/// span, and always on the forward strand.
pub open spec fn region_window(chromosome: Seq<char>, start: int, end: int, flank: nat)
    -> WindowView {
    WindowView {
        chromosome,
        start: region_center(start, end) - flank,
        length: 2 * flank,
        strand: Strand::Forward,
    }
}

/// Whether a signed machine word can hold the window's length and end.
pub open spec fn representable(w: WindowView) -> bool {
    w.length <= isize::MAX && w.end() <= isize::MAX
}

impl Window {
    /// The window's length and end are representable.
    pub open spec fn wf(&self) -> bool {
        representable(self@)
    }

    /// A window from its parts, where its length and end are representable.
    pub fn new(chromosome: String, start: isize, length: usize, strand: Strand) -> (r: Option<
        Window,
    >)
        ensures
            r is Some <==> (length <= isize::MAX && start + length <= isize::MAX),
            r is Some ==> r->0.wf() && r->0.chromosome == chromosome && r->0.start == start
                && r->0.length == length && r->0.strand == strand,
    {
        if length > isize::MAX as usize {
            return None;
        }
        let len: isize = length as isize;
        if start > isize::MAX - len {
            return None;
        }
        Some(Window { chromosome, start, length, strand })
    }

    /// The window of half-width `flank` centred on the midpoint of the region
    /// `[start, end)`, where its coordinates are representable.
    pub fn from_region(chromosome: String, start: u64, end: u64, flank: usize) -> (r: Option<
        Window,
    >)
        ensures
            r is Some <==> representable(
                region_window(chromosome@, start as int, end as int, flank as nat),
            ),
            r is Some ==> r->0@ == region_window(
                chromosome@,
                start as int,
                end as int,
                flank as nat,
            ),
            r is Some ==> r->0.length == 2 * flank,
    {
        let center: u64 = start / 2 + end / 2 + (start % 2 + end % 2) / 2;
        assert(center == (start + end) / 2);
        if flank > (isize::MAX as usize) / 2 {
            return None;
        }
        let half: u64 = flank as u64;
        if center > isize::MAX as u64 {
            return None;
        }
        if center > (isize::MAX as u64) - half {
            return None;
        }
        let c: isize = center as isize;
        let f: isize = flank as isize;
        Some(Window { chromosome, start: c - f, length: 2 * flank, strand: Strand::Forward })
    }

    /// Whether the window's length and end are representable.
    pub fn is_valid(&self) -> (ok: bool)
        ensures
            ok == self.wf(),
    {
        self.length <= isize::MAX as usize && self.start <= isize::MAX - self.length as isize
    }

    /// One past the last coordinate of the window: the exclusive end of the
    /// range in which overlapping alignments are looked up.
    pub fn end(&self) -> (e: isize)
        requires
            self.wf(),
        ensures
            e == self@.end(),
    {
        self.start + self.length as isize
    }
}

} // verus!
