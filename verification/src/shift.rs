//! Alignments and the strand-dependent cut-site shift.

use vstd::prelude::*;
use crate::window::Strand;
use bio_types::annot::contig::Contig;
use bio_types::annot::loc::Loc;
use bio_types::strand::ReqStrand;

verus! {

/// Distance by which a forward-strand alignment's boundary is moved.
pub const FORWARD_SHIFT: isize = 3;

/// Distance by which a reverse-strand alignment's boundary is moved.
pub const REVERSE_SHIFT: isize = 4;

/// What the pipeline reads of one alignment: its leftmost coordinate, the
/// number of reference bases it spans, its strand, and whether the filter
/// policy in force keeps it.
#[derive(Clone, Copy, Debug, PartialEq, Eq)]
pub struct Alignment {
    pub start: isize,
    pub length: usize,
    pub strand: Strand,
    pub accepted: bool,
}

/// The mathematical content of an alignment.
pub struct AlignmentView {
    pub start: int,
    pub length: nat,
    pub strand: Strand,
    pub accepted: bool,
}

impl View for Alignment {
    type V = AlignmentView;

    open spec fn view(&self) -> AlignmentView {
        AlignmentView {
            start: self.start as int,
            length: self.length as nat,
            strand: self.strand,
            accepted: self.accepted,
        }
    }
}

/// The first position of the interval `[start, start + length)` read along
/// `strand`: its leftmost coordinate on the forward strand, its rightmost on
/// the reverse strand. An empty interval has its start as first position.
pub open spec fn first_pos(start: int, length: nat, strand: Strand) -> int {
    match strand {
        Strand::Forward => start,
        Strand::Reverse => if length == 0 {
            start
        } else {
            start + length - 1
        },
    }
}

/// The cut site of an alignment. A forward alignment's start is moved
/// `FORWARD_SHIFT` bases to the right; a reverse alignment's last base is
/// moved `REVERSE_SHIFT` bases to the left. An alignment that spans no base
/// has its start in place of its last base.
pub open spec fn cut_site(a: AlignmentView) -> int {
    match a.strand {
        Strand::Forward => a.start + FORWARD_SHIFT,
        Strand::Reverse => if a.length == 0 {
            a.start - REVERSE_SHIFT
        } else {
            a.start + a.length - 1 - REVERSE_SHIFT
        },
    }
}

/// Whether the shifted interval and its first position fit a signed machine
/// word.
pub open spec fn shiftable(a: AlignmentView) -> bool {
    match a.strand {
        Strand::Forward => a.start + FORWARD_SHIFT <= isize::MAX,
        Strand::Reverse => a.start - REVERSE_SHIFT >= isize::MIN && a.length <= isize::MAX
            && a.start - REVERSE_SHIFT + a.length <= isize::MAX,
    }
}

impl Alignment {
    /// The shifted interval and its first position are representable.
    pub open spec fn wf(&self) -> bool {
        shiftable(self@)
    }

    /// An alignment from its parts, where its cut site can be computed.
    pub fn new(start: isize, length: usize, strand: Strand, accepted: bool) -> (r: Option<
        Alignment,
    >)
        ensures
            r is Some <==> (Alignment { start, length, strand, accepted }).wf(),
            r is Some ==> r->0 == (Alignment { start, length, strand, accepted }),
    {
        let a = Alignment { start, length, strand, accepted };
        match strand {
            Strand::Forward => {
                if start > isize::MAX - FORWARD_SHIFT {
                    return None;
                }
            },
            Strand::Reverse => {
                if start < isize::MIN + REVERSE_SHIFT {
                    return None;
                }
                if length > isize::MAX as usize {
                    return None;
                }
                if start - REVERSE_SHIFT > isize::MAX - length as isize {
                    return None;
                }
            },
        }
        Some(a)
    }
}

/// Calls `Loc::first_pos` of bio-types on a contig built from the arguments
/// and returns the position's coordinate. As that method is written, the
/// result is `start` on the forward strand and for an empty contig, and
/// `start + length - 1` otherwise.
#[verifier::external_body]
fn contig_first_pos(start: isize, length: usize, strand: Strand) -> (p: isize)
    requires
        strand == Strand::Reverse ==> length <= isize::MAX && start + length <= isize::MAX,
    ensures
        p == first_pos(start as int, length as nat, strand),
{
    let s = match strand {
        Strand::Forward => ReqStrand::Forward,
        Strand::Reverse => ReqStrand::Reverse,
    };
    Contig::new((), start, length, s).first_pos().pos()
}

/// The cut site of one alignment, selected by the alignment's own strand.
pub fn tn5_shift(a: &Alignment) -> (p: isize)
    requires
        a.wf(),
    ensures
        p == cut_site(a@),
{
    match a.strand {
        Strand::Forward => contig_first_pos(a.start + FORWARD_SHIFT, a.length, a.strand),
        Strand::Reverse => contig_first_pos(a.start - REVERSE_SHIFT, a.length, a.strand),
    }
}

/// The cut sites of the accepted alignments among `alignments`, in order.
pub open spec fn cut_sites_of(alignments: Seq<Alignment>) -> Seq<isize>
    decreases alignments.len(),
{
    if alignments.len() == 0 {
        Seq::empty()
    } else if alignments.last().accepted {
        cut_sites_of(alignments.drop_last()).push(cut_site(alignments.last()@) as isize)
    } else {
        cut_sites_of(alignments.drop_last())
    }
}

/// Every accepted alignment of the sequence is well formed.
pub open spec fn all_shiftable(alignments: Seq<Alignment>) -> bool {
    forall|i: int|
        0 <= i < alignments.len() && alignments[i].accepted ==> (#[trigger] alignments[i]).wf()
}

/// Applies the filter's verdict and the shift: the cut site of each accepted
/// alignment, in retrieval order; the others are dropped.
pub fn cut_sites(alignments: &Vec<Alignment>) -> (sites: Vec<isize>)
    requires
        all_shiftable(alignments@),
    ensures
        sites@ == cut_sites_of(alignments@),
{
    let mut sites: Vec<isize> = Vec::new();
    let mut k: usize = 0;
    while k < alignments.len()
        invariant
            k <= alignments.len(),
            all_shiftable(alignments@),
            sites@ == cut_sites_of(alignments@.take(k as int)),
        decreases alignments.len() - k,
    {
        let a = alignments[k];
        proof {
            assert(alignments@.take(k + 1).drop_last() == alignments@.take(k as int));
            assert(alignments@.take(k + 1).last() == a);
        }
        if a.accepted {
            let p = tn5_shift(&a);
            sites.push(p);
        }
        k = k + 1;
    }
    proof {
        assert(alignments@.take(k as int) == alignments@);
    }
    sites
}

/// The cut site is a function of the alignment's boundary and strand alone:
/// two forward alignments with the same start, or two reverse alignments with
/// the same start and length, have the same cut site, whatever else differs.
pub proof fn lemma_cut_site_pure(a: AlignmentView, b: AlignmentView)
    requires
        a.strand == b.strand,
        a.start == b.start,
        a.strand == Strand::Reverse ==> a.length == b.length,
    ensures
        cut_site(a) == cut_site(b),
{
}

} // verus!
