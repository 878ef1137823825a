//! Textual form of windows and of output rows.

use vstd::prelude::*;
use crate::window::{Strand, Window, WindowView};
use bio_types::annot::contig::Contig;
use bio_types::strand::ReqStrand;

verus! {

/// The character of one decimal digit.
pub open spec fn digit_char(d: nat) -> char {
    seq!['0', '1', '2', '3', '4', '5', '6', '7', '8', '9'][d as int]
}

/// `n` in decimal, without sign or leading zeros.
pub open spec fn decimal(n: nat) -> Seq<char>
    decreases n,
{
    if n < 10 {
        seq![digit_char(n)]
    } else {
        decimal(n / 10).push(digit_char(n % 10))
    }
}

/// `x` in decimal, with a minus sign before a negative number.
pub open spec fn signed_decimal(x: int) -> Seq<char> {
    if x < 0 {
        seq!['-'] + decimal((-x) as nat)
    } else {
        decimal(x as nat)
    }
}

/// `'+'` for the forward strand, `'-'` for the reverse strand.
pub open spec fn strand_symbol(s: Strand) -> char {
    match s {
        Strand::Forward => '+',
        Strand::Reverse => '-',
    }
}

/// The canonical text of a window: chromosome, colon, start, hyphen,
/// exclusive end, and the strand symbol in parentheses.
pub open spec fn window_repr_of(w: WindowView) -> Seq<char> {
    w.chromosome + seq![':'] + signed_decimal(w.start) + seq!['-'] + signed_decimal(w.end())
        + seq!['(', strand_symbol(w.strand), ')']
}

/// One output row: sample, window, offset and count, separated by commas.
pub open spec fn row_of(sample: Seq<char>, w: WindowView, offset: nat, value: nat) -> Seq<char> {
    sample + seq![','] + window_repr_of(w) + seq![','] + decimal(offset) + seq![','] + decimal(
        value,
    )
}

/// Formats a bio-types `Contig` with the window's fields through the
/// contig's `Display`. That impl writes the reference name, a colon, the
/// start, a hyphen and `start + length` as decimal integers, then the symbol
/// of a known strand in parentheses.
#[verifier::external_body]
fn contig_to_string(window: &Window) -> (text: String)
    requires
        window.wf(),
    ensures
        text@ == window_repr_of(window@),
{
    let s = match window.strand {
        Strand::Forward => ReqStrand::Forward,
        Strand::Reverse => ReqStrand::Reverse,
    };
    Contig::new(window.chromosome.clone(), window.start, window.length, s).to_string()
}

/// Formats an unsigned integer with `ToString::to_string`, which for the
/// integer types gives the decimal digits without sign or padding.
#[verifier::external_body]
fn decimal_string(n: usize) -> (text: String)
    ensures
        text@ == decimal(n as nat),
{
    n.to_string()
}

/// The canonical text of a window, such as `chr1:140-160(+)`.
pub fn window_repr(window: &Window) -> (text: String)
    requires
        window.wf(),
    ensures
        text@ == window_repr_of(window@),
{
    contig_to_string(window)
}

/// The row for one offset of a window whose text is `repr`.
pub fn format_row(sample: &str, repr: &str, offset: usize, value: usize) -> (row: String)
    ensures
        row@ == sample@ + seq![','] + repr@ + seq![','] + decimal(offset as nat) + seq![',']
            + decimal(value as nat),
{
    proof {
        reveal_strlit(",");
        assert(","@ =~= seq![',']);
    }
    let mut row = String::from_str(sample);
    row.append(",");
    row.append(repr);
    row.append(",");
    let off = decimal_string(offset);
    row.append(off.as_str());
    row.append(",");
    let val = decimal_string(value);
    row.append(val.as_str());
    row
}

/// The rows of one window, one per entry of its coverage vector, by
/// increasing offset.
pub fn emit_rows(sample: &str, window: &Window, coverage: &Vec<usize>) -> (rows: Vec<String>)
    requires
        window.wf(),
    ensures
        rows@.len() == coverage@.len(),
        forall|i: int|
            0 <= i < coverage@.len() ==> (#[trigger] rows@[i])@ == row_of(
                sample@,
                window@,
                i as nat,
                coverage@[i] as nat,
            ),
{
    let repr = window_repr(window);
    let mut rows: Vec<String> = Vec::new();
    let mut i: usize = 0;
    while i < coverage.len()
        invariant
            i <= coverage@.len(),
            rows@.len() == i,
            repr@ == window_repr_of(window@),
            forall|j: int|
                0 <= j < i ==> (#[trigger] rows@[j])@ == row_of(
                    sample@,
                    window@,
                    j as nat,
                    coverage@[j] as nat,
                ),
        decreases coverage@.len() - i,
    {
        let row = format_row(sample, repr.as_str(), i, coverage[i]);
        rows.push(row);
        i = i + 1;
    }
    rows
}

} // verus!
