use cutsites::chunk::{chunk_bounds, DEFAULT_CHUNK_SIZE};
use cutsites::coverage::accumulate;
use cutsites::emit::{emit_rows, format_row, window_repr};
use cutsites::engine::{chunk_coverage, query_range, run_sequential, window_coverage};
use cutsites::shift::{cut_sites, tn5_shift, Alignment, FORWARD_SHIFT, REVERSE_SHIFT};
use cutsites::window::{Strand, Window};

fn window(chrom: &str, start: isize, length: usize, strand: Strand) -> Window {
    Window::new(chrom.to_string(), start, length, strand).unwrap()
}

fn aln(start: isize, length: usize, strand: Strand) -> Alignment {
    Alignment::new(start, length, strand, true).unwrap()
}

#[test]
fn region_becomes_centered_window() {
    let w = Window::from_region("chr1".to_string(), 100, 200, 10).unwrap();
    assert_eq!(w.chromosome, "chr1");
    assert_eq!(w.start, 140);
    assert_eq!(w.length, 20);
    assert_eq!(w.strand, Strand::Forward);
    assert_eq!(w.end(), 160);
}

#[test]
fn window_length_ignores_region_span() {
    for (start, end) in [(0u64, 1u64), (100, 200), (5, 100_000), (7, 7), (3, 4)] {
        for flank in [0usize, 1, 10, 50, 1000] {
            let w = Window::from_region("chrX".to_string(), start, end, flank).unwrap();
            assert_eq!(w.length, 2 * flank);
            assert_eq!(w.start, ((start + end) / 2) as isize - flank as isize);
            assert_eq!(w.strand, Strand::Forward);
        }
    }
}

#[test]
fn window_center_rounds_down() {
    let w = Window::from_region("chr2".to_string(), 3, 4, 1).unwrap();
    assert_eq!(w.start, 2);
    assert_eq!(w.length, 2);
}

#[test]
fn window_may_start_below_zero() {
    let w = Window::from_region("chr2".to_string(), 0, 10, 50).unwrap();
    assert_eq!(w.start, -45);
    assert_eq!(w.length, 100);
    assert_eq!(window_repr(&w), "chr2:-45-55(+)");
}

#[test]
fn zero_flank_gives_empty_window() {
    let w = Window::from_region("chr1".to_string(), 100, 200, 0).unwrap();
    assert_eq!(w.start, 150);
    assert_eq!(w.length, 0);
    assert!(accumulate(&w, &vec![150, 149, 151]).is_empty());
    assert!(emit_rows("s", &w, &Vec::new()).is_empty());
}

#[test]
fn region_beyond_machine_range_gives_no_window() {
    assert!(Window::from_region("chr1".to_string(), u64::MAX, u64::MAX, 1).is_none());
    assert!(Window::from_region("chr1".to_string(), 0, 10, usize::MAX).is_none());
    assert!(Window::from_region("chr1".to_string(), 0, 10, isize::MAX as usize / 2 + 1).is_none());
    let top = isize::MAX as u64;
    assert!(Window::from_region("chr1".to_string(), top, top, 0).is_some());
    assert!(Window::from_region("chr1".to_string(), top, top, 1).is_none());
}

#[test]
fn window_new_rejects_unrepresentable_end() {
    assert!(Window::new("c".to_string(), isize::MAX, 0, Strand::Reverse).is_some());
    assert!(Window::new("c".to_string(), isize::MAX, 1, Strand::Reverse).is_none());
    assert!(Window::new("c".to_string(), -5, isize::MAX as usize + 3, Strand::Forward).is_none());
    let w = Window::new("c".to_string(), -5, 7, Strand::Reverse).unwrap();
    assert_eq!(w, Window { chromosome: "c".to_string(), start: -5, length: 7, strand: Strand::Reverse });
}

#[test]
fn shift_constants() {
    assert_eq!(FORWARD_SHIFT, 3);
    assert_eq!(REVERSE_SHIFT, 4);
    assert_eq!(DEFAULT_CHUNK_SIZE, 1000);
}

#[test]
fn forward_alignment_shifts_start_by_three() {
    assert_eq!(tn5_shift(&aln(145, 50, Strand::Forward)), 148);
    assert_eq!(tn5_shift(&aln(145, 1, Strand::Forward)), 148);
    assert_eq!(tn5_shift(&aln(-3, 36, Strand::Forward)), 0);
}

#[test]
fn reverse_alignment_shifts_last_base_by_four() {
    assert_eq!(tn5_shift(&aln(100, 50, Strand::Reverse)), 145);
    assert_eq!(tn5_shift(&aln(100, 1, Strand::Reverse)), 96);
    assert_eq!(tn5_shift(&aln(100, 0, Strand::Reverse)), 96);
}

#[test]
fn shift_is_repeatable() {
    for strand in [Strand::Forward, Strand::Reverse] {
        let a = aln(1234, 75, strand);
        let b = Alignment { start: 1234, length: 75, strand, accepted: false };
        assert_eq!(tn5_shift(&a), tn5_shift(&a));
        assert_eq!(tn5_shift(&a), tn5_shift(&b));
    }
}

#[test]
fn alignment_new_rejects_unrepresentable_shift() {
    assert!(Alignment::new(isize::MAX - 3, 10, Strand::Forward, true).is_some());
    assert!(Alignment::new(isize::MAX - 2, 10, Strand::Forward, true).is_none());
    assert!(Alignment::new(isize::MIN + 4, 10, Strand::Reverse, true).is_some());
    assert!(Alignment::new(isize::MIN + 3, 10, Strand::Reverse, true).is_none());
    assert!(Alignment::new(isize::MAX - 6, 10, Strand::Reverse, true).is_some());
    assert!(Alignment::new(isize::MAX - 5, 10, Strand::Reverse, true).is_none());
    assert!(Alignment::new(0, usize::MAX, Strand::Reverse, true).is_none());
    assert_eq!(
        Alignment::new(7, 9, Strand::Reverse, false),
        Some(Alignment { start: 7, length: 9, strand: Strand::Reverse, accepted: false })
    );
}

#[test]
fn rejected_alignments_leave_no_cut_site() {
    let alignments = vec![
        aln(10, 5, Strand::Forward),
        Alignment { start: 20, length: 5, strand: Strand::Forward, accepted: false },
        aln(30, 5, Strand::Reverse),
    ];
    assert_eq!(cut_sites(&alignments), vec![13, 30]);
    assert_eq!(cut_sites(&Vec::new()), Vec::<isize>::new());
}

#[test]
fn coverage_has_window_length() {
    for length in [0usize, 1, 2, 20, 100] {
        let w = window("chr1", 140, length, Strand::Forward);
        assert_eq!(accumulate(&w, &vec![140, 141, 141]).len(), length);
    }
}

#[test]
fn coverage_counts_sites_per_offset() {
    let w = window("chr1", 140, 20, Strand::Forward);
    let cov = accumulate(&w, &vec![148, 140, 159, 148, 148]);
    let mut expected = vec![0usize; 20];
    expected[0] = 1;
    expected[8] = 3;
    expected[19] = 1;
    assert_eq!(cov, expected);
}

#[test]
fn coverage_sum_is_number_of_sites_inside() {
    let w = window("chr1", -5, 10, Strand::Forward);
    let sites: Vec<isize> = vec![-6, -5, -5, 0, 4, 5, 6, 100, -100, 3, 3, 3, isize::MAX, isize::MIN];
    let inside = sites.iter().filter(|p| -5 <= **p && **p < 5).count();
    let cov = accumulate(&w, &sites);
    assert_eq!(inside, 7);
    assert_eq!(cov.iter().sum::<usize>(), inside);
}

#[test]
fn coverage_does_not_depend_on_site_order() {
    let w = window("chr1", 0, 8, Strand::Reverse);
    let a: Vec<isize> = vec![1, 7, 3, 3, 9, 0, -1, 7];
    let mut b = a.clone();
    b.reverse();
    let mut c = a.clone();
    c.sort();
    assert_eq!(accumulate(&w, &a), vec![1, 1, 0, 2, 0, 0, 0, 2]);
    assert_eq!(accumulate(&w, &a), accumulate(&w, &b));
    assert_eq!(accumulate(&w, &a), accumulate(&w, &c));
}

#[test]
fn site_outside_window_is_ignored() {
    let w = window("chr1", 140, 20, Strand::Forward);
    assert_eq!(accumulate(&w, &vec![139]), vec![0usize; 20]);
    assert_eq!(accumulate(&w, &vec![160]), vec![0usize; 20]);
    assert_eq!(accumulate(&w, &vec![isize::MIN, isize::MAX]), vec![0usize; 20]);
    let with = accumulate(&w, &vec![150, 139, 160]);
    let without = accumulate(&w, &vec![150]);
    assert_eq!(with, without);
}

#[test]
fn alignment_outside_window_gives_no_coverage() {
    let w = window("chr1", 140, 20, Strand::Forward);
    let cov = window_coverage(&w, &vec![aln(158, 30, Strand::Forward), aln(100, 40, Strand::Reverse)]);
    assert_eq!(cov, vec![0usize; 20]);
}

#[test]
fn chunks_cover_the_list_in_order() {
    for n in [0usize, 1, 2, 5, 9, 10, 11, 999, 1000, 1001, 2500] {
        for k in [1usize, 2, 3, 10, 1000] {
            let bounds = chunk_bounds(n, k);
            assert_eq!(bounds.len(), (n + k - 1) / k);
            let mut next = 0usize;
            for (lo, hi) in bounds.iter() {
                assert_eq!(*lo, next);
                assert!(lo < hi);
                assert!(hi - lo <= k);
                next = *hi;
            }
            assert_eq!(next, n);
            let items: Vec<usize> = (0..n).collect();
            let mut joined: Vec<usize> = Vec::new();
            for (lo, hi) in bounds.iter() {
                joined.extend_from_slice(&items[*lo..*hi]);
            }
            assert_eq!(joined, items);
        }
    }
}

#[test]
fn chunk_bounds_exact_values() {
    assert_eq!(chunk_bounds(0, 1000), Vec::<(usize, usize)>::new());
    assert_eq!(chunk_bounds(7, 3), vec![(0, 3), (3, 6), (6, 7)]);
    assert_eq!(chunk_bounds(6, 3), vec![(0, 3), (3, 6)]);
    assert_eq!(chunk_bounds(2500, DEFAULT_CHUNK_SIZE), vec![(0, 1000), (1000, 2000), (2000, 2500)]);
    assert_eq!(chunk_bounds(usize::MAX, usize::MAX), vec![(0, usize::MAX)]);
}

#[test]
fn chunk_coverage_keeps_window_order() {
    let windows = vec![
        window("chr1", 0, 4, Strand::Forward),
        window("chr1", 10, 4, Strand::Forward),
        window("chr2", 20, 4, Strand::Forward),
        window("chr2", 30, 4, Strand::Forward),
    ];
    let retrieved = vec![
        vec![aln(8, 5, Strand::Forward), aln(9, 5, Strand::Reverse)],
        vec![aln(17, 5, Strand::Forward), aln(24, 2, Strand::Reverse)],
    ];
    let out = chunk_coverage(&windows, 1, 3, &retrieved);
    assert_eq!(out, vec![vec![0, 1, 0, 0], vec![1, 1, 0, 0]]);
    let again = chunk_coverage(&windows, 1, 3, &retrieved);
    assert_eq!(out, again);
    assert_eq!(chunk_coverage(&windows, 2, 2, &Vec::new()), Vec::<Vec<usize>>::new());
}

#[test]
fn window_text_forms() {
    assert_eq!(window_repr(&window("chr1", 140, 20, Strand::Forward)), "chr1:140-160(+)");
    assert_eq!(window_repr(&window("chrM", 0, 0, Strand::Reverse)), "chrM:0-0(-)");
    assert_eq!(window_repr(&window("2L", -12, 24, Strand::Forward)), "2L:-12-12(+)");
    assert_eq!(
        window_repr(&window("chr10", 1_000_000, 100, Strand::Reverse)),
        "chr10:1000000-1000100(-)"
    );
}

#[test]
fn row_text_form() {
    assert_eq!(format_row("sample", "chr1:140-160(+)", 8, 1), "sample,chr1:140-160(+),8,1");
    assert_eq!(format_row("", "", 0, 0), ",,0,0");
    assert_eq!(format_row("a b", "r", 10, 12345), "a b,r,10,12345");
}

#[test]
fn single_forward_alignment_end_to_end() {
    let w = Window::from_region("chr1".to_string(), 100, 200, 10).unwrap();
    assert_eq!(window_repr(&w), "chr1:140-160(+)");
    let a = aln(145, 36, Strand::Forward);
    assert_eq!(tn5_shift(&a), 148);
    let cov = window_coverage(&w, &vec![a]);
    let rows = emit_rows("sample", &w, &cov);
    assert_eq!(rows.len(), 20);
    for (i, row) in rows.iter().enumerate() {
        let value = if i == 8 { 1 } else { 0 };
        assert_eq!(*row, format!("sample,chr1:140-160(+),{},{}", i, value));
    }
    assert_eq!(rows[8], "sample,chr1:140-160(+),8,1");
}

#[test]
fn sequential_run_is_reproducible() {
    let windows: Vec<Window> = (0..25u64)
        .map(|i| Window::from_region("chr3".to_string(), 100 * i, 100 * i + 40, 5).unwrap())
        .collect();
    let run = || {
        let mut rows: Vec<String> = Vec::new();
        for (lo, hi) in chunk_bounds(windows.len(), 10) {
            let retrieved: Vec<Vec<Alignment>> = (lo..hi)
                .map(|j| vec![aln(windows[j].start, 30, Strand::Forward), aln(windows[j].start, 9, Strand::Reverse)])
                .collect();
            let covs = chunk_coverage(&windows, lo, hi, &retrieved);
            for (j, cov) in covs.iter().enumerate() {
                rows.extend(emit_rows("s", &windows[lo + j], cov));
            }
        }
        rows
    };
    let first = run();
    assert_eq!(first.len(), 250);
    assert_eq!(first[0], "s,chr3:15-25(+),0,0");
    assert_eq!(first[3], "s,chr3:15-25(+),3,1");
    assert_eq!(first[4], "s,chr3:15-25(+),4,1");
    assert_eq!(first[249], "s,chr3:2415-2425(+),9,0");
    assert_eq!(first, run());
}

#[test]
fn window_validity() {
    let ok = Window { chromosome: "c".to_string(), start: isize::MAX - 4, length: 4, strand: Strand::Forward };
    let past = Window { chromosome: "c".to_string(), start: isize::MAX - 4, length: 5, strand: Strand::Forward };
    let long = Window { chromosome: "c".to_string(), start: isize::MIN, length: usize::MAX, strand: Strand::Forward };
    assert!(ok.is_valid());
    assert_eq!(ok.end(), isize::MAX);
    assert!(!past.is_valid());
    assert!(!long.is_valid());
}

#[test]
fn sequential_run_matches_chunked_run() {
    let windows: Vec<Window> = (0..7u64)
        .map(|i| Window::from_region("chr4".to_string(), 10 * i, 10 * i + 10, 3).unwrap())
        .collect();
    let retrieved: Vec<Vec<Alignment>> = windows
        .iter()
        .map(|w| vec![aln(w.start - 3, 20, Strand::Forward), aln(w.start - 10, 20, Strand::Reverse)])
        .collect();
    let whole = run_sequential(&windows, 3, &retrieved);
    assert_eq!(whole.len(), 7);
    for cov in whole.iter() {
        assert_eq!(*cov, vec![1, 0, 0, 0, 0, 1]);
    }
    let mut joined: Vec<Vec<usize>> = Vec::new();
    for (lo, hi) in chunk_bounds(windows.len(), 3) {
        joined.extend(chunk_coverage(&windows, lo, hi, &retrieved[lo..hi].to_vec()));
    }
    assert_eq!(whole, joined);
    for k in [1usize, 2, 7, 8, 1000] {
        assert_eq!(run_sequential(&windows, k, &retrieved), whole);
    }
    assert_eq!(run_sequential(&Vec::new(), 5, &Vec::new()), Vec::<Vec<usize>>::new());
}

#[test]
fn query_range_is_cut_at_zero() {
    assert_eq!(query_range(&window("chr1", 140, 20, Strand::Forward)), Some((140, 160)));
    assert_eq!(query_range(&window("chr1", -45, 100, Strand::Forward)), Some((0, 55)));
    assert_eq!(query_range(&window("chr1", 0, 1, Strand::Forward)), Some((0, 1)));
    assert_eq!(query_range(&window("chr1", 7, 0, Strand::Forward)), None);
    assert_eq!(query_range(&window("chr1", -10, 10, Strand::Forward)), None);
    assert_eq!(query_range(&window("chr1", -10, 3, Strand::Reverse)), None);
    assert_eq!(query_range(&window("chr1", 0, 0, Strand::Forward)), None);
}
