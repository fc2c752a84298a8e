use modal_edit::layout::{recompute_layout, VisualSegment};

fn lines(xs: &[&str]) -> Vec<Vec<char>> {
    xs.iter().map(|s| s.chars().collect()).collect()
}

fn seg(line: usize, start: usize, end: usize) -> VisualSegment {
    VisualSegment { source_line: line, start, end }
}

#[test]
fn layout_partitions_a_short_line() {
    let text = lines(&["abc"]);
    let segs = recompute_layout(&text, 10);
    assert_eq!(segs, vec![seg(0, 0, 3)]);
}

#[test]
fn layout_wraps_a_long_line() {
    // Eleven characters at width ten wrap into a full row and a remainder.
    let text = lines(&["abcdefghijk"]);
    let segs = recompute_layout(&text, 10);
    assert_eq!(segs, vec![seg(0, 0, 10), seg(0, 10, 11)]);
}

#[test]
fn layout_keeps_an_empty_trailing_row_at_exact_multiples() {
    let text = lines(&["abcd"]);
    let segs = recompute_layout(&text, 2);
    assert_eq!(segs, vec![seg(0, 0, 2), seg(0, 2, 4), seg(0, 4, 4)]);
}

#[test]
fn layout_gives_an_empty_line_one_row() {
    let text = lines(&["", "xy"]);
    let segs = recompute_layout(&text, 4);
    assert_eq!(segs, vec![seg(0, 0, 0), seg(1, 0, 2)]);
}

#[test]
fn layout_covers_every_line_in_order() {
    let text = lines(&["abcde", "", "fgh"]);
    let segs = recompute_layout(&text, 2);
    assert_eq!(
        segs,
        vec![
            seg(0, 0, 2),
            seg(0, 2, 4),
            seg(0, 4, 5),
            seg(1, 0, 0),
            seg(2, 0, 2),
            seg(2, 2, 3),
        ]
    );
}

#[test]
fn layout_ranges_are_contiguous_and_bounded() {
    let text = lines(&["abcdefghijklm", "nop"]);
    let width = 5usize;
    let segs = recompute_layout(&text, width);
    for w in segs.windows(2) {
        if w[0].source_line == w[1].source_line {
            assert_eq!(w[0].end, w[1].start);
        } else {
            assert_eq!(w[0].end, text[w[0].source_line].len());
            assert_eq!(w[1].start, 0);
        }
    }
    for s in &segs {
        assert!(s.start <= s.end);
        assert!(s.end - s.start <= width);
        assert!(s.end <= text[s.source_line].len());
    }
    assert_eq!(segs.last().unwrap().end, text[1].len());
}
