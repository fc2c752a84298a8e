//! The layout engine: wraps the buffer's logical lines into fixed-width
//! visual rows.  The full ordered sequence of segments for all lines is the
//! "visual text"; it is derived data, recomputed from the buffer and the
//! display width, never patched incrementally.

use vstd::prelude::*;

verus! {

/// One wrapped fragment of a logical line: the half-open column range
/// `[start, end)` of line `source_line`, narrow enough to fit on one screen
/// row.
#[derive(Clone, Copy, PartialEq, Eq, Structural, Debug)]
pub struct VisualSegment {
    pub source_line: usize,
    pub start: usize,
    pub end: usize,
}

/// The wrapped rows of a line of length `len`, beginning at column `start`:
/// one row of exactly `width` columns while at least `width` columns remain,
/// then a single final row holding the remainder.  When the remaining length
/// is an exact multiple of `width` the final row is empty, so every line
/// contributes at least one row and a cursor sitting exactly on a wrap
/// boundary still has an addressable row.
pub open spec fn line_segments_from(
    line: usize,
    start: usize,
    len: usize,
    width: usize,
) -> Seq<VisualSegment>
    decreases len - start
        when start <= len && width > 0
{
    if len - start >= width {
        seq![VisualSegment { source_line: line, start, end: (start + width) as usize }]
            + line_segments_from(line, (start + width) as usize, len, width)
    } else {
        seq![VisualSegment { source_line: line, start, end: len }]
    }
}

/// All visual segments of one line, from column 0.
pub open spec fn line_segments(line: usize, len: usize, width: usize) -> Seq<VisualSegment> {
    line_segments_from(line, 0, len, width)
}

/// The visual text: the segments of every line, in original line order.
pub open spec fn layout_spec(lines: Seq<Vec<char>>, width: usize) -> Seq<VisualSegment>
    decreases lines.len(),
{
    if lines.len() == 0 {
        Seq::empty()
    } else {
        layout_spec(lines.drop_last(), width)
            + line_segments((lines.len() - 1) as usize, lines.last()@.len() as usize, width)
    }
}

/// The layout of one more line is the layout so far followed by that line's
/// segments.
pub proof fn lemma_layout_snoc(lines: Seq<Vec<char>>, width: usize, i: int)
    requires
        0 <= i < lines.len(),
        lines.len() <= usize::MAX,
    ensures
        layout_spec(lines.subrange(0, i + 1), width) == layout_spec(lines.subrange(0, i), width)
            + line_segments(i as usize, lines[i]@.len() as usize, width),
{
    let prefix = lines.subrange(0, i + 1);
    assert(prefix.drop_last() =~= lines.subrange(0, i));
    assert(prefix.last() == lines[i]);
}

/// For any line of length `len` and positive width, the wrapped rows
/// partition the column range `[start, len]`: they are contiguous,
/// non-overlapping, each at most `width` wide, the full-width rows come
/// first, and the final row is empty exactly when `len - start` is a
/// multiple of `width`.
pub proof fn lemma_line_segments_from_partition(line: usize, start: usize, len: usize, width: usize)
    requires
        start <= len,
        width >= 1,
    ensures
        ({
            let s = line_segments_from(line, start, len, width);
            &&& s.len() == (len - start) / (width as int) + 1
            &&& forall|j: int| 0 <= j < s.len() ==> (#[trigger] s[j]).source_line == line
            &&& s[0].start == start
            &&& s[s.len() - 1].end == len
            &&& forall|j: int|
                0 <= j < s.len() ==> (#[trigger] s[j]).start <= s[j].end <= len
            &&& forall|j: int| 0 <= j < s.len() - 1 ==> (#[trigger] s[j]).end == s[j].start + width
            &&& forall|j: int| 0 <= j < s.len() - 1 ==> (#[trigger] s[j + 1]).start == s[j].end
            &&& s[s.len() - 1].end - s[s.len() - 1].start == (len - start) % (width as int)
        }),
    decreases len - start,
{
    let s = line_segments_from(line, start, len, width);
    if len - start >= width {
        let start2 = (start + width) as usize;
        let hd = VisualSegment { source_line: line, start, end: start2 };
        let rest = line_segments_from(line, start2, len, width);
        assert(s =~= seq![hd] + rest);
        lemma_line_segments_from_partition(line, start2, len, width);
        vstd::arithmetic::div_mod::lemma_div_plus_one(len - start2, width as int);
        vstd::arithmetic::div_mod::lemma_mod_add_multiples_vanish(len - start2, width as int);
        assert(s.len() == rest.len() + 1);
        assert(s[0] == hd);
        assert forall|j: int| 1 <= j < s.len() implies s[j] == rest[j - 1] by {
            assert(s[j] == (seq![hd] + rest)[j]);
        }
        assert forall|j: int| 0 <= j < s.len() - 1 implies (#[trigger] s[j + 1]).start == s[j].end by {
            assert(s[j + 1] == rest[j]);
            if j > 0 {
                assert(s[j] == rest[j - 1]);
                assert(rest[(j - 1) + 1].start == rest[j - 1].end);
            }
        }
        assert forall|j: int| 0 <= j < s.len() - 1 implies (#[trigger] s[j]).end == s[j].start
            + width by {
            if j > 0 {
                assert(s[j] == rest[j - 1]);
            }
        }
        assert(s[s.len() - 1] == rest[rest.len() - 1]);
    } else {
        vstd::arithmetic::div_mod::lemma_basic_div(len - start, width as int);
        vstd::arithmetic::div_mod::lemma_small_mod((len - start) as nat, width as nat);
    }
}

/// The number of visual rows of a single line.
pub open spec fn line_row_count(len: usize, width: usize) -> int {
    len as int / width as int + 1
}

/// Every segment of a line's layout describes a range inside that line.
pub proof fn lemma_line_segments_valid(line: usize, len: usize, width: usize)
    requires
        width >= 1,
    ensures
        ({
            let s = line_segments(line, len, width);
            &&& s.len() == line_row_count(len, width)
            &&& forall|j: int| 0 <= j < s.len() ==> (#[trigger] s[j]).source_line == line
            &&& forall|j: int|
                0 <= j < s.len() ==> (#[trigger] s[j]).start <= s[j].end <= len
        }),
{
    lemma_line_segments_from_partition(line, 0, len, width);
}

/// The row index where line `line`'s segments begin in the visual text.
pub open spec fn base_row(lines: Seq<Vec<char>>, width: usize, line: int) -> int {
    layout_spec(lines.subrange(0, line), width).len() as int
}

/// The visual row that holds column `col` of logical line `line`.
pub open spec fn vis_row(lines: Seq<Vec<char>>, width: usize, line: int, col: int) -> int {
    base_row(lines, width, line) + col / (width as int)
}

/// Every segment of the visual text belongs to an existing line and stays
/// inside that line's column range.
pub proof fn lemma_layout_valid(lines: Seq<Vec<char>>, width: usize)
    requires
        width >= 1,
        lines.len() <= usize::MAX,
    ensures
        forall|k: int|
            0 <= k < layout_spec(lines, width).len() ==> {
                let seg = #[trigger] layout_spec(lines, width)[k];
                &&& seg.source_line < lines.len()
                &&& seg.start <= seg.end
                &&& seg.end <= lines[seg.source_line as int]@.len()
            },
    decreases lines.len(),
{
    if lines.len() > 0 {
        let segs = layout_spec(lines, width);
        let l = (lines.len() - 1) as usize;
        let llen = lines.last()@.len() as usize;
        let head = layout_spec(lines.drop_last(), width);
        let tail = line_segments(l, llen, width);
        lemma_layout_valid(lines.drop_last(), width);
        lemma_line_segments_valid(l, llen, width);
        assert(vstd::std_specs::vec::spec_vec_len(&lines.last()) == lines.last()@.len());
        assert forall|k: int| 0 <= k < segs.len() implies {
            let seg = #[trigger] segs[k];
            &&& seg.source_line < lines.len()
            &&& seg.start <= seg.end
            &&& seg.end <= lines[seg.source_line as int]@.len()
        } by {
            if k < head.len() {
                assert(segs[k] == head[k]);
                assert(lines.drop_last()[segs[k].source_line as int] == lines[segs[k].source_line as int]);
            } else {
                assert(segs[k] == tail[k - head.len()]);
            }
        }
    }
}

/// Where one line's segments sit inside the whole visual text: they start at
/// `base_row`, run for one line's row count, and every earlier row belongs to
/// an earlier line.
pub proof fn lemma_layout_structure(lines: Seq<Vec<char>>, width: usize, l: int)
    requires
        width >= 1,
        lines.len() <= usize::MAX,
        0 <= l < lines.len(),
    ensures
        ({
            let segs = layout_spec(lines, width);
            let base = base_row(lines, width, l);
            let own = line_segments(l as usize, lines[l]@.len() as usize, width);
            &&& 0 <= base
            &&& base + own.len() <= segs.len()
            &&& forall|k: int| 0 <= k < base ==> (#[trigger] segs[k]).source_line < l
            &&& forall|j: int| 0 <= j < own.len() ==> segs[base + j] == own[j]
        }),
    decreases lines.len(),
{
    let segs = layout_spec(lines, width);
    let n = lines.len() as int;
    let head = layout_spec(lines.drop_last(), width);
    let lastl = (n - 1) as usize;
    let llen = lines.last()@.len() as usize;
    let tail = line_segments(lastl, llen, width);
    let base = base_row(lines, width, l);
    let own = line_segments(l as usize, lines[l]@.len() as usize, width);
    if l == n - 1 {
        assert(lines.subrange(0, l) =~= lines.drop_last());
        assert(base == head.len());
        assert(own == tail);
        lemma_layout_valid(lines.drop_last(), width);
        assert forall|k: int| 0 <= k < base implies (#[trigger] segs[k]).source_line < l by {
            assert(segs[k] == head[k]);
        }
        assert forall|j: int| 0 <= j < own.len() implies segs[base + j] == own[j] by {
            assert(segs[base + j] == tail[j]);
        }
    } else {
        lemma_layout_structure(lines.drop_last(), width, l);
        assert(lines.subrange(0, l) =~= lines.drop_last().subrange(0, l));
        assert(lines.drop_last()[l] == lines[l]);
        let base2 = base_row(lines.drop_last(), width, l);
        assert(base == base2);
        assert forall|k: int| 0 <= k < base implies (#[trigger] segs[k]).source_line < l by {
            assert(segs[k] == head[k]);
        }
        assert forall|j: int| 0 <= j < own.len() implies segs[base + j] == own[j] by {
            assert(segs[base + j] == head[base + j]);
        }
    }
}

/// Computes the visual text for the given buffer lines and display width:
/// each line is walked in increments of `width`, one segment per increment,
/// and one final segment holds the remainder, so every line (even an empty
/// one) contributes at least one row.
pub fn recompute_layout(text: &Vec<Vec<char>>, width: usize) -> (segs: Vec<VisualSegment>)
    requires
        width >= 1,
    ensures
        segs@ == layout_spec(text@, width),
{
    let mut segs: Vec<VisualSegment> = Vec::new();
    let mut l: usize = 0;
    while l < text.len()
        invariant
            width >= 1,
            l <= text.len(),
            segs@ == layout_spec(text@.subrange(0, l as int), width),
        decreases text.len() - l,
    {
        let llen: usize = text[l].len();
        let ghost goal = layout_spec(text@.subrange(0, l + 1), width);
        proof {
            lemma_layout_snoc(text@, width, l as int);
        }
        let mut start: usize = 0;
        while llen - start >= width
            invariant
                width >= 1,
                start <= llen,
                segs@ + line_segments_from(l, start, llen, width) == goal,
            decreases llen - start,
        {
            let seg = VisualSegment { source_line: l, start, end: start + width };
            proof {
                assert(segs@.push(seg) + line_segments_from(l, (start + width) as usize, llen, width)
                    =~= segs@ + line_segments_from(l, start, llen, width));
            }
            segs.push(seg);
            start = start + width;
        }
        let seg = VisualSegment { source_line: l, start, end: llen };
        proof {
            assert(segs@.push(seg) =~= segs@ + line_segments_from(l, start, llen, width));
        }
        segs.push(seg);
        l = l + 1;
    }
    proof {
        assert(text@.subrange(0, text@.len() as int) =~= text@);
    }
    segs
}

} // verus!
