//! Bounding result lines to a display width.
use vstd::prelude::*;
use vstd::string::{StrSliceExecFns, StringExecFns};

verus! {

/// The largest of `idx`, or 0 when it is empty.
pub open spec fn max_index(idx: Seq<usize>) -> int
    decreases idx.len(),
{
    if idx.len() == 0 {
        0
    } else {
        let m = max_index(idx.drop_last());
        if idx.last() > m {
            idx.last() as int
        } else {
            m
        }
    }
}

/// Where the shown window of a line longer than `width` starts: at 0 when the
/// last matched position falls in the first `width` chars, else so that the
/// window ends on it.
pub open spec fn window_start(idx: Seq<usize>, width: int) -> int {
    let last = max_index(idx);
    if last < width {
        0
    } else {
        last + 1 - width
    }
}

/// The positions of `idx` inside the window `[start, start + width)`, moved
/// to the window.
pub open spec fn remap(idx: Seq<usize>, start: int, width: int) -> Seq<usize>
    decreases idx.len(),
{
    if idx.len() == 0 {
        Seq::empty()
    } else {
        let rest = remap(idx.drop_last(), start, width);
        let i = idx.last() as int;
        if start <= i < start + width {
            rest.push((i - start) as usize)
        } else {
            rest
        }
    }
}

/// The columns left for text when `skipped` of `winwidth` are taken.
pub open spec fn text_width(winwidth: usize, skipped: Option<usize>) -> int {
    match skipped {
        Some(s) => if s < winwidth { winwidth - s } else { 0 },
        None => winwidth as int,
    }
}

/// The shown text of `line` in `width` columns.
pub open spec fn shown_text(line: Seq<char>, idx: Seq<usize>, width: int) -> Seq<char> {
    if line.len() <= width {
        line
    } else if width == 0 {
        Seq::empty()
    } else {
        let start = window_start(idx, width);
        let end = if start + width <= line.len() { start + width } else { line.len() as int };
        let s = if start <= line.len() { start } else { line.len() as int };
        line.subrange(s, end)
    }
}

/// The matched positions shown for `line` in `width` columns.
pub open spec fn shown_indices(line: Seq<char>, idx: Seq<usize>, width: int) -> Seq<usize> {
    if line.len() <= width {
        idx
    } else if width == 0 {
        Seq::empty()
    } else {
        remap(idx, window_start(idx, width), width)
    }
}

/// Lines bounded to a width: their matched positions within the shown text,
/// and for each line that was cut, its position and its full text.
pub struct TruncatedLines {
    pub lines: Vec<String>,
    pub indices: Vec<Vec<usize>>,
    pub truncated_map: Vec<(usize, String)>,
}

/// Positions and full texts of the `lines` longer than `width`, in order.
pub open spec fn cut_lines(lines: Seq<String>, width: int) -> Seq<(usize, String)>
    decreases lines.len(),
{
    if lines.len() == 0 {
        Seq::empty()
    } else {
        let rest = cut_lines(lines.drop_last(), width);
        if lines.last()@.len() > width {
            rest.push(((lines.len() - 1) as usize, lines.last()))
        } else {
            rest
        }
    }
}

/// Each entry of the map names a line longer than the width, with that
/// line's full text.
pub proof fn lemma_cut_entries(lines: Seq<String>, width: int)
    requires
        lines.len() <= usize::MAX,
    ensures
        forall|i: int|
            0 <= i < cut_lines(lines, width).len() ==> {
                let e = #[trigger] cut_lines(lines, width)[i];
                &&& e.0 < lines.len()
                &&& lines[e.0 as int]@.len() > width
                &&& e.1 == lines[e.0 as int]
            },
    decreases lines.len(),
{
    if lines.len() > 0 {
        let init = lines.drop_last();
        lemma_cut_entries(init, width);
        let rest = cut_lines(init, width);
        assert forall|i: int| 0 <= i < rest.len() implies rest[i].0 < lines.len() && lines[rest[i].0 as int]
            == init[rest[i].0 as int] by {
            assert(rest[i].0 < init.len());
        }
    }
}

/// A line that fits in the width is shown unchanged with its positions, and
/// the map has no entry for it.
pub proof fn lemma_short_line_kept(lines: Seq<String>, idx: Seq<usize>, width: int, k: int)
    requires
        lines.len() <= usize::MAX,
        0 <= k < lines.len(),
        lines[k]@.len() <= width,
    ensures
        shown_text(lines[k]@, idx, width) == lines[k]@,
        shown_indices(lines[k]@, idx, width) == idx,
        forall|i: int|
            0 <= i < cut_lines(lines, width).len() ==> #[trigger] cut_lines(lines, width)[i].0
                != k,
{
    lemma_cut_entries(lines, width);
}

fn max_of(idx: &Vec<usize>) -> (r: usize)
    ensures
        r == max_index(idx@),
{
    let mut m: usize = 0;
    let mut k: usize = 0;
    while k < idx.len()
        invariant
            k <= idx.len(),
            m == max_index(idx@.subrange(0, k as int)),
        decreases idx.len() - k,
    {
        proof {
            assert(idx@.subrange(0, k + 1).drop_last() =~= idx@.subrange(0, k as int));
        }
        if idx[k] > m {
            m = idx[k];
        }
        k = k + 1;
    }
    proof {
        assert(idx@.subrange(0, idx.len() as int) =~= idx@);
    }
    m
}

fn remap_indices(idx: &Vec<usize>, start: usize, width: usize) -> (r: Vec<usize>)
    ensures
        r@ == remap(idx@, start as int, width as int),
{
    let mut out: Vec<usize> = Vec::new();
    let mut k: usize = 0;
    while k < idx.len()
        invariant
            k <= idx.len(),
            out@ == remap(idx@.subrange(0, k as int), start as int, width as int),
        decreases idx.len() - k,
    {
        proof {
            assert(idx@.subrange(0, k + 1).drop_last() =~= idx@.subrange(0, k as int));
        }
        if start <= idx[k] && idx[k] - start < width {
            out.push(idx[k] - start);
        }
        k = k + 1;
    }
    proof {
        assert(idx@.subrange(0, idx.len() as int) =~= idx@);
    }
    out
}

/// A copy of `idx`.
pub fn copy_indices(idx: &Vec<usize>) -> (r: Vec<usize>)
    ensures
        r@ == idx@,
{
    let mut out: Vec<usize> = Vec::new();
    let mut k: usize = 0;
    while k < idx.len()
        invariant
            k <= idx.len(),
            out@ == idx@.subrange(0, k as int),
        decreases idx.len() - k,
    {
        out.push(idx[k]);
        k = k + 1;
    }
    proof {
        assert(idx@.subrange(0, idx.len() as int) =~= idx@);
    }
    out
}

/// `r` holds `lines`, with their matched positions `indices`, bounded to the
/// width that `winwidth` leaves after `skipped` columns.
pub open spec fn truncates(
    r: TruncatedLines,
    lines: Seq<String>,
    indices: Seq<Vec<usize>>,
    winwidth: usize,
    skipped: Option<usize>,
) -> bool {
    let w = text_width(winwidth, skipped);
    &&& r.lines.len() == lines.len()
    &&& r.indices.len() == lines.len()
    &&& forall|k: int|
        0 <= k < lines.len() ==> #[trigger] r.lines@[k]@ == shown_text(lines[k]@, indices[k]@, w)
    &&& forall|k: int|
        0 <= k < lines.len() ==> #[trigger] r.indices@[k]@ == shown_indices(
            lines[k]@,
            indices[k]@,
            w,
        )
    &&& r.truncated_map@ == cut_lines(lines, w)
}

/// When every line fits in the width, the lines and their matched positions
/// come back unchanged and the map of cut lines is empty.
pub proof fn lemma_fitting_lines_unchanged(
    r: TruncatedLines,
    lines: Seq<String>,
    indices: Seq<Vec<usize>>,
    winwidth: usize,
    skipped: Option<usize>,
)
    requires
        lines.len() <= usize::MAX,
        truncates(r, lines, indices, winwidth, skipped),
        forall|k: int| 0 <= k < lines.len() ==> #[trigger] lines[k]@.len() <= text_width(winwidth, skipped),
    ensures
        r.lines.len() == lines.len(),
        forall|k: int| 0 <= k < lines.len() ==> #[trigger] r.lines@[k]@ == lines[k]@,
        forall|k: int| 0 <= k < lines.len() ==> #[trigger] r.indices@[k]@ == indices[k]@,
        r.truncated_map@.len() == 0,
{
    let w = text_width(winwidth, skipped);
    lemma_cut_entries(lines, w);
    if cut_lines(lines, w).len() > 0 {
        let e = cut_lines(lines, w)[0];
        assert(lines[e.0 as int]@.len() > w);
    }
    assert forall|k: int| 0 <= k < lines.len() implies #[trigger] r.lines@[k]@ == lines[k]@ by {
        assert(r.lines@[k]@ == shown_text(lines[k]@, indices[k]@, w));
    }
    assert forall|k: int| 0 <= k < lines.len() implies #[trigger] r.indices@[k]@ == indices[k]@ by {
        assert(r.indices@[k]@ == shown_indices(lines[k]@, indices[k]@, w));
    }
}

/// Bounds each of `lines` to the width that `winwidth` leaves after
/// `skipped` columns. A line that fits is kept as it is with its positions. A
/// longer one shows the window of that width that ends on its last matched
/// position (or its first chars, when that position falls within them), its
/// positions moved to the window; its position and full text go to the map.
pub fn truncate_lines(
    lines: &Vec<String>,
    indices: &Vec<Vec<usize>>,
    winwidth: usize,
    skipped: Option<usize>,
) -> (r: TruncatedLines)
    requires
        lines.len() == indices.len(),
    ensures
        truncates(r, lines@, indices@, winwidth, skipped),
{
    let width: usize = match skipped {
        Some(s) => if s < winwidth { winwidth - s } else { 0 },
        None => winwidth,
    };
    let ghost w = width as int;
    let mut out_lines: Vec<String> = Vec::new();
    let mut out_indices: Vec<Vec<usize>> = Vec::new();
    let mut map: Vec<(usize, String)> = Vec::new();
    let mut k: usize = 0;
    while k < lines.len()
        invariant
            w == text_width(winwidth, skipped),
            width == w,
            k <= lines.len(),
            lines.len() == indices.len(),
            out_lines.len() == k,
            out_indices.len() == k,
            forall|j: int|
                0 <= j < k ==> #[trigger] out_lines@[j]@ == shown_text(lines@[j]@, indices@[j]@, w),
            forall|j: int|
                0 <= j < k ==> #[trigger] out_indices@[j]@ == shown_indices(
                    lines@[j]@,
                    indices@[j]@,
                    w,
                ),
            map@ == cut_lines(lines@.subrange(0, k as int), w),
        decreases lines.len() - k,
    {
        proof {
            assert(lines@.subrange(0, k + 1).drop_last() =~= lines@.subrange(0, k as int));
        }
        let line = lines[k].as_str();
        let n = line.unicode_len();
        if n <= width {
            out_lines.push(lines[k].clone());
            out_indices.push(copy_indices(&indices[k]));
        } else if width == 0 {
            out_lines.push(String::new());
            out_indices.push(Vec::new());
            map.push((k, lines[k].clone()));
        } else {
            let last = max_of(&indices[k]);
            let start: usize = if last < width { 0 } else { last - width + 1 };
            let s: usize = if start <= n { start } else { n };
            let end: usize = if start <= n && n - start >= width { start + width } else { n };
            let shown = line.substring_char(s, end);
            out_lines.push(String::from_str(shown));
            out_indices.push(remap_indices(&indices[k], start, width));
            map.push((k, lines[k].clone()));
        }
        k = k + 1;
    }
    proof {
        assert(lines@.subrange(0, lines.len() as int) =~= lines@);
    }
    TruncatedLines { lines: out_lines, indices: out_indices, truncated_map: map }
}

} // verus!
