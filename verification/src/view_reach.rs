//! How far the lines of a buffer have to be laid out to fill the view.

use vstd::prelude::*;
use crate::buffer::layout_count;
use crate::layout::{LayoutLine, TextLayoutLine};

verus! {

/// The heights of layout lines, in order.
pub open spec fn heights_of(layout: Seq<LayoutLine>) -> Seq<int> {
    layout.map_values(|line: LayoutLine| line.height())
}

/// The heights of the cached layout lines of a line; none if no layout is
/// cached.
pub open spec fn line_heights(line: TextLayoutLine) -> Seq<int> {
    match line.layout_cache() {
        Some(layout) => heights_of(layout@),
        None => Seq::empty(),
    }
}

/// The heights of the cached layout lines of the first `n` lines, from
/// the top of the text down.
pub open spec fn flat_heights(lines: Seq<TextLayoutLine>, n: int) -> Seq<int>
    decreases n,
{
    if n <= 0 {
        Seq::empty()
    } else {
        flat_heights(lines, n - 1) + line_heights(lines[n - 1])
    }
}

/// Sum of the heights from index `from` on.
pub open spec fn sum_from(heights: Seq<int>, from: int) -> int
    decreases heights.len() - from,
{
    if from >= heights.len() {
        0
    } else if from < 0 {
        sum_from(heights, 0)
    } else {
        heights[from] + sum_from(heights, from + 1)
    }
}

/// Height of what the first `n` lines put into a view that is scrolled by
/// `scroll` layout lines: the sum of the heights of their layout lines
/// behind the first `scroll`.
pub open spec fn height_in_view(lines: Seq<TextLayoutLine>, n: int, scroll: int) -> int {
    sum_from(flat_heights(lines, n), scroll)
}

/// The least number of lines from `from` on whose layout lines behind the
/// first `scroll` are higher than `height`; the number of all lines if
/// there is none.
pub open spec fn view_reach_from(lines: Seq<TextLayoutLine>, scroll: int, height: int, from: int) -> int
    decreases lines.len() - from,
{
    if from >= lines.len() || height_in_view(lines, from, scroll) > height {
        from
    } else {
        view_reach_from(lines, scroll, height, from + 1)
    }
}

/// The scroll offset as a number of layout lines above the view: a
/// negative offset counts as none.
pub open spec fn lines_above(scroll: int) -> int {
    if scroll > 0 {
        scroll
    } else {
        0
    }
}

/// Number of leading lines that have to be laid out to fill a view of the
/// height `height` that is scrolled by `scroll`: the least number of lines
/// whose layout lines behind the first `scroll` reach below the view, or
/// all lines. The layout lines in view are among those of these lines.
pub open spec fn view_reach(lines: Seq<TextLayoutLine>, scroll: int, height: int) -> int {
    view_reach_from(lines, lines_above(scroll), height, 0)
}

/// A count of layout lines as it is held while lines are walked: kept
/// within the range of `i64`.
pub open spec fn capped_wide(count: int) -> int {
    if count > i64::MAX {
        i64::MAX as int
    } else {
        count
    }
}

/// Height of the layout lines from number `s` to number `t`, both
/// counted in.
pub open spec fn span_height(heights: Seq<int>, s: int, t: int) -> int {
    sum_from(heights, s) - sum_from(heights, t + 1)
}

/// The scroll offset, found from `s` upwards, that brings layout line `t`
/// to the bottom of a view of the height `height`: the least offset, not
/// below `scroll` and not below 0, from which all layout lines down to `t`
/// fit into the view together. If the line alone does not fit, it is `t`.
pub open spec fn scroll_down_from(heights: Seq<int>, scroll: int, t: int, height: int, s: int) -> int
    decreases s - scroll,
{
    if s <= scroll || s <= 0 || span_height(heights, s - 1, t) > height {
        s
    } else {
        scroll_down_from(heights, scroll, t, height, s - 1)
    }
}

/// What holds of the scroll offset found: it lies between `scroll` and
/// `t`; the layout lines from it down to `t` fit into the view, unless it
/// is `t` itself; and one layout line more on top would not fit, unless
/// the offset is `scroll` or 0.
pub proof fn scroll_down_is_least(heights: Seq<int>, scroll: int, t: int, height: int, s: int)
    requires
        scroll <= s <= t < heights.len(),
        0 <= s,
        s == t || span_height(heights, s, t) <= height,
    ensures
        ({
            let found = scroll_down_from(heights, scroll, t, height, s);
            &&& scroll <= found <= s
            &&& 0 <= found
            &&& found == t || span_height(heights, found, t) <= height
            &&& found <= scroll || found <= 0 || span_height(heights, found - 1, t) > height
        }),
    decreases s - scroll,
{
    if s <= scroll || s <= 0 || span_height(heights, s - 1, t) > height {
    } else {
        scroll_down_is_least(heights, scroll, t, height, s - 1);
    }
}

/// The height of layout line `q` of line `p` stands in the list of all
/// heights at the number of that layout line.
pub proof fn flat_heights_index(lines: Seq<TextLayoutLine>, n: int, p: int, q: int)
    requires
        0 <= p < n <= lines.len(),
        0 <= q < line_heights(lines[p]).len(),
    ensures
        0 <= layout_count(lines, p) + q < flat_heights(lines, n).len(),
        flat_heights(lines, n)[layout_count(lines, p) + q] == line_heights(lines[p])[q],
    decreases n,
{
    flat_heights_count(lines, n - 1);
    flat_heights_count(lines, p);
    if p < n - 1 {
        flat_heights_index(lines, n - 1, p, q);
    }
}

/// There are as many heights as there are cached layout lines.
pub proof fn flat_heights_count(lines: Seq<TextLayoutLine>, n: int)
    ensures
        flat_heights(lines, n).len() == layout_count(lines, n),
        forall|j: int| 0 <= j < flat_heights(lines, n).len() ==> 0 <= #[trigger] flat_heights(lines, n)[j],
    decreases n,
{
    if n > 0 {
        flat_heights_count(lines, n - 1);
    }
}

/// The heights of the first `n` lines depend on the layouts of those lines only.
pub proof fn flat_heights_agree(a: Seq<TextLayoutLine>, b: Seq<TextLayoutLine>, n: int)
    requires
        n <= a.len(),
        n <= b.len(),
        forall|i: int| 0 <= i < n ==> (#[trigger] a[i]).layout_cache() == b[i].layout_cache(),
    ensures
        flat_heights(a, n) == flat_heights(b, n),
    decreases n,
{
    if n > 0 {
        flat_heights_agree(a, b, n - 1);
    }
}

/// Heights that are not negative have no negative sum.
pub proof fn sum_from_not_negative(heights: Seq<int>, from: int)
    requires
        forall|j: int| 0 <= j < heights.len() ==> 0 <= #[trigger] heights[j],
    ensures
        0 <= sum_from(heights, from),
    decreases heights.len() - from,
{
    if from >= heights.len() {
    } else if from < 0 {
        sum_from_not_negative(heights, 0);
    } else {
        sum_from_not_negative(heights, from + 1);
    }
}

/// The sum over two lists of heights, one behind the other, is the sum
/// over the first and the sum over the second, counted from where the
/// first ends.
pub proof fn sum_from_append(a: Seq<int>, b: Seq<int>, from: int)
    requires
        0 <= from,
    ensures
        sum_from(a + b, from) == sum_from(a, from) + sum_from(b, from - a.len()),
    decreases (a + b).len() - from,
{
    let ab = a + b;
    if from >= ab.len() {
    } else {
        sum_from_append(a, b, from + 1);
        if from < a.len() {
            assert(ab[from] == a[from]);
            assert(sum_from(b, from - a.len()) == sum_from(b, 0));
            if from + 1 < a.len() {
                assert(sum_from(b, from + 1 - a.len()) == sum_from(b, 0));
            }
        } else {
            assert(ab[from] == b[from - a.len()]);
        }
    }
}

/// What one more line puts into the view: the heights of its layout lines
/// behind those that are still scrolled past.
pub proof fn height_in_view_step(lines: Seq<TextLayoutLine>, n: int, scroll: int)
    requires
        0 <= n < lines.len(),
        0 <= scroll,
    ensures
        height_in_view(lines, n + 1, scroll) == height_in_view(lines, n, scroll) + sum_from(
            line_heights(lines[n]),
            scroll - layout_count(lines, n),
        ),
        0 <= height_in_view(lines, n, scroll) <= height_in_view(lines, n + 1, scroll),
{
    flat_heights_count(lines, n);
    flat_heights_count(lines, n + 1);
    sum_from_append(flat_heights(lines, n), line_heights(lines[n]), scroll);
    sum_from_not_negative(flat_heights(lines, n), scroll);
    assert forall|j: int| 0 <= j < line_heights(lines[n]).len() implies 0 <= #[trigger] line_heights(
        lines[n],
    )[j] by {}
    sum_from_not_negative(line_heights(lines[n]), scroll - layout_count(lines, n));
}

/// What holds of the reach of a view: it is a number of lines, fewer
/// lines do not fill the view, and it fills the view unless it is the
/// number of all lines.
pub proof fn view_reach_is_least(lines: Seq<TextLayoutLine>, scroll: int, height: int, from: int)
    requires
        0 <= from <= lines.len(),
        forall|j: int| 0 <= j < from ==> height_in_view(lines, j, scroll) <= height,
    ensures
        from <= view_reach_from(lines, scroll, height, from) <= lines.len(),
        forall|j: int|
            0 <= j < view_reach_from(lines, scroll, height, from) ==> height_in_view(
                lines,
                j,
                scroll,
            ) <= height,
        view_reach_from(lines, scroll, height, from) == lines.len() || height_in_view(
            lines,
            view_reach_from(lines, scroll, height, from),
            scroll,
        ) > height,
    decreases lines.len() - from,
{
    if from >= lines.len() || height_in_view(lines, from, scroll) > height {
    } else {
        view_reach_is_least(lines, scroll, height, from + 1);
    }
}

/// A number of lines that is the least to fill the view, or is the number
/// of all lines while fewer do not fill it, is the reach of the view.
pub proof fn view_reach_unique(lines: Seq<TextLayoutLine>, scroll: int, height: int, k: int)
    requires
        0 <= k <= lines.len(),
        forall|j: int| 0 <= j < k ==> height_in_view(lines, j, scroll) <= height,
        k == lines.len() || height_in_view(lines, k, scroll) > height,
    ensures
        view_reach_from(lines, scroll, height, 0) == k,
{
    view_reach_is_least(lines, scroll, height, 0);
    let n = view_reach_from(lines, scroll, height, 0);
    if n < k {
        assert(height_in_view(lines, n, scroll) <= height);
    } else if k < n {
        assert(height_in_view(lines, k, scroll) <= height);
    }
}

/// Adds to `filled` the heights of the layout lines of `layout` from index
/// `skip` on, as far as the sum stays within `height`; a result above
/// `height` tells that the whole sum lies above it.
pub fn add_line_heights(layout: &Vec<LayoutLine>, skip: usize, filled: i64, height: i32) -> (sum: i64)
    requires
        0 <= filled <= height,
    ensures
        0 <= sum <= height + 0x2_0000_0000,
        sum <= height ==> sum == filled + sum_from(heights_of(layout@), skip as int),
        sum > height ==> filled + sum_from(heights_of(layout@), skip as int) > height,
{
    let ghost heights = heights_of(layout@);
    if skip >= layout.len() {
        return filled;
    }
    let mut acc: i64 = filled;
    let mut j: usize = skip;
    while j < layout.len()
        invariant
            skip <= j <= layout.len(),
            heights == heights_of(layout@),
            0 <= acc <= height,
            acc + sum_from(heights, j as int) == filled + sum_from(heights, skip as int),
        decreases layout.len() - j,
    {
        let line = &layout[j];
        let next: i64 = acc + line.line_ascent as i64 + line.line_descent as i64;
        proof {
            assert(heights[j as int] == line.height());
            assert forall|i: int| 0 <= i < heights.len() implies 0 <= #[trigger] heights[i] by {}
            sum_from_not_negative(heights, j + 1);
        }
        if next > height as i64 {
            return next;
        }
        acc = next;
        j += 1;
    }
    acc
}

} // verus!
