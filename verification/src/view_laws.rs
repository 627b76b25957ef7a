//! The runs in view need no line beyond the reach of the view.

use vstd::prelude::*;
use crate::buffer::{layout_count, TextLayoutView};
use crate::layout::{LineState, TextLayoutLine};
use crate::runs::{run_at, visible_from, visible_runs};
use crate::view_reach::{
    flat_heights, flat_heights_count, flat_heights_index, height_in_view, lines_above, sum_from,
    view_reach, view_reach_is_least,
};

verus! {

/// Height of the layout lines of the first `k` lines from layout line
/// `layout_i` of line `line_i` on, behind the first `skip` of them.
pub open spec fn height_ahead(lines: Seq<TextLayoutLine>, k: int, line_i: int, layout_i: int, skip: int) -> int
    decreases k - line_i, lines[line_i].layout_len() - layout_i,
{
    if line_i < 0 || layout_i < 0 || line_i >= k || line_i >= lines.len() {
        0
    } else if layout_i >= lines[line_i].layout_len() {
        height_ahead(lines, k, line_i + 1, 0, skip)
    } else if skip > 0 {
        height_ahead(lines, k, line_i, layout_i + 1, skip - 1)
    } else {
        lines[line_i].layout_cache()->0@[layout_i].height() + height_ahead(
            lines,
            k,
            line_i,
            layout_i + 1,
            0,
        )
    }
}

/// The height ahead is the sum of the heights from the number of the
/// layout line on, behind those skipped.
proof fn height_ahead_is_sum(lines: Seq<TextLayoutLine>, k: int, line_i: int, layout_i: int, skip: int)
    requires
        0 <= line_i <= k <= lines.len(),
        0 <= layout_i,
        0 <= skip,
        line_i < k ==> layout_i <= lines[line_i].layout_len(),
        line_i == k ==> layout_i == 0,
    ensures
        height_ahead(lines, k, line_i, layout_i, skip) == sum_from(
            flat_heights(lines, k),
            layout_count(lines, line_i) + layout_i + skip,
        ),
    decreases k - line_i, lines[line_i].layout_len() - layout_i,
{
    flat_heights_count(lines, k);
    if line_i >= k {
    } else if layout_i >= lines[line_i].layout_len() {
        height_ahead_is_sum(lines, k, line_i + 1, 0, skip);
    } else if skip > 0 {
        height_ahead_is_sum(lines, k, line_i, layout_i + 1, skip - 1);
    } else {
        height_ahead_is_sum(lines, k, line_i, layout_i + 1, 0);
        flat_heights_index(lines, k, line_i, layout_i);
    }
}

/// Below the height of the view there is no run.
proof fn nothing_below_the_view(buffer: TextLayoutView, line_i: int, layout_i: int, y: int)
    requires
        y > buffer.height,
    ensures
        visible_from(buffer, line_i, layout_i, 0, y).len() == 0,
    decreases buffer.lines.len() - line_i, buffer.lines[line_i].layout_len() - layout_i,
{
    if line_i < 0 || layout_i < 0 || line_i >= buffer.lines.len() {
    } else if buffer.lines[line_i].state() != LineState::Wrapped {
    } else if layout_i >= buffer.lines[line_i].layout_len() {
        nothing_below_the_view(buffer, line_i + 1, 0, y);
    } else {
    }
}

/// Two buffers that agree in their first `k` lines show the same runs from
/// a place on, if the view is filled within those lines or they are all
/// the lines.
proof fn visible_from_agrees(
    a: TextLayoutView,
    b: TextLayoutView,
    k: int,
    line_i: int,
    layout_i: int,
    skip: int,
    y: int,
)
    requires
        a.height == b.height,
        a.height >= 0,
        a.lines.len() == b.lines.len(),
        0 <= k <= a.lines.len(),
        forall|i: int| 0 <= i < k ==> #[trigger] a.lines[i] == b.lines[i],
        0 <= y,
        0 <= skip,
        skip > 0 ==> y == 0,
        k == a.lines.len() || y + height_ahead(a.lines, k, line_i, layout_i, skip) > a.height,
    ensures
        visible_from(a, line_i, layout_i, skip, y) == visible_from(b, line_i, layout_i, skip, y),
    decreases a.lines.len() - line_i, a.lines[line_i].layout_len() - layout_i,
{
    if line_i < 0 || layout_i < 0 || line_i >= a.lines.len() {
    } else if line_i >= k {
        assert(y > a.height);
        nothing_below_the_view(a, line_i, layout_i, y);
        nothing_below_the_view(b, line_i, layout_i, y);
        assert(visible_from(a, line_i, layout_i, skip, y) =~= visible_from(
            b,
            line_i,
            layout_i,
            skip,
            y,
        ));
    } else {
        assert(a.lines[line_i] == b.lines[line_i]);
        if a.lines[line_i].state() != LineState::Wrapped {
        } else if layout_i >= a.lines[line_i].layout_len() {
            visible_from_agrees(a, b, k, line_i + 1, 0, skip, y);
        } else if skip > 0 {
            visible_from_agrees(a, b, k, line_i, layout_i + 1, skip - 1, y);
        } else {
            let bottom = y + a.lines[line_i].layout_cache()->0@[layout_i].height();
            if bottom <= a.height {
                visible_from_agrees(a, b, k, line_i, layout_i + 1, 0, bottom);
                assert(run_at(a.lines, line_i, layout_i, bottom) == run_at(
                    b.lines,
                    line_i,
                    layout_i,
                    bottom,
                ));
            }
        }
    }
}

/// The runs in view need no line beyond the reach of the view: two
/// buffers with the same height and scroll offset that agree in the lines
/// within the reach of the view show the same runs, whatever the lines
/// beyond the reach hold. So a view whose lines are laid out up to its
/// reach shows what it would show with every line laid out.
pub proof fn view_needs_only_its_reach(a: TextLayoutView, b: TextLayoutView)
    requires
        a.height == b.height,
        a.height >= 0,
        a.scroll == b.scroll,
        a.lines.len() == b.lines.len(),
        forall|i: int|
            0 <= i < view_reach(a.lines, a.scroll as int, a.height as int) ==> #[trigger] a.lines[i]
                == b.lines[i],
    ensures
        visible_runs(a) == visible_runs(b),
{
    let scroll = lines_above(a.scroll as int);
    let k = view_reach(a.lines, a.scroll as int, a.height as int);
    view_reach_is_least(a.lines, scroll, a.height as int, 0);
    if k < a.lines.len() {
        height_ahead_is_sum(a.lines, k, 0, 0, scroll);
        assert(layout_count(a.lines, 0) == 0);
        assert(height_in_view(a.lines, k, scroll) > a.height);
    }
    visible_from_agrees(a, b, k, 0, 0, scroll, 0);
}

} // verus!
