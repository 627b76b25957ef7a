//! From a position in the text to a point in the view, and the part of a
//! run that a selection covers.

use vstd::prelude::*;
use crate::buffer::TextLayout;
use crate::cursor::Cursor;
use crate::geometry::Point;
use crate::hit::{cursor_from_glyph_left, cursor_from_glyph_right, cursor_left_of, cursor_right_of};
use crate::layout::LayoutGlyph;
use crate::runs::{run_views, visible_runs, LayoutRun, LayoutRunView};

verus! {

/// The point in the view at which a position in the text is drawn.
#[derive(Clone, Copy, Debug, PartialEq, Eq, Structural)]
pub struct HitPosition {
    /// Index of the run among the runs in view.
    pub line: usize,
    /// The point: the left edge of the glyph, one unit above the baseline
    /// of the run, so that the point lies in the band of the run.
    pub point: Point,
    pub glyph_ascent: u32,
    pub glyph_descent: u32,
}

/// The position that stands for no glyph: the origin of the first run.
pub open spec fn origin() -> HitPosition {
    HitPosition { line: 0, point: Point { x: 0, y: 0 }, glyph_ascent: 0, glyph_descent: 0 }
}

/// `a + b`, kept within the range of `usize`.
pub open spec fn add_capped(a: usize, b: int) -> usize {
    if a + b > usize::MAX {
        usize::MAX
    } else {
        (a + b) as usize
    }
}

/// What a search by offset knows after the glyphs it has passed.
pub struct OffsetScan {
    /// Line of the last run that started a new line.
    pub last_line: usize,
    /// End of the last glyph passed.
    pub last_end: usize,
    /// Offset in the text at which the line of the present run starts:
    /// every line passed counts up to the end of its last glyph, and one
    /// byte more for the line break.
    pub offset: usize,
    /// Width of the last glyph passed.
    pub last_width: u32,
    /// Position of the last glyph passed.
    pub last: HitPosition,
}

/// The search by offset before the first glyph.
pub open spec fn offset_scan_start() -> OffsetScan {
    OffsetScan { last_line: 0, last_end: 0, offset: 0, last_width: 0, last: origin() }
}

/// The search at the start of `run`: a run of a later line moves the offset
/// behind the line passed.
pub open spec fn offset_scan_enter(scan: OffsetScan, run: LayoutRunView) -> OffsetScan {
    if run.line_i > scan.last_line {
        OffsetScan {
            last_line: run.line_i,
            offset: add_capped(scan.offset, scan.last_end + 1),
            ..scan
        }
    } else {
        scan
    }
}

/// `position` moved to the right by `width`.
pub open spec fn right_of(position: HitPosition, width: u32) -> HitPosition {
    HitPosition {
        point: Point { x: (position.point.x + width) as i64, y: position.point.y },
        ..position
    }
}

/// The height at which positions of a run with the baseline `line_y` are
/// given: one unit above the baseline, which is the lowest height of the
/// band of the run. The baseline itself belongs to what lies below.
pub open spec fn height_in_band(line_y: int) -> i64 {
    if line_y > i64::MIN {
        (line_y - 1) as i64
    } else {
        line_y as i64
    }
}

/// The position of `glyph` in run `run_i`: its left edge, in the band of
/// the run.
pub open spec fn position_of(run_i: int, run: LayoutRunView, glyph: LayoutGlyph) -> HitPosition {
    HitPosition {
        line: run_i as usize,
        point: Point { x: glyph.x as i64, y: height_in_band(run.line_y) },
        glyph_ascent: run.glyph_ascent,
        glyph_descent: run.glyph_descent,
    }
}

/// The outcome of passing the glyphs of a run: the position found, or the
/// search to go on with.
pub enum Scanned<S> {
    Found(HitPosition),
    Onward(S),
}

/// The search by offset through the glyphs of run `run_i` from glyph `g`
/// on. A glyph that starts behind `idx` ends the search at the right edge
/// of the glyph passed before it; a glyph that holds `idx` is the position.
pub open spec fn offset_scan_glyphs(
    scan: OffsetScan,
    run_i: int,
    run: LayoutRunView,
    idx: usize,
    g: int,
) -> Scanned<OffsetScan>
    decreases run.glyphs.len() - g,
{
    if g < 0 || g >= run.glyphs.len() {
        Scanned::Onward(scan)
    } else {
        let glyph = run.glyphs[g];
        if glyph.start + scan.offset > idx {
            Scanned::Found(right_of(scan.last, scan.last_width))
        } else if idx < glyph.end + scan.offset {
            Scanned::Found(position_of(run_i, run, glyph))
        } else {
            offset_scan_glyphs(
                OffsetScan {
                    last_end: glyph.end,
                    last_width: glyph.w,
                    last: position_of(run_i, run, glyph),
                    ..scan
                },
                run_i,
                run,
                idx,
                g + 1,
            )
        }
    }
}

/// The search by offset through the runs from run `i` on. Behind the last
/// glyph, an offset above 0 lies at the right edge of the last glyph; the
/// offset 0 lies at the origin.
pub open spec fn offset_scan_runs(runs: Seq<LayoutRunView>, idx: usize, scan: OffsetScan, i: int) -> HitPosition
    decreases runs.len() - i,
{
    if i < 0 || i >= runs.len() {
        if idx > 0 {
            right_of(scan.last, scan.last_width)
        } else {
            origin()
        }
    } else {
        match offset_scan_glyphs(offset_scan_enter(scan, runs[i]), i, runs[i], idx, 0) {
            Scanned::Found(position) => position,
            Scanned::Onward(next) => offset_scan_runs(runs, idx, next, i + 1),
        }
    }
}

/// The point at which the offset `idx` of the text in view is drawn.
pub open spec fn position_of_offset(runs: Seq<LayoutRunView>, idx: usize) -> HitPosition {
    offset_scan_runs(runs, idx, offset_scan_start(), 0)
}

/// What a search by line and column knows after the glyphs it has passed.
pub struct ColumnScan {
    /// The last glyph passed.
    pub last_glyph: Option<LayoutGlyph>,
    /// Index of the last run passed.
    pub last_line: usize,
    /// Height of the positions of the last run passed.
    pub last_line_y: i64,
    pub last_glyph_ascent: u32,
    pub last_glyph_descent: u32,
}

/// The search by line and column before the first glyph.
pub open spec fn column_scan_start() -> ColumnScan {
    ColumnScan {
        last_glyph: None,
        last_line: 0,
        last_line_y: 0,
        last_glyph_ascent: 0,
        last_glyph_descent: 0,
    }
}

/// The position at the end of what a search has passed: the right edge of
/// the last glyph, in the band of the last run that was passed whole.
pub open spec fn column_scan_end(scan: ColumnScan) -> HitPosition {
    HitPosition {
        line: scan.last_line,
        point: Point {
            x: match scan.last_glyph {
                Some(glyph) => (glyph.x + glyph.w) as i64,
                None => 0,
            },
            y: scan.last_line_y,
        },
        glyph_ascent: scan.last_glyph_ascent,
        glyph_descent: scan.last_glyph_descent,
    }
}

/// The search by line and column through the glyphs of run `run_i` from
/// glyph `g` on. In a run of the line sought, a glyph that starts behind
/// the column ends the search at the end of what was passed, and a glyph
/// that holds the column is the position. A glyph of a later line ends the
/// search at the end of what was passed.
pub open spec fn column_scan_glyphs(
    scan: ColumnScan,
    run_i: int,
    run: LayoutRunView,
    line: usize,
    col: usize,
    g: int,
) -> Scanned<ColumnScan>
    decreases run.glyphs.len() - g,
{
    if g < 0 || g >= run.glyphs.len() {
        Scanned::Onward(scan)
    } else {
        let glyph = run.glyphs[g];
        if line == run.line_i && glyph.start > col {
            Scanned::Found(column_scan_end(scan))
        } else if line == run.line_i && col < glyph.end {
            Scanned::Found(position_of(run_i, run, glyph))
        } else if line != run.line_i && run.line_i > line {
            Scanned::Found(column_scan_end(scan))
        } else {
            column_scan_glyphs(
                ColumnScan { last_glyph: Some(glyph), ..scan },
                run_i,
                run,
                line,
                col,
                g + 1,
            )
        }
    }
}

/// The search by line and column through the runs from run `i` on.
pub open spec fn column_scan_runs(
    runs: Seq<LayoutRunView>,
    line: usize,
    col: usize,
    scan: ColumnScan,
    i: int,
) -> HitPosition
    decreases runs.len() - i,
{
    if i < 0 || i >= runs.len() {
        column_scan_end(scan)
    } else {
        match column_scan_glyphs(scan, i, runs[i], line, col, 0) {
            Scanned::Found(position) => position,
            Scanned::Onward(next) => column_scan_runs(
                runs,
                line,
                col,
                ColumnScan {
                    last_line: i as usize,
                    last_line_y: height_in_band(runs[i].line_y),
                    last_glyph_ascent: runs[i].glyph_ascent,
                    last_glyph_descent: runs[i].glyph_descent,
                    ..next
                },
                i + 1,
            ),
        }
    }
}

/// The point at which column `col` of line `line` is drawn.
pub open spec fn position_of_column(runs: Seq<LayoutRunView>, line: usize, col: usize) -> HitPosition {
    column_scan_runs(runs, line, col, column_scan_start(), 0)
}

/// Horizontal place of the cursor on the left side of `glyph`, as a
/// selection is drawn: the left edge of the glyph in a run that reads left
/// to right, the right edge in a run that reads right to left.
pub open spec fn left_boundary_x(rtl: bool, glyph: LayoutGlyph) -> int {
    if rtl {
        glyph.x + glyph.w
    } else {
        glyph.x as int
    }
}

/// Horizontal place of the cursor on the right side of `glyph`, as a
/// selection is drawn: the other edge than for the left side.
pub open spec fn right_boundary_x(rtl: bool, glyph: LayoutGlyph) -> int {
    if rtl {
        glyph.x as int
    } else {
        glyph.x + glyph.w
    }
}

/// The lesser of two places, of which either may be missing.
pub open spec fn lesser(a: Option<int>, b: Option<int>) -> Option<int> {
    match (a, b) {
        (Some(a), Some(b)) => if b < a {
            Some(b)
        } else {
            Some(a)
        },
        (Some(a), None) => Some(a),
        (None, b) => b,
    }
}

/// The greater of two places, of which either may be missing.
pub open spec fn greater(a: Option<int>, b: Option<int>) -> Option<int> {
    match (a, b) {
        (Some(a), Some(b)) => if b > a {
            Some(b)
        } else {
            Some(a)
        },
        (Some(a), None) => Some(a),
        (None, b) => b,
    }
}

/// Place of the cursor on the left side of `glyph`, if that cursor lies in
/// the selection from `start` to `end`.
pub open spec fn selected_left_x(run: LayoutRunView, glyph: LayoutGlyph, start: Cursor, end: Cursor) -> Option<
    int,
> {
    if cursor_left_of(run.line_i, run.rtl, glyph).within(start, end) {
        Some(left_boundary_x(run.rtl, glyph))
    } else {
        None
    }
}

/// Place of the cursor on the right side of `glyph`, if that cursor lies
/// in the selection from `start` to `end`.
pub open spec fn selected_right_x(run: LayoutRunView, glyph: LayoutGlyph, start: Cursor, end: Cursor) -> Option<
    int,
> {
    if cursor_right_of(run.line_i, run.rtl, glyph).within(start, end) {
        Some(right_boundary_x(run.rtl, glyph))
    } else {
        None
    }
}

/// The leftmost place of a cursor, among those on both sides of the first
/// `n` glyphs of `run`, that lies in the selection from `start` to `end`.
pub open spec fn leftmost_selected_x(run: LayoutRunView, start: Cursor, end: Cursor, n: int) -> Option<
    int,
>
    decreases n,
{
    if n <= 0 || n > run.glyphs.len() {
        None
    } else {
        lesser(
            lesser(
                leftmost_selected_x(run, start, end, n - 1),
                selected_left_x(run, run.glyphs[n - 1], start, end),
            ),
            selected_right_x(run, run.glyphs[n - 1], start, end),
        )
    }
}

/// The rightmost place of a cursor, among those on both sides of the first
/// `n` glyphs of `run`, that lies in the selection from `start` to `end`.
pub open spec fn rightmost_selected_x(run: LayoutRunView, start: Cursor, end: Cursor, n: int) -> Option<
    int,
>
    decreases n,
{
    if n <= 0 || n > run.glyphs.len() {
        None
    } else {
        greater(
            greater(
                rightmost_selected_x(run, start, end, n - 1),
                selected_left_x(run, run.glyphs[n - 1], start, end),
            ),
            selected_right_x(run, run.glyphs[n - 1], start, end),
        )
    }
}

/// The part of `run` that the selection from `start` to `end` covers: its
/// left edge and its width, from the leftmost to the rightmost cursor of
/// the run that lies in the selection. Nothing if no cursor of the run does.
pub open spec fn highlight_of(run: LayoutRunView, start: Cursor, end: Cursor) -> Option<(int, int)> {
    let n = run.glyphs.len() as int;
    match (leftmost_selected_x(run, start, end, n), rightmost_selected_x(run, start, end, n)) {
        (Some(left), Some(right)) => Some((left, right - left)),
        _ => None,
    }
}

/// The leftmost selected cursor of a run lies no further right than the
/// rightmost, and there is the one if there is the other.
pub proof fn selection_has_both_ends(run: LayoutRunView, start: Cursor, end: Cursor, n: int)
    ensures
        leftmost_selected_x(run, start, end, n) is Some <==> rightmost_selected_x(
            run,
            start,
            end,
            n,
        ) is Some,
        leftmost_selected_x(run, start, end, n) is Some ==> leftmost_selected_x(
            run,
            start,
            end,
            n,
        )->0 <= rightmost_selected_x(run, start, end, n)->0,
    decreases n,
{
    if n <= 0 || n > run.glyphs.len() {
    } else {
        selection_has_both_ends(run, start, end, n - 1);
    }
}

impl<'a> LayoutRun<'a> {
    /// The part of the run that the selection from `cursor_start` to
    /// `cursor_end` covers, as left edge and width; nothing if the run has
    /// no part in the selection.
    pub fn highlight(&self, cursor_start: Cursor, cursor_end: Cursor) -> (span: Option<(i64, i64)>)
        ensures
            match span {
                Some(span) => highlight_of(self@, cursor_start, cursor_end) == Some(
                    (span.0 as int, span.1 as int),
                ) && span.1 >= 0,
                None => highlight_of(self@, cursor_start, cursor_end) is None,
            },
    {
        let mut x_start: Option<i64> = None;
        let mut x_end: Option<i64> = None;
        let glyphs = self.glyphs;
        let mut i: usize = 0;
        while i < glyphs.len()
            invariant
                i <= glyphs.len(),
                glyphs@ == self@.glyphs,
                match x_start {
                    Some(x) => leftmost_selected_x(self@, cursor_start, cursor_end, i as int)
                        == Some(x as int),
                    None => leftmost_selected_x(self@, cursor_start, cursor_end, i as int) is None,
                },
                match x_end {
                    Some(x) => rightmost_selected_x(self@, cursor_start, cursor_end, i as int)
                        == Some(x as int),
                    None => rightmost_selected_x(self@, cursor_start, cursor_end, i as int) is None,
                },
                x_start is Some ==> -0x8000_0000 <= x_start->0 <= 0x1_8000_0000,
                x_end is Some ==> -0x8000_0000 <= x_end->0 <= 0x1_8000_0000,
            decreases glyphs.len() - i,
        {
            let glyph = &glyphs[i];
            let left_x: i64 = if self.rtl {
                glyph.x as i64 + glyph.w as i64
            } else {
                glyph.x as i64
            };
            let right_x: i64 = if self.rtl {
                glyph.x as i64
            } else {
                glyph.x as i64 + glyph.w as i64
            };
            let cursor = cursor_from_glyph_left(self, glyph);
            if cursor_start.at_most(&cursor) && cursor.at_most(&cursor_end) {
                x_start = Some(lower(x_start, left_x));
                x_end = Some(higher(x_end, left_x));
            }
            let cursor = cursor_from_glyph_right(self, glyph);
            if cursor_start.at_most(&cursor) && cursor.at_most(&cursor_end) {
                x_start = Some(lower(x_start, right_x));
                x_end = Some(higher(x_end, right_x));
            }
            i += 1;
        }
        proof {
            selection_has_both_ends(self@, cursor_start, cursor_end, glyphs@.len() as int);
        }
        match (x_start, x_end) {
            (Some(left), Some(right)) => Some((left, right - left)),
            _ => None,
        }
    }
}

/// The lesser of a place that may be missing and a place.
fn lower(a: Option<i64>, b: i64) -> (x: i64)
    ensures
        Some(x as int) == lesser(
            match a {
                Some(a) => Some(a as int),
                None => None,
            },
            Some(b as int),
        ),
{
    match a {
        Some(a) => if b < a {
            b
        } else {
            a
        },
        None => b,
    }
}

/// The greater of a place that may be missing and a place.
fn higher(a: Option<i64>, b: i64) -> (x: i64)
    ensures
        Some(x as int) == greater(
            match a {
                Some(a) => Some(a as int),
                None => None,
            },
            Some(b as int),
        ),
{
    match a {
        Some(a) => if b > a {
            b
        } else {
            a
        },
        None => b,
    }
}

/// The height at which positions of a run are given.
fn band_height(line_y: i64) -> (y: i64)
    ensures
        y == height_in_band(line_y as int),
{
    if line_y > i64::MIN {
        line_y - 1
    } else {
        line_y
    }
}

/// Finds the point at which the offset `idx` of the text in view is drawn.
pub fn offset_position(runs: &Vec<LayoutRun>, idx: usize) -> (position: HitPosition)
    ensures
        position == position_of_offset(run_views(runs@), idx),
{
    let ghost views = run_views(runs@);
    let mut last_line: usize = 0;
    let mut last_end: usize = 0;
    let mut offset: usize = 0;
    let mut last_width: u32 = 0;
    let mut last = HitPosition {
        line: 0,
        point: Point { x: 0, y: 0 },
        glyph_ascent: 0,
        glyph_descent: 0,
    };
    let mut i: usize = 0;
    while i < runs.len()
        invariant
            i <= runs.len(),
            views == run_views(runs@),
            -0x8000_0000 <= last.point.x <= 0x7fff_ffff,
            position_of_offset(views, idx) == offset_scan_runs(
                views,
                idx,
                OffsetScan { last_line, last_end, offset, last_width, last },
                i as int,
            ),
        decreases runs.len() - i,
    {
        let run = &runs[i];
        proof {
            assert(views[i as int] == run@);
        }
        if run.line_i > last_line {
            last_line = run.line_i;
            offset = if last_end == usize::MAX || offset > usize::MAX - (last_end + 1) {
                usize::MAX
            } else {
                offset + (last_end + 1)
            };
        }
        let ghost entered = OffsetScan { last_line, last_end, offset, last_width, last };
        let glyphs = run.glyphs;
        let mut g: usize = 0;
        while g < glyphs.len()
            invariant
                g <= glyphs.len(),
                i < runs.len(),
                views == run_views(runs@),
                views[i as int] == run@,
                glyphs@ == run@.glyphs,
                -0x8000_0000 <= last.point.x <= 0x7fff_ffff,
                offset_scan_glyphs(entered, i as int, run@, idx, 0) == offset_scan_glyphs(
                    OffsetScan { last_line, last_end, offset, last_width, last },
                    i as int,
                    run@,
                    idx,
                    g as int,
                ),
                position_of_offset(views, idx) == (match offset_scan_glyphs(
                    entered,
                    i as int,
                    run@,
                    idx,
                    0,
                ) {
                    Scanned::Found(position) => position,
                    Scanned::Onward(next) => offset_scan_runs(views, idx, next, i + 1),
                }),
            decreases glyphs.len() - g,
        {
            let glyph = &glyphs[g];
            if glyph.start as u128 + offset as u128 > idx as u128 {
                last.point.x = last.point.x + last_width as i64;
                return last;
            }
            let here = HitPosition {
                line: i,
                point: Point { x: glyph.x as i64, y: band_height(run.line_y) },
                glyph_ascent: run.glyph_ascent,
                glyph_descent: run.glyph_descent,
            };
            if (idx as u128) < glyph.end as u128 + offset as u128 {
                return here;
            }
            last_end = glyph.end;
            last_width = glyph.w;
            last = here;
            g += 1;
        }
        i += 1;
    }
    if idx > 0 {
        last.point.x = last.point.x + last_width as i64;
        return last;
    }
    HitPosition { line: 0, point: Point { x: 0, y: 0 }, glyph_ascent: 0, glyph_descent: 0 }
}

/// Finds the point at which column `col` of line `line` is drawn.
pub fn column_position(runs: &Vec<LayoutRun>, line: usize, col: usize) -> (position: HitPosition)
    ensures
        position == position_of_column(run_views(runs@), line, col),
{
    let ghost views = run_views(runs@);
    let mut last_glyph: Option<LayoutGlyph> = None;
    let mut last_line: usize = 0;
    let mut last_line_y: i64 = 0;
    let mut last_glyph_ascent: u32 = 0;
    let mut last_glyph_descent: u32 = 0;
    let mut i: usize = 0;
    while i < runs.len()
        invariant
            i <= runs.len(),
            views == run_views(runs@),
            position_of_column(views, line, col) == column_scan_runs(
                views,
                line,
                col,
                ColumnScan {
                    last_glyph,
                    last_line,
                    last_line_y,
                    last_glyph_ascent,
                    last_glyph_descent,
                },
                i as int,
            ),
        decreases runs.len() - i,
    {
        let run = &runs[i];
        proof {
            assert(views[i as int] == run@);
        }
        let ghost entered = ColumnScan {
            last_glyph,
            last_line,
            last_line_y,
            last_glyph_ascent,
            last_glyph_descent,
        };
        let glyphs = run.glyphs;
        let mut g: usize = 0;
        while g < glyphs.len()
            invariant
                g <= glyphs.len(),
                i < runs.len(),
                views == run_views(runs@),
                views[i as int] == run@,
                glyphs@ == run@.glyphs,
                position_of_column(views, line, col) == (match column_scan_glyphs(
                    entered,
                    i as int,
                    run@,
                    line,
                    col,
                    0,
                ) {
                    Scanned::Found(position) => position,
                    Scanned::Onward(next) => column_scan_runs(
                        views,
                        line,
                        col,
                        ColumnScan {
                            last_line: i,
                            last_line_y: height_in_band(run@.line_y),
                            last_glyph_ascent: run@.glyph_ascent,
                            last_glyph_descent: run@.glyph_descent,
                            ..next
                        },
                        i + 1,
                    ),
                }),
                entered.last_line == last_line,
                entered.last_line_y == last_line_y,
                entered.last_glyph_ascent == last_glyph_ascent,
                entered.last_glyph_descent == last_glyph_descent,
                column_scan_glyphs(entered, i as int, run@, line, col, 0) == column_scan_glyphs(
                    ColumnScan {
                        last_glyph,
                        last_line,
                        last_line_y,
                        last_glyph_ascent,
                        last_glyph_descent,
                    },
                    i as int,
                    run@,
                    line,
                    col,
                    g as int,
                ),
            decreases glyphs.len() - g,
        {
            let glyph = &glyphs[g];
            let end = HitPosition {
                line: last_line,
                point: Point {
                    x: match last_glyph {
                        Some(glyph) => glyph.x as i64 + glyph.w as i64,
                        None => 0,
                    },
                    y: last_line_y,
                },
                glyph_ascent: last_glyph_ascent,
                glyph_descent: last_glyph_descent,
            };
            if line == run.line_i {
                if glyph.start > col {
                    return end;
                }
                if col < glyph.end {
                    return HitPosition {
                        line: i,
                        point: Point { x: glyph.x as i64, y: band_height(run.line_y) },
                        glyph_ascent: run.glyph_ascent,
                        glyph_descent: run.glyph_descent,
                    };
                }
            } else if run.line_i > line {
                return end;
            }
            last_glyph = Some(*glyph);
            g += 1;
        }
        last_line = i;
        last_line_y = band_height(run.line_y);
        last_glyph_ascent = run.glyph_ascent;
        last_glyph_descent = run.glyph_descent;
        i += 1;
    }
    HitPosition {
        line: last_line,
        point: Point {
            x: match last_glyph {
                Some(glyph) => glyph.x as i64 + glyph.w as i64,
                None => 0,
            },
            y: last_line_y,
        },
        glyph_ascent: last_glyph_ascent,
        glyph_descent: last_glyph_descent,
    }
}

impl TextLayout {
    /// The point at which the byte offset `idx` of the text in view is
    /// drawn. Offsets count through the lines in view, each line taking
    /// the bytes up to the end of its last glyph and one line break. An
    /// offset that no glyph holds lies at the right edge of the glyph in
    /// front of it.
    pub fn hit_position(&self, idx: usize) -> (position: HitPosition)
        ensures
            position == position_of_offset(visible_runs(self@), idx),
    {
        let runs = self.runs();
        offset_position(&runs, idx)
    }

    /// The point at which column `col` of line `line` is drawn; the end of
    /// the line if the column lies behind its glyphs.
    pub fn line_col_position(&self, line: usize, col: usize) -> (position: HitPosition)
        ensures
            position == position_of_column(visible_runs(self@), line, col),
    {
        let runs = self.runs();
        column_position(&runs, line, col)
    }
}

} // verus!
