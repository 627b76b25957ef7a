//! From a point in the view to a position in the text.

use vstd::prelude::*;
use crate::buffer::TextLayout;
use crate::cursor::{Affinity, Cursor, HitPoint};
use crate::geometry::Point;
use crate::graphemes::{cluster_graphemes, cluster_len, glyph_graphemes};
use crate::layout::LayoutGlyph;
use crate::runs::{run_views, visible_runs, LayoutRun, LayoutRunView};

verus! {

/// Where a point lands in a run.
#[derive(Clone, Copy, Debug, PartialEq, Eq, Structural)]
pub struct RunHit {
    /// Byte offset in the line.
    pub index: usize,
    pub affinity: Affinity,
    /// Whether the point resolved to a glyph of the run.
    pub is_inside: bool,
}

/// Where a point lands in the view.
#[derive(Clone, Copy, Debug, PartialEq, Eq, Structural)]
pub struct Hit {
    pub cursor: Cursor,
    /// Whether the point fell into the band of a run and resolved to a
    /// glyph of it.
    pub is_inside: bool,
}

/// Whether `x` lies on `glyph`, its left and right edge included.
pub open spec fn glyph_covers(glyph: LayoutGlyph, x: int) -> bool {
    glyph.x <= x <= glyph.x + glyph.w
}

/// Whether `x` lies on `glyph` in front of its right edge: from the left
/// edge, which is included, up to the right edge, which is not.
pub open spec fn glyph_holds(glyph: LayoutGlyph, x: int) -> bool {
    glyph.x <= x < glyph.x + glyph.w
}

/// Index of the first glyph from `from` on that holds `x` in front of its
/// right edge; the number of glyphs if none does.
pub open spec fn glyph_holding_from(glyphs: Seq<LayoutGlyph>, x: int, from: int) -> int
    decreases glyphs.len() - from,
{
    if from < 0 || from >= glyphs.len() {
        glyphs.len() as int
    } else if glyph_holds(glyphs[from], x) {
        from
    } else {
        glyph_holding_from(glyphs, x, from + 1)
    }
}

/// Index of the glyph that takes the point `x`; the number of glyphs if
/// no glyph covers `x`. An edge that two glyphs share belongs to the glyph
/// that starts there: the point goes to the first glyph that holds it in
/// front of its right edge, and only where there is none to the first
/// glyph whose right edge it is.
pub open spec fn glyph_at(glyphs: Seq<LayoutGlyph>, x: int) -> int {
    if glyph_holding_from(glyphs, x, 0) < glyphs.len() {
        glyph_holding_from(glyphs, x, 0)
    } else {
        glyph_at_from(glyphs, x, 0)
    }
}

/// The glyph found to hold a point is the first that does: no glyph in
/// front of it, from `from` on, holds the point, and if no glyph is found,
/// none from `from` on holds it.
pub proof fn glyph_holding_is_first(glyphs: Seq<LayoutGlyph>, x: int, from: int)
    requires
        0 <= from <= glyphs.len(),
    ensures
        from <= glyph_holding_from(glyphs, x, from) <= glyphs.len(),
        glyph_holding_from(glyphs, x, from) < glyphs.len() ==> glyph_holds(
            glyphs[glyph_holding_from(glyphs, x, from)],
            x,
        ),
        forall|j: int|
            from <= j < glyph_holding_from(glyphs, x, from) ==> !glyph_holds(
                #[trigger] glyphs[j],
                x,
            ),
    decreases glyphs.len() - from,
{
    if from < glyphs.len() && !glyph_holds(glyphs[from], x) {
        glyph_holding_is_first(glyphs, x, from + 1);
    }
}

/// A glyph takes a point if and only if some glyph covers the point, its
/// edges included; and the glyph that takes it covers it.
pub proof fn glyph_at_covers(glyphs: Seq<LayoutGlyph>, x: int)
    ensures
        0 <= glyph_at(glyphs, x) <= glyphs.len(),
        glyph_at(glyphs, x) < glyphs.len() ==> glyph_covers(glyphs[glyph_at(glyphs, x)], x),
        glyph_at(glyphs, x) < glyphs.len() <==> exists|j: int|
            0 <= j < glyphs.len() && glyph_covers(#[trigger] glyphs[j], x),
{
    glyph_holding_is_first(glyphs, x, 0);
    glyph_at_is_first(glyphs, x, 0);
    if glyph_at(glyphs, x) < glyphs.len() {
        assert(glyph_covers(glyphs[glyph_at(glyphs, x)], x));
    }
}

/// Index of the first glyph from `from` on that covers `x`, its edges
/// included; the number of glyphs if none does.
pub open spec fn glyph_at_from(glyphs: Seq<LayoutGlyph>, x: int, from: int) -> int
    decreases glyphs.len() - from,
{
    if from < 0 || from >= glyphs.len() {
        glyphs.len() as int
    } else if glyph_covers(glyphs[from], x) {
        from
    } else {
        glyph_at_from(glyphs, x, from + 1)
    }
}

/// The glyph found for a point is the first that covers it: no glyph in
/// front of it, from `from` on, covers the point, and if no glyph is found,
/// none from `from` on covers it.
pub proof fn glyph_at_is_first(glyphs: Seq<LayoutGlyph>, x: int, from: int)
    requires
        0 <= from <= glyphs.len(),
    ensures
        from <= glyph_at_from(glyphs, x, from) <= glyphs.len(),
        glyph_at_from(glyphs, x, from) < glyphs.len() ==> glyph_covers(
            glyphs[glyph_at_from(glyphs, x, from)],
            x,
        ),
        forall|j: int|
            from <= j < glyph_at_from(glyphs, x, from) ==> !glyph_covers(#[trigger] glyphs[j], x),
    decreases glyphs.len() - from,
{
    if from < glyphs.len() && !glyph_covers(glyphs[from], x) {
        glyph_at_is_first(glyphs, x, from + 1);
    }
}

/// Whether part `k` of `glyph` covers `x`, when the width of the glyph is
/// divided evenly into `parts` parts, counted from the left. Both edges of
/// a part belong to it.
pub open spec fn part_covers(glyph: LayoutGlyph, parts: int, k: int, x: int) -> bool {
    k * glyph.w <= (x - glyph.x) * parts <= (k + 1) * glyph.w
}

/// Whether `x` lies on the right half of part `k` of `glyph`, the middle
/// of the part included, when the glyph is divided into `parts` parts.
pub open spec fn on_right_half(glyph: LayoutGlyph, parts: int, k: int, x: int) -> bool {
    2 * parts * (x - glyph.x) >= (2 * k + 1) * glyph.w
}

/// The first part from `from` on that covers `x`, when `glyph` is divided
/// into `parts` parts.
pub open spec fn part_at_from(glyph: LayoutGlyph, parts: int, x: int, from: int) -> Option<int>
    decreases parts - from,
{
    if from < 0 || from >= parts {
        None
    } else if part_covers(glyph, parts, from, x) {
        Some(from)
    } else {
        part_at_from(glyph, parts, x, from + 1)
    }
}

/// The part found for a point is the first that covers it, and a point on
/// a glyph that is divided into parts lies on a part.
pub proof fn part_at_is_first(glyph: LayoutGlyph, parts: int, x: int, from: int)
    requires
        0 <= from,
    ensures
        match part_at_from(glyph, parts, x, from) {
            Some(k) => from <= k < parts && part_covers(glyph, parts, k, x) && forall|j: int|
                from <= j < k ==> !part_covers(glyph, parts, j, x),
            None => forall|j: int| from <= j < parts ==> !part_covers(glyph, parts, j, x),
        },
    decreases parts - from,
{
    if from < parts && !part_covers(glyph, parts, from, x) {
        part_at_is_first(glyph, parts, x, from + 1);
    }
}

/// Where `x` lands in the text of `glyph`: the byte offset from the start
/// of the glyph, and whether the position lies behind what was hit.
/// `graphemes` are the grapheme clusters of the text of the glyph and
/// `len` is its length. The clusters share the width of the glyph evenly,
/// and the point is looked up among their parts; beside all of them it is
/// looked up in the whole glyph. The half on which it lies decides: on the
/// half where reading ends, the position lies behind.
pub open spec fn hit_in_glyph(
    glyph: LayoutGlyph,
    graphemes: Seq<(usize, usize)>,
    len: int,
    x: int,
) -> (int, bool) {
    let parts = graphemes.len() as int;
    match part_at_from(glyph, parts, x, 0) {
        Some(k) => {
            if on_right_half(glyph, parts, k, x) != glyph.rtl() {
                (graphemes[k].0 + graphemes[k].1, true)
            } else {
                (graphemes[k].0 as int, false)
            }
        },
        None => {
            if (2 * (x - glyph.x) >= glyph.w) != glyph.rtl() {
                (len, true)
            } else {
                (0, false)
            }
        },
    }
}

/// A product of numbers that are not negative is not negative and grows
/// with both of them.
proof fn product_is_bounded(a: int, b: int, max_a: int, max_b: int)
    requires
        0 <= a <= max_a,
        0 <= b <= max_b,
    ensures
        0 <= a * b <= max_a * max_b,
{
    assert(0 <= a * b <= max_a * max_b) by (nonlinear_arith)
        requires
            0 <= a <= max_a,
            0 <= b <= max_b,
    ;
}

/// No part of a glyph covers a point beside the glyph.
proof fn no_part_beside_glyph(glyph: LayoutGlyph, parts: int, x: int, from: int)
    requires
        !glyph_covers(glyph, x),
        0 <= from,
    ensures
        part_at_from(glyph, parts, x, from) is None,
    decreases parts - from,
{
    if from < parts {
        let d = x - glyph.x;
        if d < 0 {
            assert(d * parts < 0 <= from * glyph.w) by (nonlinear_arith)
                requires
                    d < 0,
                    parts > 0,
                    from >= 0,
                    glyph.w >= 0,
            ;
        } else {
            assert((from + 1) * glyph.w < d * parts) by (nonlinear_arith)
                requires
                    d > glyph.w,
                    glyph.w >= 0,
                    0 <= from < parts,
            ;
        }
        no_part_beside_glyph(glyph, parts, x, from + 1);
    }
}

/// Where `x` lands in `run`. On the glyph that takes it, the position is
/// found in that glyph, and the point is inside. Beside all glyphs the
/// point is not inside; it resolves to the start of the first glyph if it
/// lies in front of the run in reading direction, and to the end of the
/// last glyph otherwise. A run without glyphs resolves to offset 0.
pub open spec fn hit_in_run(run: LayoutRunView, x: int) -> RunHit {
    let g = glyph_at(run.glyphs, x);
    if g < run.glyphs.len() {
        let glyph = run.glyphs[g];
        let at = hit_in_glyph(
            glyph,
            cluster_graphemes(run.text, glyph.start as int, glyph.end as int),
            cluster_len(run.text, glyph.start as int, glyph.end as int),
            x,
        );
        RunHit {
            index: (glyph.start + at.0) as usize,
            affinity: if at.1 {
                Affinity::Before
            } else {
                Affinity::After
            },
            is_inside: true,
        }
    } else if run.glyphs.len() > 0 && ((run.rtl && x > run.glyphs[0].x) || (!run.rtl && x < 0)) {
        RunHit { index: run.glyphs[0].start, affinity: Affinity::After, is_inside: false }
    } else if run.glyphs.len() > 0 {
        RunHit { index: run.glyphs.last().end, affinity: Affinity::Before, is_inside: false }
    } else {
        RunHit { index: 0, affinity: Affinity::Before, is_inside: false }
    }
}

/// The cursor on the right side of `glyph` in a run of line `line_i`.
pub open spec fn cursor_right_of(line_i: usize, rtl: bool, glyph: LayoutGlyph) -> Cursor {
    if rtl {
        Cursor { line: line_i, index: glyph.start, affinity: Affinity::After }
    } else {
        Cursor { line: line_i, index: glyph.end, affinity: Affinity::Before }
    }
}

/// The cursor on the left side of `glyph` in a run of line `line_i`.
pub open spec fn cursor_left_of(line_i: usize, rtl: bool, glyph: LayoutGlyph) -> Cursor {
    if rtl {
        Cursor { line: line_i, index: glyph.end, affinity: Affinity::Before }
    } else {
        Cursor { line: line_i, index: glyph.start, affinity: Affinity::After }
    }
}

/// The cursor behind the last glyph of `run`; the start of the line for a
/// run without glyphs.
pub open spec fn end_of_run(run: LayoutRunView) -> Cursor {
    if run.glyphs.len() > 0 {
        cursor_right_of(run.line_i, run.rtl, run.glyphs.last())
    } else {
        Cursor { line: run.line_i, index: 0, affinity: Affinity::Before }
    }
}

/// Whether `y` lies in the band of `run`: from the height of the line
/// above its baseline down to the baseline, which is not part of the band.
pub open spec fn in_band(run: LayoutRunView, y: int) -> bool {
    run.line_y - run.line_height <= y < run.line_y
}

/// Where the point `(x, y)` lands, decided over the runs from index `i`
/// on. `found` is what the runs in front of `i` have given, and `first`
/// tells that none of them lay below the point. Run by run: the first run
/// that lies below the point gives the start of its line; a run whose band
/// holds the point gives the position in it, and the search ends; the last
/// run, if its baseline lies above the point, gives its end.
pub open spec fn hit_from(
    runs: Seq<LayoutRunView>,
    x: int,
    y: int,
    i: int,
    first: bool,
    found: Option<Hit>,
) -> Option<Hit>
    decreases runs.len() - i,
{
    if i < 0 || i >= runs.len() {
        found
    } else if first && y < runs[i].line_y - runs[i].line_height {
        hit_from(
            runs,
            x,
            y,
            i + 1,
            false,
            Some(
                Hit {
                    cursor: Cursor { line: runs[i].line_i, index: 0, affinity: Affinity::Before },
                    is_inside: false,
                },
            ),
        )
    } else if in_band(runs[i], y) {
        let at = hit_in_run(runs[i], x);
        Some(
            Hit {
                cursor: Cursor { line: runs[i].line_i, index: at.index, affinity: at.affinity },
                is_inside: at.is_inside,
            },
        )
    } else if i == runs.len() - 1 && y > runs[i].line_y {
        Some(Hit { cursor: end_of_run(runs[i]), is_inside: false })
    } else {
        hit_from(runs, x, y, i + 1, first, found)
    }
}

/// Where the point `(x, y)` lands in the runs of a view; nothing if no run
/// decides it.
pub open spec fn hit_in_runs(runs: Seq<LayoutRunView>, x: int, y: int) -> Option<Hit> {
    hit_from(runs, x, y, 0, true, None)
}

/// The point that a hit stands for: line and offset of the cursor, and
/// line 0, offset 0 where there is no hit.
pub open spec fn hit_point_of(hit: Option<Hit>) -> HitPoint {
    match hit {
        Some(hit) => HitPoint {
            line: hit.cursor.line,
            index: hit.cursor.index,
            is_inside: hit.is_inside,
        },
        None => HitPoint { line: 0, index: 0, is_inside: false },
    }
}

/// Finds where `x` lands in the text of `glyph`.
pub fn hit_glyph(glyph: &LayoutGlyph, graphemes: &Vec<(usize, usize)>, len: usize, x: i64) -> (at: (
    usize,
    bool,
))
    requires
        forall|i: int|
            0 <= i < graphemes@.len() ==> (#[trigger] graphemes@[i]).0 + graphemes@[i].1 <= len,
    ensures
        (at.0 as int, at.1) == hit_in_glyph(*glyph, graphemes@, len as int, x as int),
        at.0 <= len,
{
    let rtl = glyph.is_rtl();
    let total = graphemes.len();
    let left = glyph.x as i64;
    let width = glyph.w as i64;
    if x >= left && x <= left + width {
        let d: i128 = (x - left) as i128;
        let w: i128 = width as i128;
        let parts: i128 = total as i128;
        proof {
            product_is_bounded(d as int, parts as int, 0x1_0000_0000, 0x1_0000_0000_0000_0000);
        }
        let scaled: i128 = d * parts;
        let mut k: usize = 0;
        while k < total
            invariant
                k <= total,
                rtl == glyph.rtl(),
                total == graphemes@.len(),
                parts == total,
                w == glyph.w,
                d == x - glyph.x,
                0 <= d <= w,
                scaled == d * parts,
                0 <= scaled <= 0x1_0000_0000 * 0x1_0000_0000_0000_0000,
                forall|i: int|
                    0 <= i < graphemes@.len() ==> (#[trigger] graphemes@[i]).0 + graphemes@[i].1
                        <= len,
                part_at_from(*glyph, parts as int, x as int, 0) == part_at_from(
                    *glyph,
                    parts as int,
                    x as int,
                    k as int,
                ),
            decreases total - k,
        {
            proof {
                product_is_bounded(k as int, w as int, 0x1_0000_0000_0000_0000, 0x1_0000_0000);
                product_is_bounded(k + 1, w as int, 0x1_0000_0000_0000_0000, 0x1_0000_0000);
                assert((k + 1) * w == k * w + w) by (nonlinear_arith);
            }
            let low: i128 = k as i128 * w;
            let high: i128 = low + w;
            if low <= scaled && scaled <= high {
                let (offset, length) = graphemes[k];
                proof {
                    assert(graphemes@[k as int] == (offset, length));
                    assert(part_covers(*glyph, parts as int, k as int, x as int));
                    assert(2 * parts * d == 2 * scaled) by (nonlinear_arith)
                        requires
                            scaled == d * parts,
                    ;
                    assert((2 * k + 1) * w == 2 * low + w) by (nonlinear_arith)
                        requires
                            low == k * w,
                    ;
                }
                let right_half = 2 * scaled >= 2 * low + w;
                return if right_half != rtl {
                    (offset + length, true)
                } else {
                    (offset, false)
                };
            }
            k += 1;
        }
    } else {
        proof {
            no_part_beside_glyph(*glyph, total as int, x as int, 0);
        }
    }
    let right_half = 2 * (x as i128 - left as i128) >= width as i128;
    if right_half != rtl {
        (len, true)
    } else {
        (0, false)
    }
}

/// Finds the glyph that takes the point `x`.
pub fn find_glyph_at(glyphs: &[LayoutGlyph], x: i64) -> (g: usize)
    ensures
        g == glyph_at(glyphs@, x as int),
        g <= glyphs@.len(),
{
    let mut i: usize = 0;
    while i < glyphs.len()
        invariant
            i <= glyphs.len(),
            glyph_holding_from(glyphs@, x as int, 0) == glyph_holding_from(
                glyphs@,
                x as int,
                i as int,
            ),
        decreases glyphs.len() - i,
    {
        let glyph = &glyphs[i];
        if x >= glyph.x as i64 && x < glyph.x as i64 + glyph.w as i64 {
            return i;
        }
        i += 1;
    }
    let mut i: usize = 0;
    while i < glyphs.len()
        invariant
            i <= glyphs.len(),
            glyph_holding_from(glyphs@, x as int, 0) == glyphs@.len(),
            glyph_at_from(glyphs@, x as int, 0) == glyph_at_from(glyphs@, x as int, i as int),
        decreases glyphs.len() - i,
    {
        let glyph = &glyphs[i];
        if x >= glyph.x as i64 && x <= glyph.x as i64 + glyph.w as i64 {
            return i;
        }
        i += 1;
    }
    i
}

/// Finds where `x` lands in `run`.
pub fn hit_run(run: &LayoutRun, x: i64) -> (at: RunHit)
    ensures
        at == hit_in_run(run@, x as int),
{
    let glyphs = run.glyphs;
    let g = find_glyph_at(glyphs, x);
    if g < glyphs.len() {
        let glyph = &glyphs[g];
        let (graphemes, len) = glyph_graphemes(run.text, glyph.start, glyph.end);
        let (offset, past) = hit_glyph(glyph, &graphemes, len, x);
        RunHit {
            index: glyph.start + offset,
            affinity: if past {
                Affinity::Before
            } else {
                Affinity::After
            },
            is_inside: true,
        }
    } else if glyphs.len() > 0 {
        let first = &glyphs[0];
        if (run.rtl && x > first.x as i64) || (!run.rtl && x < 0) {
            RunHit { index: first.start, affinity: Affinity::After, is_inside: false }
        } else {
            RunHit { index: glyphs[glyphs.len() - 1].end, affinity: Affinity::Before, is_inside: false }
        }
    } else {
        RunHit { index: 0, affinity: Affinity::Before, is_inside: false }
    }
}

/// The cursor on the left side of `glyph` in `run`.
pub fn cursor_from_glyph_left(run: &LayoutRun, glyph: &LayoutGlyph) -> (cursor: Cursor)
    ensures
        cursor == cursor_left_of(run.line_i, run.rtl, *glyph),
{
    if run.rtl {
        Cursor::new_with_affinity(run.line_i, glyph.end, Affinity::Before)
    } else {
        Cursor::new_with_affinity(run.line_i, glyph.start, Affinity::After)
    }
}

/// The cursor on the right side of `glyph` in `run`.
pub fn cursor_from_glyph_right(run: &LayoutRun, glyph: &LayoutGlyph) -> (cursor: Cursor)
    ensures
        cursor == cursor_right_of(run.line_i, run.rtl, *glyph),
{
    if run.rtl {
        Cursor::new_with_affinity(run.line_i, glyph.start, Affinity::After)
    } else {
        Cursor::new_with_affinity(run.line_i, glyph.end, Affinity::Before)
    }
}

/// Finds where the point `(x, y)` lands in the runs of a view.
pub fn hit_runs(runs: &Vec<LayoutRun>, x: i64, y: i64) -> (hit: Option<Hit>)
    ensures
        hit == hit_in_runs(run_views(runs@), x as int, y as int),
{
    let ghost views = run_views(runs@);
    let mut found: Option<Hit> = None;
    let mut first_run = true;
    let mut i: usize = 0;
    while i < runs.len()
        invariant
            i <= runs.len(),
            views == run_views(runs@),
            hit_in_runs(views, x as int, y as int) == hit_from(
                views,
                x as int,
                y as int,
                i as int,
                first_run,
                found,
            ),
        decreases runs.len() - i,
    {
        let run = &runs[i];
        proof {
            assert(views[i as int] == run@);
        }
        let top: i128 = run.line_y as i128 - run.line_height as i128;
        if first_run && (y as i128) < top {
            first_run = false;
            found = Some(Hit { cursor: Cursor::new(run.line_i, 0), is_inside: false });
        } else if y as i128 >= top && y < run.line_y {
            let at = hit_run(run, x);
            return Some(
                Hit {
                    cursor: Cursor::new_with_affinity(run.line_i, at.index, at.affinity),
                    is_inside: at.is_inside,
                },
            );
        } else if i == runs.len() - 1 && y > run.line_y {
            let cursor = if run.glyphs.len() > 0 {
                cursor_from_glyph_right(run, &run.glyphs[run.glyphs.len() - 1])
            } else {
                Cursor::new(run.line_i, 0)
            };
            return Some(Hit { cursor, is_inside: false });
        }
        i += 1;
    }
    found
}

impl TextLayout {
    /// The cursor at the point `(x, y)` of the view. A point above the runs
    /// gives the start of the first line in view, a point below them the end
    /// of the last run; there is no cursor where there is no run.
    pub fn hit(&self, x: i64, y: i64) -> (cursor: Option<Cursor>)
        ensures
            cursor == (match hit_in_runs(visible_runs(self@), x as int, y as int) {
                Some(hit) => Some(hit.cursor),
                None => None,
            }),
    {
        let runs = self.runs();
        match hit_runs(&runs, x, y) {
            Some(hit) => Some(hit.cursor),
            None => None,
        }
    }

    /// The position in the text at `point`, and whether the point fell on
    /// a glyph.
    pub fn hit_point(&self, point: Point) -> (hit: HitPoint)
        ensures
            hit == hit_point_of(hit_in_runs(visible_runs(self@), point.x as int, point.y as int)),
    {
        let runs = self.runs();
        match hit_runs(&runs, point.x, point.y) {
            Some(hit) => HitPoint {
                line: hit.cursor.line,
                index: hit.cursor.index,
                is_inside: hit.is_inside,
            },
            None => HitPoint { line: 0, index: 0, is_inside: false },
        }
    }
}

/// A point on the left edge of a glyph resolves to the start of the glyph:
/// take a glyph that reads left to right and has a width, and let no glyph
/// in front of it hold the point in front of its right edge. If the first
/// grapheme cluster of its text starts at the start of the text, a point on
/// its left edge lands at the start of the glyph, with affinity `After`,
/// on a glyph. A glyph in front that ends at that edge does not take the
/// point.
pub proof fn left_edge_hits_start(run: LayoutRunView, g: int)
    requires
        0 <= g < run.glyphs.len(),
        !run.glyphs[g].rtl(),
        run.glyphs[g].w >= 1,
        forall|j: int| 0 <= j < g ==> !glyph_holds(#[trigger] run.glyphs[j], run.glyphs[g].x as int),
    ensures
        cluster_graphemes(run.text, run.glyphs[g].start as int, run.glyphs[g].end as int).len()
            >= 1 && cluster_graphemes(
            run.text,
            run.glyphs[g].start as int,
            run.glyphs[g].end as int,
        )[0].0 == 0 ==> hit_in_run(run, run.glyphs[g].x as int) == (RunHit {
            index: run.glyphs[g].start,
            affinity: Affinity::After,
            is_inside: true,
        }),
{
    let glyph = run.glyphs[g];
    let x = glyph.x as int;
    first_holding_glyph(run.glyphs, x, 0, g);
    let graphemes = cluster_graphemes(run.text, glyph.start as int, glyph.end as int);
    if graphemes.len() >= 1 && graphemes[0].0 == 0 {
        let parts = graphemes.len() as int;
        assert((x - glyph.x) * parts == 0) by (nonlinear_arith)
            requires
                x - glyph.x == 0,
        ;
        assert(0 * glyph.w == 0 && (0 + 1) * glyph.w == glyph.w) by (nonlinear_arith);
        assert(part_covers(glyph, parts, 0, x));
        assert(part_at_from(glyph, parts, x, 0) == Some(0int));
        assert(2 * parts * (x - glyph.x) == 0) by (nonlinear_arith)
            requires
                x - glyph.x == 0,
        ;
        assert((2 * 0 + 1) * glyph.w == glyph.w) by (nonlinear_arith);
        assert(!on_right_half(glyph, parts, 0, x));
    }
}

/// The first glyph from `from` on that holds `x` is glyph `g`, if `g`
/// holds `x` and no glyph from `from` up to `g` does.
proof fn first_holding_glyph(glyphs: Seq<LayoutGlyph>, x: int, from: int, g: int)
    requires
        0 <= from <= g < glyphs.len(),
        glyph_holds(glyphs[g], x),
        forall|j: int| from <= j < g ==> !glyph_holds(#[trigger] glyphs[j], x),
    ensures
        glyph_holding_from(glyphs, x, from) == g,
    decreases g - from,
{
    if from < g {
        first_holding_glyph(glyphs, x, from + 1, g);
    }
}

/// The first glyph from `from` on that covers `x` is glyph `g`, if `g`
/// covers `x` and no glyph from `from` up to `g` does.
proof fn first_covering_glyph(glyphs: Seq<LayoutGlyph>, x: int, from: int, g: int)
    requires
        0 <= from <= g < glyphs.len(),
        glyph_covers(glyphs[g], x),
        forall|j: int| from <= j < g ==> !glyph_covers(#[trigger] glyphs[j], x),
    ensures
        glyph_at_from(glyphs, x, from) == g,
    decreases g - from,
{
    if from < g {
        first_covering_glyph(glyphs, x, from + 1, g);
    }
}

/// No glyph from `from` on holds `x`, if none of them does.
proof fn no_glyph_holds(glyphs: Seq<LayoutGlyph>, x: int, from: int)
    requires
        0 <= from,
        forall|j: int| from <= j < glyphs.len() ==> !glyph_holds(#[trigger] glyphs[j], x),
    ensures
        glyph_holding_from(glyphs, x, from) == glyphs.len(),
    decreases glyphs.len() - from,
{
    if from < glyphs.len() {
        no_glyph_holds(glyphs, x, from + 1);
    }
}

/// A point on the right edge of a glyph at which no glyph starts resolves
/// to the end of the glyph: let glyph `g` read left to right and hold one
/// grapheme cluster that fills it, let no glyph hold the point in front of
/// its right edge, and let `g` be the first glyph that covers it. Then the
/// point lands at the end of the glyph, with affinity `Before`.
pub proof fn right_edge_hits_end(run: LayoutRunView, g: int)
    requires
        0 <= g < run.glyphs.len(),
        !run.glyphs[g].rtl(),
        run.glyphs[g].start <= run.glyphs[g].end,
        forall|j: int|
            0 <= j < run.glyphs.len() ==> !glyph_holds(
                #[trigger] run.glyphs[j],
                run.glyphs[g].x + run.glyphs[g].w,
            ),
        forall|j: int|
            0 <= j < g ==> !glyph_covers(
                #[trigger] run.glyphs[j],
                run.glyphs[g].x + run.glyphs[g].w,
            ),
    ensures
        cluster_graphemes(run.text, run.glyphs[g].start as int, run.glyphs[g].end as int)
            =~= seq![(0usize, (run.glyphs[g].end - run.glyphs[g].start) as usize)] ==> hit_in_run(
            run,
            run.glyphs[g].x + run.glyphs[g].w,
        ) == (RunHit { index: run.glyphs[g].end, affinity: Affinity::Before, is_inside: true }),
{
    let glyph = run.glyphs[g];
    let x = glyph.x + glyph.w;
    no_glyph_holds(run.glyphs, x, 0);
    first_covering_glyph(run.glyphs, x, 0, g);
    let graphemes = cluster_graphemes(run.text, glyph.start as int, glyph.end as int);
    if graphemes =~= seq![(0usize, (glyph.end - glyph.start) as usize)] {
        assert(part_covers(glyph, 1, 0, x));
        assert(part_at_from(glyph, 1, x, 0) == Some(0int));
        assert(on_right_half(glyph, 1, 0, x));
    }
}

/// Whether a point is inside: a point is inside if and only if its `y`
/// lies in the band of the run that decides it and a glyph of that run
/// covers its `x`, the edges of the glyph included.
pub proof fn inside_means_on_a_glyph(run: LayoutRunView, x: int)
    ensures
        hit_in_run(run, x).is_inside <==> exists|j: int|
            0 <= j < run.glyphs.len() && glyph_covers(#[trigger] run.glyphs[j], x),
{
    glyph_at_covers(run.glyphs, x);
}

} // verus!
