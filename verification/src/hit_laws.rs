//! How hit testing and the place of an offset answer each other on plain text.

use vstd::prelude::*;
use crate::cursor::{Affinity, Cursor};
use crate::graphemes::cluster_graphemes;
use crate::hit::{
    glyph_covers, glyph_holds, hit_from, hit_in_run, hit_in_runs, hit_point_of, in_band,
    inside_means_on_a_glyph, left_edge_hits_start, Hit, RunHit,
};
use crate::positions::{
    height_in_band, offset_scan_enter, offset_scan_glyphs, offset_scan_runs, offset_scan_start,
    position_of, position_of_offset, OffsetScan, Scanned,
};
use crate::runs::LayoutRunView;

verus! {

/// Whether `run` is plain text that reads left to right: every glyph reads
/// left to right, has a width and covers at least one byte, and each glyph
/// stands right beside the one in front of it and covers the bytes that
/// follow it.
pub open spec fn is_plain_run(run: LayoutRunView) -> bool {
    &&& !run.rtl
    &&& forall|i: int|
        0 <= i < run.glyphs.len() ==> !(#[trigger] run.glyphs[i]).rtl() && run.glyphs[i].w >= 1
            && run.glyphs[i].start < run.glyphs[i].end
    &&& forall|i: int|
        0 <= i < run.glyphs.len() - 1 ==> (#[trigger] run.glyphs[i]).x + run.glyphs[i].w
            == run.glyphs[i + 1].x && run.glyphs[i].end == run.glyphs[i + 1].start
}

/// Whether `runs` are a view on plain text: run `j` is the one run of line
/// `j`, it is plain text with at least one glyph, it has a height, and the
/// band of each run lies below the band of the run in front of it.
pub open spec fn is_plain_view(runs: Seq<LayoutRunView>) -> bool {
    &&& forall|j: int|
        0 <= j < runs.len() ==> {
            &&& (#[trigger] runs[j]).line_i == j
            &&& is_plain_run(runs[j])
            &&& runs[j].glyphs.len() >= 1
            &&& runs[j].line_height >= 1
            &&& i64::MIN < runs[j].line_y <= i64::MAX
        }
    &&& forall|j: int|
        0 <= j < runs.len() - 1 ==> (#[trigger] runs[j]).line_y <= runs[j + 1].line_y
            - runs[j + 1].line_height
}

/// Offset in the text at which line `j` of a view starts, as the place of
/// an offset counts it: every line in front takes the bytes up to the end
/// of its last glyph, and one byte for the line break.
pub open spec fn line_offset(runs: Seq<LayoutRunView>, j: int) -> int
    decreases j,
{
    if j <= 0 {
        0
    } else {
        line_offset(runs, j - 1) + runs[j - 1].glyphs.last().end + 1
    }
}

/// Whether the text of glyph `k` of `run` starts with a grapheme cluster.
pub open spec fn starts_with_cluster(run: LayoutRunView, k: int) -> bool {
    cluster_graphemes(run.text, run.glyphs[k].start as int, run.glyphs[k].end as int).len() >= 1
        && cluster_graphemes(run.text, run.glyphs[k].start as int, run.glyphs[k].end as int)[0].0
        == 0
}

/// In plain text, a glyph lies left of every later glyph and covers
/// earlier bytes.
pub proof fn plain_run_is_ordered(run: LayoutRunView, i: int, j: int)
    requires
        is_plain_run(run),
        0 <= i < j < run.glyphs.len(),
    ensures
        run.glyphs[i].x + run.glyphs[i].w <= run.glyphs[j].x,
        run.glyphs[i].end <= run.glyphs[j].start,
    decreases j - i,
{
    if i + 1 < j {
        plain_run_is_ordered(run, i + 1, j);
        assert(run.glyphs[i].x + run.glyphs[i].w == run.glyphs[i + 1].x);
        assert(run.glyphs[i + 1].w >= 1);
        assert(run.glyphs[i + 1].start < run.glyphs[i + 1].end);
    } else {
        assert(run.glyphs[i].x + run.glyphs[i].w == run.glyphs[i + 1].x);
    }
}

/// In plain text, a point on the left edge of a glyph lands at the start
/// of that glyph, with affinity `After`, on a glyph: for the first glyph as
/// for every glyph behind it, if the text of the glyph starts with a
/// grapheme cluster.
pub proof fn left_edge_of_any_glyph_hits_start(run: LayoutRunView, g: int)
    requires
        is_plain_run(run),
        0 <= g < run.glyphs.len(),
    ensures
        starts_with_cluster(run, g) ==> hit_in_run(run, run.glyphs[g].x as int) == (RunHit {
            index: run.glyphs[g].start,
            affinity: Affinity::After,
            is_inside: true,
        }),
{
    assert forall|j: int| 0 <= j < g implies !glyph_holds(
        #[trigger] run.glyphs[j],
        run.glyphs[g].x as int,
    ) by {
        plain_run_is_ordered(run, j, g);
    }
    left_edge_hits_start(run, g);
}

/// Lines of a view start in the order of the lines.
pub proof fn line_offsets_rise(runs: Seq<LayoutRunView>, a: int, b: int)
    requires
        0 <= a <= b,
    ensures
        0 <= line_offset(runs, a) <= line_offset(runs, b),
        a < b ==> line_offset(runs, a) + runs[a].glyphs.last().end + 1 <= line_offset(runs, b),
    decreases b,
{
    if a < b {
        line_offsets_rise(runs, a, b - 1);
    } else if a > 0 {
        line_offsets_rise(runs, a - 1, a - 1);
    }
}

/// The bands of the runs of a plain view lie one below the other.
pub proof fn bands_are_in_order(runs: Seq<LayoutRunView>, i: int, r: int)
    requires
        is_plain_view(runs),
        0 <= i < r < runs.len(),
    ensures
        runs[i].line_y <= runs[r].line_y - runs[r].line_height,
    decreases r - i,
{
    if i + 1 < r {
        bands_are_in_order(runs, i + 1, r);
        assert(runs[i].line_y <= runs[i + 1].line_y - runs[i + 1].line_height);
        assert(runs[i + 1].line_height >= 1);
    } else {
        assert(runs[i].line_y <= runs[i + 1].line_y - runs[i + 1].line_height);
    }
}

/// A point goes to the first run whose band holds it: if the band of run
/// `r` holds `y` and the band of no run in front of it does, the point
/// `(x, y)` lands where `x` lands in run `r`.
pub proof fn hit_goes_to_band(
    runs: Seq<LayoutRunView>,
    r: int,
    x: int,
    y: int,
    from: int,
    first: bool,
    found: Option<Hit>,
)
    requires
        0 <= from <= r < runs.len(),
        in_band(runs[r], y),
        forall|i: int| 0 <= i < r ==> !in_band(#[trigger] runs[i], y),
    ensures
        hit_from(runs, x, y, from, first, found) == Some(
            Hit {
                cursor: Cursor {
                    line: runs[r].line_i,
                    index: hit_in_run(runs[r], x).index,
                    affinity: hit_in_run(runs[r], x).affinity,
                },
                is_inside: hit_in_run(runs[r], x).is_inside,
            },
        ),
    decreases r - from,
{
    if from < r {
        assert(!in_band(runs[from], y));
        if first && y < runs[from].line_y - runs[from].line_height {
            hit_goes_to_band(
                runs,
                r,
                x,
                y,
                from + 1,
                false,
                Some(
                    Hit {
                        cursor: Cursor {
                            line: runs[from].line_i,
                            index: 0,
                            affinity: Affinity::Before,
                        },
                        is_inside: false,
                    },
                ),
            );
        } else {
            hit_goes_to_band(runs, r, x, y, from + 1, first, found);
        }
    }
}

/// Index of the first run from `from` on whose band holds `y`; the number
/// of runs if there is none.
pub open spec fn first_band_from(runs: Seq<LayoutRunView>, y: int, from: int) -> int
    decreases runs.len() - from,
{
    if from < 0 || from >= runs.len() {
        runs.len() as int
    } else if in_band(runs[from], y) {
        from
    } else {
        first_band_from(runs, y, from + 1)
    }
}

/// The run found for a height is the first whose band holds it.
pub proof fn first_band_is_first(runs: Seq<LayoutRunView>, y: int, from: int)
    requires
        0 <= from <= runs.len(),
    ensures
        from <= first_band_from(runs, y, from) <= runs.len(),
        first_band_from(runs, y, from) < runs.len() ==> in_band(
            runs[first_band_from(runs, y, from)],
            y,
        ),
        forall|i: int| from <= i < first_band_from(runs, y, from) ==> !in_band(#[trigger] runs[i], y),
    decreases runs.len() - from,
{
    if from < runs.len() && !in_band(runs[from], y) {
        first_band_is_first(runs, y, from + 1);
    }
}

/// A point that lies in no band is not inside.
proof fn hit_beside_bands_is_outside(
    runs: Seq<LayoutRunView>,
    x: int,
    y: int,
    from: int,
    first: bool,
    found: Option<Hit>,
)
    requires
        0 <= from,
        forall|i: int| from <= i < runs.len() ==> !in_band(#[trigger] runs[i], y),
        found is Some ==> !found->0.is_inside,
    ensures
        hit_from(runs, x, y, from, first, found) is Some ==> !hit_from(
            runs,
            x,
            y,
            from,
            first,
            found,
        )->0.is_inside,
    decreases runs.len() - from,
{
    if from < runs.len() {
        assert(!in_band(runs[from], y));
        if first && y < runs[from].line_y - runs[from].line_height {
            hit_beside_bands_is_outside(
                runs,
                x,
                y,
                from + 1,
                false,
                Some(
                    Hit {
                        cursor: Cursor {
                            line: runs[from].line_i,
                            index: 0,
                            affinity: Affinity::Before,
                        },
                        is_inside: false,
                    },
                ),
            );
        } else if from == runs.len() - 1 && y > runs[from].line_y {
        } else {
            hit_beside_bands_is_outside(runs, x, y, from + 1, first, found);
        }
    }
}

/// When a point is inside: if and only if its height lies in the band of
/// a run, and a glyph of the first such run covers it, the edges of the
/// glyph included. A point above, below or beside the glyphs is not
/// inside.
pub proof fn inside_means_in_band_on_a_glyph(runs: Seq<LayoutRunView>, x: int, y: int)
    ensures
        hit_point_of(hit_in_runs(runs, x, y)).is_inside <==> first_band_from(runs, y, 0)
            < runs.len() && exists|j: int|
            0 <= j < runs[first_band_from(runs, y, 0)].glyphs.len() && glyph_covers(
                #[trigger] runs[first_band_from(runs, y, 0)].glyphs[j],
                x,
            ),
{
    let r = first_band_from(runs, y, 0);
    first_band_is_first(runs, y, 0);
    if r < runs.len() {
        hit_goes_to_band(runs, r, x, y, 0, true, None);
        inside_means_on_a_glyph(runs[r], x);
    } else {
        hit_beside_bands_is_outside(runs, x, y, 0, true, None);
    }
}

/// The search for an offset that glyph `k` holds passes the glyphs in
/// front of it and ends at glyph `k`.
proof fn offset_scan_finds_glyph(
    run: LayoutRunView,
    run_i: int,
    k: int,
    idx: usize,
    scan: OffsetScan,
    from: int,
)
    requires
        is_plain_run(run),
        0 <= from <= k < run.glyphs.len(),
        scan.offset + run.glyphs[k].start <= idx < scan.offset + run.glyphs[k].end,
    ensures
        offset_scan_glyphs(scan, run_i, run, idx, from) == Scanned::<OffsetScan>::Found(
            position_of(run_i, run, run.glyphs[k]),
        ),
    decreases k - from,
{
    if from < k {
        plain_run_is_ordered(run, from, k);
        let glyph = run.glyphs[from];
        assert(glyph.start < glyph.end);
        let next = OffsetScan {
            last_end: glyph.end,
            last_width: glyph.w,
            last: position_of(run_i, run, glyph),
            ..scan
        };
        offset_scan_finds_glyph(run, run_i, k, idx, next, from + 1);
    }
}

/// The search for an offset behind a run passes all glyphs of the run.
proof fn offset_scan_passes_run(run: LayoutRunView, run_i: int, idx: usize, scan: OffsetScan, from: int)
    requires
        is_plain_run(run),
        0 <= from <= run.glyphs.len(),
        run.glyphs.len() >= 1,
        scan.offset + run.glyphs.last().end <= idx,
    ensures
        match offset_scan_glyphs(scan, run_i, run, idx, from) {
            Scanned::Onward(next) => next.offset == scan.offset && next.last_line
                == scan.last_line && (from < run.glyphs.len() ==> next.last_end
                == run.glyphs.last().end) && (from >= run.glyphs.len() ==> next == scan),
            Scanned::Found(_) => false,
        },
    decreases run.glyphs.len() - from,
{
    if from < run.glyphs.len() {
        let glyph = run.glyphs[from];
        assert(glyph.start < glyph.end);
        if from < run.glyphs.len() - 1 {
            plain_run_is_ordered(run, from, run.glyphs.len() - 1);
            assert(run.glyphs[run.glyphs.len() - 1].start < run.glyphs[run.glyphs.len() - 1].end);
        }
        let next = OffsetScan {
            last_end: glyph.end,
            last_width: glyph.w,
            last: position_of(run_i, run, glyph),
            ..scan
        };
        offset_scan_passes_run(run, run_i, idx, next, from + 1);
    }
}

/// The search for an offset that glyph `k` of run `r` holds passes the
/// runs in front of run `r` and ends at that glyph.
proof fn offset_scan_reaches(
    runs: Seq<LayoutRunView>,
    idx: usize,
    r: int,
    k: int,
    j: int,
    scan: OffsetScan,
)
    requires
        is_plain_view(runs),
        0 <= j <= r < runs.len(),
        0 <= k < runs[r].glyphs.len(),
        line_offset(runs, r) + runs[r].glyphs[k].start <= idx < line_offset(runs, r)
            + runs[r].glyphs[k].end,
        j == 0 ==> scan.offset == 0 && scan.last_line == 0 && scan.last_end == 0,
        j > 0 ==> scan.offset == line_offset(runs, j - 1) && scan.last_line == j - 1
            && scan.last_end == runs[j - 1].glyphs.last().end,
    ensures
        offset_scan_runs(runs, idx, scan, j) == position_of(r, runs[r], runs[r].glyphs[k]),
    decreases r - j,
{
    let run = runs[j];
    let entered = offset_scan_enter(scan, run);
    line_offsets_rise(runs, j, r);
    assert(run.line_i == j);
    assert(entered.offset == line_offset(runs, j) && entered.last_line == j);
    if j < r {
        offset_scan_passes_run(run, j, idx, entered, 0);
        match offset_scan_glyphs(entered, j, run, idx, 0) {
            Scanned::Onward(next) => {
                offset_scan_reaches(runs, idx, r, k, j + 1, next);
            },
            Scanned::Found(_) => {},
        }
    } else {
        offset_scan_finds_glyph(run, r, k, idx, entered, 0);
    }
}

/// Hit testing answers the place of an offset. In a view on plain text,
/// let glyph `k` of run `r` hold the offset `idx`. Then `idx` is drawn at
/// the left edge of that glyph, at a height in the band of run `r`; and if
/// the text of the glyph starts with a grapheme cluster, that very point
/// lands on line `r` at the start of the glyph, on a glyph, with affinity
/// `After`: at the offset itself or at the start of the glyph that holds
/// it.
pub proof fn place_of_offset_hits_back(runs: Seq<LayoutRunView>, r: int, k: int, idx: usize)
    requires
        is_plain_view(runs),
        0 <= r < runs.len(),
        0 <= k < runs[r].glyphs.len(),
        line_offset(runs, r) + runs[r].glyphs[k].start <= idx < line_offset(runs, r)
            + runs[r].glyphs[k].end,
    ensures
        position_of_offset(runs, idx) == position_of(r, runs[r], runs[r].glyphs[k]),
        position_of_offset(runs, idx).point.x == runs[r].glyphs[k].x,
        in_band(runs[r], position_of_offset(runs, idx).point.y as int),
        starts_with_cluster(runs[r], k) ==> hit_in_runs(
            runs,
            position_of_offset(runs, idx).point.x as int,
            position_of_offset(runs, idx).point.y as int,
        ) == Some(
            Hit {
                cursor: Cursor {
                    line: r as usize,
                    index: runs[r].glyphs[k].start,
                    affinity: Affinity::After,
                },
                is_inside: true,
            },
        ),
{
    let run = runs[r];
    let glyph = run.glyphs[k];
    offset_scan_reaches(runs, idx, r, k, 0, offset_scan_start());
    let at = position_of_offset(runs, idx);
    let y = height_in_band(run.line_y) as int;
    assert(at.point.y == y);
    assert(y == run.line_y - 1);
    assert(in_band(run, y));
    assert forall|i: int| 0 <= i < r implies !in_band(#[trigger] runs[i], y) by {
        bands_are_in_order(runs, i, r);
    }
    hit_goes_to_band(runs, r, glyph.x as int, y, 0, true, None);
    if starts_with_cluster(run, k) {
        assert forall|j: int| 0 <= j < k implies !glyph_holds(
            #[trigger] run.glyphs[j],
            glyph.x as int,
        ) by {
            plain_run_is_ordered(run, j, k);
        }
        left_edge_hits_start(run, k);
    }
}

} // verus!
