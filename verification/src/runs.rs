//! The layout lines in view, from top to bottom.

use vstd::prelude::*;
use crate::buffer::{capped, total_layout_lines, TextLayout, TextLayoutView};
use crate::geometry::Size;
use crate::layout::{LayoutGlyph, LayoutLine, LineState, TextLayoutLine};

verus! {

/// A layout line in view, with its place in the view.
#[derive(Clone, Copy, Debug)]
pub struct LayoutRun<'a> {
    /// Index of the line that the layout line belongs to.
    pub line_i: usize,
    /// Text of that line.
    pub text: &'a str,
    /// Whether the paragraph runs right to left.
    pub rtl: bool,
    /// The glyphs from left to right.
    pub glyphs: &'a [LayoutGlyph],
    /// Vertical offset of the baseline from the top of the view.
    pub line_y: i64,
    /// Width of the layout line.
    pub line_w: u32,
    /// Height of the layout line.
    pub line_height: i64,
    pub glyph_ascent: u32,
    pub glyph_descent: u32,
}

/// The mathematical value of a [`LayoutRun`].
pub struct LayoutRunView {
    pub line_i: usize,
    pub text: Seq<char>,
    pub rtl: bool,
    pub glyphs: Seq<LayoutGlyph>,
    pub line_y: int,
    pub line_w: u32,
    pub line_height: int,
    pub glyph_ascent: u32,
    pub glyph_descent: u32,
}

impl<'a> View for LayoutRun<'a> {
    type V = LayoutRunView;

    open spec fn view(&self) -> LayoutRunView {
        LayoutRunView {
            line_i: self.line_i,
            text: self.text@,
            rtl: self.rtl,
            glyphs: self.glyphs@,
            line_y: self.line_y as int,
            line_w: self.line_w,
            line_height: self.line_height as int,
            glyph_ascent: self.glyph_ascent,
            glyph_descent: self.glyph_descent,
        }
    }
}

/// The values of runs, in order.
pub open spec fn run_views(runs: Seq<LayoutRun>) -> Seq<LayoutRunView> {
    runs.map_values(|run: LayoutRun| run@)
}

/// Half of `n`, rounded towards 0.
pub open spec fn half(n: int) -> int {
    if n >= 0 {
        n / 2
    } else {
        -((-n) / 2)
    }
}

/// The run of layout line `layout_i` of line `line_i`, whose lower edge
/// lies at `bottom`. The glyphs are centred in the height of the line: the
/// baseline lies above the lower edge by the descent of the glyphs and by
/// half of the height that the glyphs leave free.
pub open spec fn run_at(lines: Seq<TextLayoutLine>, line_i: int, layout_i: int, bottom: int) -> LayoutRunView {
    let line = lines[line_i];
    let layout_line = line.layout_cache()->0@[layout_i];
    let offset = half(layout_line.height() - (layout_line.glyph_ascent + layout_line.glyph_descent));
    LayoutRunView {
        line_i: line_i as usize,
        text: line.text_chars(),
        rtl: line.shape_cache()->0.rtl,
        glyphs: layout_line.glyphs@,
        line_y: bottom - offset - layout_line.glyph_descent,
        line_w: layout_line.w,
        line_height: layout_line.height(),
        glyph_ascent: layout_line.glyph_ascent,
        glyph_descent: layout_line.glyph_descent,
    }
}

/// The runs in view from layout line `layout_i` of line `line_i` on, when
/// `skip` layout lines are still to be passed over and the layout lines in
/// view so far reach down to `y`. Lines are walked in order, and their
/// layout lines in order; the walk ends at the first line that is not laid
/// out, and at the first layout line that reaches below the height of the
/// view.
pub open spec fn visible_from(
    buffer: TextLayoutView,
    line_i: int,
    layout_i: int,
    skip: int,
    y: int,
) -> Seq<LayoutRunView>
    decreases buffer.lines.len() - line_i, buffer.lines[line_i].layout_len() - layout_i,
{
    if line_i < 0 || layout_i < 0 || line_i >= buffer.lines.len() {
        Seq::empty()
    } else if buffer.lines[line_i].state() != LineState::Wrapped {
        Seq::empty()
    } else if layout_i >= buffer.lines[line_i].layout_len() {
        visible_from(buffer, line_i + 1, 0, skip, y)
    } else if skip > 0 {
        visible_from(buffer, line_i, layout_i + 1, skip - 1, y)
    } else {
        let bottom = y + buffer.lines[line_i].layout_cache()->0@[layout_i].height();
        if bottom > buffer.height {
            Seq::empty()
        } else {
            seq![run_at(buffer.lines, line_i, layout_i, bottom)] + visible_from(
                buffer,
                line_i,
                layout_i + 1,
                0,
                bottom,
            )
        }
    }
}

/// The runs in view: the layout lines behind the first `scroll` ones, as
/// far as they fit into the height of the view.
pub open spec fn visible_runs(buffer: TextLayoutView) -> Seq<LayoutRunView> {
    visible_from(
        buffer,
        0,
        0,
        if buffer.scroll > 0 {
            buffer.scroll as int
        } else {
            0
        },
        0,
    )
}

/// The number of layout lines behind the first `scroll` ones, capped at `i32::MAX`.
pub open spec fn lines_behind_scroll(buffer: TextLayoutView) -> int {
    let total = capped(total_layout_lines(buffer.lines));
    let scroll = if buffer.scroll > 0 {
        buffer.scroll as int
    } else {
        0
    };
    if total > scroll {
        total - scroll
    } else {
        0
    }
}

/// A walk through the runs in view, one run at a time.
pub struct LayoutRunIter<'b> {
    buffer: &'b TextLayout,
    line_i: usize,
    layout_i: usize,
    remaining_len: usize,
    line_y: i64,
    to_skip: i32,
}

impl<'b> LayoutRunIter<'b> {
    /// The invariant of a walk.
    pub closed spec fn wf(self) -> bool {
        &&& 0 <= self.to_skip
        &&& 0 <= self.line_y
        &&& self.line_y <= self.buffer@.height || self.line_y == 0
    }

    /// The buffer that is walked.
    pub closed spec fn source(self) -> TextLayoutView {
        self.buffer@
    }

    /// The runs that the walk has not given out yet.
    pub closed spec fn remaining(self) -> Seq<LayoutRunView> {
        visible_from(
            self.buffer@,
            self.line_i as int,
            self.layout_i as int,
            self.to_skip as int,
            self.line_y as int,
        )
    }

    /// Upper bound on the number of runs still to come.
    pub closed spec fn remaining_bound(self) -> usize {
        self.remaining_len
    }

    /// A walk at its start.
    pub fn new(buffer: &'b TextLayout) -> (iter: LayoutRunIter<'b>)
        ensures
            iter.wf(),
            iter.source() == buffer@,
            iter.remaining() == visible_runs(buffer@),
            iter.remaining_bound() == lines_behind_scroll(buffer@),
    {
        let total = buffer.cached_layout_lines();
        let scroll = buffer.scroll();
        let to_skip: i32 = if scroll > 0 {
            scroll
        } else {
            0
        };
        let remaining_len: usize = if total > to_skip {
            (total - to_skip) as usize
        } else {
            0
        };
        LayoutRunIter { buffer, line_i: 0, layout_i: 0, remaining_len, line_y: 0, to_skip }
    }

    /// Bounds on the number of runs still to come, lower and upper.
    pub fn size_hint(&self) -> (hint: (usize, Option<usize>))
        ensures
            hint == (self.remaining_bound(), Some(self.remaining_bound())),
    {
        (self.remaining_len, Some(self.remaining_len))
    }

    /// The next run in view, if there is one.
    pub fn next(&mut self) -> (run: Option<LayoutRun<'b>>)
        requires
            old(self).wf(),
        ensures
            final(self).wf(),
            final(self).source() == old(self).source(),
            match run {
                Some(run) => old(self).remaining() == seq![run@] + final(self).remaining(),
                None => old(self).remaining().len() == 0 && final(self).remaining().len() == 0,
            },
            final(self).remaining_bound() == (if run is Some && old(self).remaining_bound() > 0 {
                (old(self).remaining_bound() - 1) as usize
            } else {
                old(self).remaining_bound()
            }),
    {
        let buffer: &'b TextLayout = self.buffer;
        let (_width, height) = buffer.view_size();
        let lines: &'b Vec<TextLayoutLine> = buffer.lines();
        while self.line_i < lines.len()
            invariant
                self.wf(),
                self.buffer == old(self).buffer,
                buffer == self.buffer,
                lines@ == buffer@.lines,
                height == buffer@.height,
                self.remaining_len == old(self).remaining_len,
                self.remaining() == old(self).remaining(),
            decreases lines.len() - self.line_i,
        {
            let line: &'b TextLayoutLine = &lines[self.line_i];
            let shape = match line.shape_opt() {
                Some(shape) => shape,
                None => {
                    return None;
                },
            };
            let layout = match line.layout_opt() {
                Some(layout) => layout,
                None => {
                    return None;
                },
            };
            let ghost at_line = self.line_i;
            while self.layout_i < layout.len()
                invariant
                    self.wf(),
                    self.line_i == at_line,
                    self.buffer == old(self).buffer,
                    buffer == self.buffer,
                    height == buffer@.height,
                    lines@ == buffer@.lines,
                    self.line_i < lines.len(),
                    *line == buffer@.lines[self.line_i as int],
                    line.shape_cache() == Some(*shape),
                    line.layout_cache() == Some(*layout),
                    self.remaining_len == old(self).remaining_len,
                    self.remaining() == old(self).remaining(),
                decreases layout.len() - self.layout_i,
            {
                let layout_line: &'b LayoutLine = &layout[self.layout_i];
                if self.to_skip > 0 {
                    self.to_skip -= 1;
                    self.layout_i += 1;
                    continue ;
                }
                let line_height: i64 = layout_line.line_ascent as i64
                    + layout_line.line_descent as i64;
                let bottom: i64 = self.line_y + line_height;
                if bottom > height as i64 {
                    return None;
                }
                let offset: i64 = (line_height - (layout_line.glyph_ascent as i64
                    + layout_line.glyph_descent as i64)) / 2;
                let run = LayoutRun {
                    line_i: self.line_i,
                    text: line.text(),
                    rtl: shape.rtl,
                    glyphs: layout_line.glyphs.as_slice(),
                    line_y: bottom - offset - layout_line.glyph_descent as i64,
                    line_w: layout_line.w,
                    glyph_ascent: layout_line.glyph_ascent,
                    glyph_descent: layout_line.glyph_descent,
                    line_height,
                };
                proof {
                    assert(run@ == run_at(
                        buffer@.lines,
                        self.line_i as int,
                        self.layout_i as int,
                        bottom as int,
                    ));
                }
                self.line_y = bottom;
                self.layout_i += 1;
                if self.remaining_len > 0 {
                    self.remaining_len -= 1;
                }
                return Some(run);
            }
            self.line_i += 1;
            self.layout_i = 0;
        }
        None
    }

    /// The runs still to come, in order.
    pub fn collect(self) -> (runs: Vec<LayoutRun<'b>>)
        requires
            self.wf(),
        ensures
            run_views(runs@) == self.remaining(),
    {
        let mut iter = self;
        let mut runs: Vec<LayoutRun<'b>> = Vec::new();
        loop
            invariant
                iter.wf(),
                run_views(runs@) + iter.remaining() == self.remaining(),
            ensures
                run_views(runs@) == self.remaining(),
            decreases iter.remaining().len(),
        {
            let ghost before = run_views(runs@);
            match iter.next() {
                Some(run) => {
                    runs.push(run);
                    proof {
                        assert(run_views(runs@) =~= before + seq![run@]);
                        assert((before + seq![run@]) + iter.remaining() =~= before + (seq![run@]
                            + iter.remaining()));
                    }
                },
                None => {
                    proof {
                        assert(before + iter.remaining() =~= before);
                    }
                    break ;
                },
            }
        }
        runs
    }
}

/// Sum of the heights of runs.
pub open spec fn total_height(runs: Seq<LayoutRunView>) -> int
    decreases runs.len(),
{
    if runs.len() == 0 {
        0
    } else {
        runs[0].line_height + total_height(runs.drop_first())
    }
}

/// Width of the widest of runs; 0 for no runs.
pub open spec fn max_width(runs: Seq<LayoutRunView>) -> int
    decreases runs.len(),
{
    if runs.len() == 0 {
        0
    } else {
        let rest = max_width(runs.drop_first());
        if runs[0].line_w > rest {
            runs[0].line_w as int
        } else {
            rest
        }
    }
}

/// The runs in view fit into the height of the view: no run has a
/// negative height, and together they are no higher than the view.
pub proof fn visible_runs_fit(buffer: TextLayoutView, line_i: int, layout_i: int, skip: int, y: int)
    requires
        0 <= y,
    ensures
        0 <= total_height(visible_from(buffer, line_i, layout_i, skip, y)),
        visible_from(buffer, line_i, layout_i, skip, y).len() > 0 ==> y + total_height(
            visible_from(buffer, line_i, layout_i, skip, y),
        ) <= buffer.height,
        forall|k: int|
            0 <= k < visible_from(buffer, line_i, layout_i, skip, y).len() ==> 0 <= (
            #[trigger] visible_from(buffer, line_i, layout_i, skip, y)[k]).line_height,
    decreases buffer.lines.len() - line_i, buffer.lines[line_i].layout_len() - layout_i,
{
    if line_i < 0 || layout_i < 0 || line_i >= buffer.lines.len() {
    } else if buffer.lines[line_i].state() != LineState::Wrapped {
    } else if layout_i >= buffer.lines[line_i].layout_len() {
        visible_runs_fit(buffer, line_i + 1, 0, skip, y);
    } else if skip > 0 {
        visible_runs_fit(buffer, line_i, layout_i + 1, skip - 1, y);
    } else {
        let bottom = y + buffer.lines[line_i].layout_cache()->0@[layout_i].height();
        if bottom > buffer.height {
        } else {
            visible_runs_fit(buffer, line_i, layout_i + 1, 0, bottom);
            let first = run_at(buffer.lines, line_i, layout_i, bottom);
            let rest = visible_from(buffer, line_i, layout_i + 1, 0, bottom);
            let all = visible_from(buffer, line_i, layout_i, skip, y);
            assert(all == seq![first] + rest);
            assert(all.drop_first() =~= rest);
            assert forall|k: int| 0 <= k < all.len() implies 0 <= (#[trigger] all[k]).line_height by {
                if k > 0 {
                    assert(all[k] == rest[k - 1]);
                }
            }
        }
    }
}

/// The heights of runs from index `i` on are part of the heights of all.
proof fn total_height_from_start(runs: Seq<LayoutRunView>, i: int)
    requires
        0 <= i <= runs.len(),
        forall|k: int| 0 <= k < runs.len() ==> 0 <= (#[trigger] runs[k]).line_height,
    ensures
        total_height(runs.skip(i)) <= total_height(runs),
        0 <= total_height(runs.skip(i)),
    decreases i,
{
    if i == 0 {
        assert(runs.skip(0) =~= runs);
        total_height_not_negative(runs);
    } else {
        total_height_from_start(runs, i - 1);
        assert(runs.skip(i - 1).drop_first() =~= runs.skip(i));
        assert(runs.skip(i - 1)[0] == runs[i - 1]);
        total_height_not_negative(runs.skip(i));
    }
}

/// Runs without negative height have no negative sum of heights.
proof fn total_height_not_negative(runs: Seq<LayoutRunView>)
    requires
        forall|k: int| 0 <= k < runs.len() ==> 0 <= (#[trigger] runs[k]).line_height,
    ensures
        0 <= total_height(runs),
    decreases runs.len(),
{
    if runs.len() > 0 {
        let rest = runs.drop_first();
        assert forall|k: int| 0 <= k < rest.len() implies 0 <= (#[trigger] rest[k]).line_height by {
            assert(rest[k] == runs[k + 1]);
        }
        total_height_not_negative(rest);
    }
}

impl TextLayout {
    /// A walk through the runs in view.
    pub fn layout_runs(&self) -> (iter: LayoutRunIter<'_>)
        ensures
            iter.wf(),
            iter.source() == self@,
            iter.remaining() == visible_runs(self@),
            iter.remaining_bound() == lines_behind_scroll(self@),
    {
        LayoutRunIter::new(self)
    }

    /// The runs in view, from top to bottom.
    pub fn runs(&self) -> (runs: Vec<LayoutRun<'_>>)
        ensures
            run_views(runs@) == visible_runs(self@),
    {
        self.layout_runs().collect()
    }

    /// The size of what is in view: the width of the widest run and the
    /// sum of the heights of all runs.
    pub fn size(&self) -> (size: Size)
        ensures
            size.width == max_width(visible_runs(self@)),
            size.height == total_height(visible_runs(self@)),
            0 <= size.height,
            size.height <= self@.height || size.height == 0,
    {
        let runs = self.runs();
        let ghost views = run_views(runs@);
        proof {
            visible_runs_fit(
                self@,
                0,
                0,
                if self@.scroll > 0 {
                    self@.scroll as int
                } else {
                    0
                },
                0,
            );
            total_height_not_negative(views);
        }
        let mut width: i64 = 0;
        let mut height: i64 = 0;
        let mut i: usize = runs.len();
        proof {
            assert(views.skip(i as int).len() == 0);
        }
        while i > 0
            invariant
                i <= runs.len(),
                views == run_views(runs@),
                forall|k: int| 0 <= k < views.len() ==> 0 <= (#[trigger] views[k]).line_height,
                total_height(views) <= i32::MAX,
                width == max_width(views.skip(i as int)),
                height == total_height(views.skip(i as int)),
                0 <= width <= u32::MAX,
            decreases i,
        {
            i -= 1;
            let run = &runs[i];
            proof {
                assert(views[i as int] == run@);
                assert(views.skip(i as int).drop_first() =~= views.skip(i + 1));
                assert(views.skip(i as int)[0] == views[i as int]);
                total_height_from_start(views, i as int);
            }
            if run.line_w as i64 > width {
                width = run.line_w as i64;
            }
            height = height + run.line_height;
        }
        proof {
            assert(views.skip(0) =~= views);
        }
        Size { width, height }
    }
}

} // verus!
