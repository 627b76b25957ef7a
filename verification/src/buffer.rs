//! The buffer: the lines of a text, the size of the view on them, and how
//! far the view is scrolled.

use vstd::prelude::*;
use vstd::string::*;
use vstd::utf8::*;
use crate::attrs::{default_attrs, Attrs, AttrsView};
use crate::attrs_list::{AttrsList, AttrsListView};
use crate::cursor::{Affinity, Cursor, LayoutCursor};
use crate::layout::{
    LayoutGlyph, LayoutLine, LineState, ShapeLine, Shaper, TextLayoutLine, Wrap,
};
use crate::view_reach::{
    add_line_heights, capped_wide, flat_heights, flat_heights_agree, flat_heights_count,
    flat_heights_index, height_in_view, height_in_view_step, line_heights, lines_above,
    scroll_down_from, span_height, sum_from, view_reach, view_reach_is_least, view_reach_unique,
};
use crate::text_lines::{
    after_first_line, count_lf, first_line, line_count, line_end_is_first_lf, line_start,
    raw_lines, strip_cr, text_lines,
};

verus! {

/// The mathematical value of a [`TextLayout`].
pub struct TextLayoutView {
    pub lines: Seq<TextLayoutLine>,
    pub width: i32,
    pub height: i32,
    /// Number of layout lines that lie above the view.
    pub scroll: i32,
    pub redraw: bool,
    pub wrap: Wrap,
}

/// Number of cached layout lines of the first `n` lines.
pub open spec fn layout_count(lines: Seq<TextLayoutLine>, n: int) -> int
    decreases n,
{
    if n <= 0 {
        0
    } else {
        layout_count(lines, n - 1) + lines[n - 1].layout_len()
    }
}

/// Number of cached layout lines of all the lines.
pub open spec fn total_layout_lines(lines: Seq<TextLayoutLine>) -> int {
    layout_count(lines, lines.len() as int)
}

/// The least `k` from `from` on at which the first `k` lines hold `wanted`
/// layout lines or more; the number of lines, if there is none.
pub open spec fn lines_needed_from(lines: Seq<TextLayoutLine>, wanted: int, from: int) -> int
    decreases lines.len() - from,
{
    if from >= lines.len() || layout_count(lines, from) >= wanted {
        from
    } else {
        lines_needed_from(lines, wanted, from + 1)
    }
}

/// Number of leading lines that have to be laid out to reach `wanted`
/// layout lines: the least `k` at which the first `k` lines hold that many,
/// or the number of lines.
pub open spec fn lines_needed(lines: Seq<TextLayoutLine>, wanted: int) -> int {
    lines_needed_from(lines, wanted, 0)
}

/// A count of layout lines as the buffer reports it: capped at `i32::MAX`.
pub open spec fn capped(count: int) -> int {
    if count > i32::MAX {
        i32::MAX as int
    } else {
        count
    }
}

/// Whether `after` is `before` with the first `k` lines laid out: text,
/// attributes and place of every line are kept; each of the first `k` lines
/// holds a shape and a layout, and keeps those that it had; the other
/// lines are untouched.
pub open spec fn laid_out_prefix(
    before: Seq<TextLayoutLine>,
    after: Seq<TextLayoutLine>,
    k: int,
) -> bool {
    &&& after.len() == before.len()
    &&& forall|i: int| 0 <= i < after.len() ==> (#[trigger] after[i]).same_content(before[i])
    &&& forall|i: int|
        0 <= i < after.len() && i < k ==> {
            &&& (#[trigger] after[i]).state() == LineState::Wrapped
            &&& before[i].shape_cache() is Some ==> after[i].shape_cache()
                == before[i].shape_cache()
            &&& before[i].layout_cache() is Some ==> after[i] == before[i]
        }
    &&& forall|i: int| 0 <= i < after.len() && i >= k ==> #[trigger] after[i] == before[i]
}

/// Whether one of the first `k` lines has no cached shape.
pub open spec fn any_unshaped(lines: Seq<TextLayoutLine>, k: int) -> bool {
    exists|i: int| 0 <= i < lines.len() && i < k && (#[trigger] lines[i]).shape_cache() is None
}

/// `scroll` moved into the range from 0 to `total - 1`, and to 0 where
/// that range is empty.
pub open spec fn clamp_scroll(scroll: int, total: int) -> int {
    if scroll > total - 1 {
        if total - 1 < 0 {
            0
        } else {
            total - 1
        }
    } else if scroll < 0 {
        0
    } else {
        scroll
    }
}

/// Whether `after` is `before` wrapped anew, with the first `k` lines laid
/// out: text, attributes and place of every line are kept; a line that had
/// a shape keeps it and holds a layout; a line that had none holds shape
/// and layout if it is one of the first `k`, and is untouched otherwise.
pub open spec fn rewrapped(before: Seq<TextLayoutLine>, after: Seq<TextLayoutLine>, k: int) -> bool {
    &&& after.len() == before.len()
    &&& forall|i: int| 0 <= i < after.len() ==> (#[trigger] after[i]).same_content(before[i])
    &&& forall|i: int|
        0 <= i < after.len() && before[i].shape_cache() is Some ==> (#[trigger] after[i]).state()
            == LineState::Wrapped && after[i].shape_cache() == before[i].shape_cache()
    &&& forall|i: int|
        0 <= i < after.len() && before[i].shape_cache() is None && i < k ==> (
        #[trigger] after[i]).state() == LineState::Wrapped
    &&& forall|i: int|
        0 <= i < after.len() && before[i].shape_cache() is None && i >= k ==> #[trigger] after[i]
            == before[i]
}

/// The slot of `glyph` at which `cursor` sits: 0 for the slot in front of
/// the glyph, 1 for the slot behind it. The cursor at the start of the
/// cluster, with affinity `After`, sits on the side where reading starts;
/// the cursor at its end, with affinity `Before`, on the other side.
pub open spec fn glyph_slot(glyph: LayoutGlyph, cursor: Cursor) -> Option<int> {
    let at_start = Cursor { line: cursor.line, index: glyph.start, affinity: Affinity::After };
    let at_end = Cursor { line: cursor.line, index: glyph.end, affinity: Affinity::Before };
    let left = if glyph.rtl() {
        at_end
    } else {
        at_start
    };
    let right = if glyph.rtl() {
        at_start
    } else {
        at_end
    };
    if cursor == left {
        Some(0int)
    } else if cursor == right {
        Some(1int)
    } else {
        None
    }
}

/// The first glyph at a side of which `cursor` sits, searched from glyph
/// `glyph_i` of layout line `layout_i` on, layout line by layout line and
/// glyph by glyph: the index of the layout line and the index of the glyph
/// in it.
pub open spec fn find_glyph(layout: Seq<LayoutLine>, cursor: Cursor, layout_i: int, glyph_i: int) -> Option<
    (int, int),
>
    decreases layout.len() - layout_i, if layout_i < layout.len() {
        layout[layout_i].glyphs@.len() - glyph_i
    } else {
        0
    },
{
    if layout_i < 0 || glyph_i < 0 || layout_i >= layout.len() {
        None
    } else if glyph_i >= layout[layout_i].glyphs@.len() {
        find_glyph(layout, cursor, layout_i + 1, 0)
    } else if glyph_slot(layout[layout_i].glyphs@[glyph_i], cursor) is Some {
        Some((layout_i, glyph_i))
    } else {
        find_glyph(layout, cursor, layout_i, glyph_i + 1)
    }
}

/// Whether glyph `g` of layout line `l` comes in front of glyph `h` of
/// layout line `m`.
pub open spec fn comes_before(l: int, g: int, m: int, h: int) -> bool {
    l < m || (l == m && g < h)
}

/// The glyph found for a cursor is the first at a side of which the cursor
/// sits: it is a glyph of the layout, the cursor sits at one of its sides,
/// and it sits at no side of a glyph between the start of the search and
/// that glyph. If no glyph is found, the cursor sits at no side of a glyph
/// from the start of the search on.
pub proof fn find_glyph_is_first(layout: Seq<LayoutLine>, cursor: Cursor, layout_i: int, glyph_i: int)
    requires
        0 <= layout_i,
        0 <= glyph_i,
    ensures
        match find_glyph(layout, cursor, layout_i, glyph_i) {
            Some(found) => {
                &&& layout_i <= found.0 < layout.len()
                &&& 0 <= found.1 < layout[found.0].glyphs@.len()
                &&& glyph_slot(layout[found.0].glyphs@[found.1], cursor) is Some
                &&& forall|l: int, j: int|
                    0 <= l < layout.len() && 0 <= j < layout[l].glyphs@.len() && !comes_before(
                        l,
                        j,
                        layout_i,
                        glyph_i,
                    ) && comes_before(l, j, found.0, found.1) ==> glyph_slot(
                        #[trigger] layout[l].glyphs@[j],
                        cursor,
                    ) is None
            },
            None => forall|l: int, j: int|
                0 <= l < layout.len() && 0 <= j < layout[l].glyphs@.len() && !comes_before(
                    l,
                    j,
                    layout_i,
                    glyph_i,
                ) ==> glyph_slot(#[trigger] layout[l].glyphs@[j], cursor) is None,
        },
    decreases layout.len() - layout_i, if layout_i < layout.len() {
        layout[layout_i].glyphs@.len() - glyph_i
    } else {
        0
    },
{
    if layout_i >= layout.len() {
    } else if glyph_i >= layout[layout_i].glyphs@.len() {
        find_glyph_is_first(layout, cursor, layout_i + 1, 0);
    } else if glyph_slot(layout[layout_i].glyphs@[glyph_i], cursor) is Some {
    } else {
        find_glyph_is_first(layout, cursor, layout_i, glyph_i + 1);
    }
}

/// Where `cursor` sits in `layout`: at the slot of the first glyph at a
/// side of which it sits, in front of the glyph or behind it; and at the
/// start of the line if there is no such glyph.
pub open spec fn layout_cursor_in(layout: Seq<LayoutLine>, cursor: Cursor) -> LayoutCursor {
    match find_glyph(layout, cursor, 0, 0) {
        Some(found) => LayoutCursor {
            line: cursor.line,
            layout: found.0 as usize,
            glyph: (found.1 + glyph_slot(layout[found.0].glyphs@[found.1], cursor)->0) as usize,
        },
        None => LayoutCursor { line: cursor.line, layout: 0, glyph: 0 },
    }
}

/// Index, counted from the first layout line of the buffer, of the layout
/// line that holds `cursor`; the number of all layout lines if the cursor
/// is on no line of the buffer.
pub open spec fn cursor_layout_index(lines: Seq<TextLayoutLine>, cursor: Cursor) -> int {
    if cursor.line < lines.len() {
        layout_count(lines, cursor.line as int) + layout_cursor_in(
            lines[cursor.line as int].layout_cache()->0@,
            cursor,
        ).layout
    } else {
        total_layout_lines(lines)
    }
}

/// The scroll offset that brings the layout line of `cursor` into a view
/// of the height `height` that was scrolled by `scroll`. A layout line
/// above the view becomes the first in view. A layout line below the view
/// becomes the last in view: the view is scrolled down until the layout
/// lines from its top to that of the cursor fit into it. A cursor on no
/// line of the buffer counts as behind the text and does not scroll down.
pub open spec fn scroll_for_cursor(lines: Seq<TextLayoutLine>, cursor: Cursor, scroll: int, height: int) -> int {
    let target = cursor_layout_index(lines, cursor);
    if target < scroll {
        target
    } else if cursor.line >= lines.len() || target > i32::MAX {
        scroll
    } else {
        scroll_down_from(flat_heights(lines, cursor.line + 1), scroll, target, height, target)
    }
}

/// The scroll offset for a cursor depends on the lines up to the line of
/// the cursor only.
pub proof fn scroll_for_cursor_agrees(
    a: Seq<TextLayoutLine>,
    b: Seq<TextLayoutLine>,
    cursor: Cursor,
    scroll: int,
    height: int,
)
    requires
        a.len() == b.len(),
        forall|i: int| 0 <= i < a.len() && i <= cursor.line ==> #[trigger] a[i] == b[i],
    ensures
        scroll_for_cursor(a, cursor, scroll, height) == scroll_for_cursor(b, cursor, scroll, height),
{
    if cursor.line < a.len() {
        layout_count_agrees(a, b, cursor.line as int);
        flat_heights_agree(a, b, cursor.line + 1);
    } else {
        layout_count_agrees(a, b, a.len() as int);
    }
}

/// One line more has a line without shape among the first, if the lines
/// in front have one or the line itself has no shape.
pub proof fn any_unshaped_step(lines: Seq<TextLayoutLine>, i: int)
    requires
        0 <= i < lines.len(),
    ensures
        any_unshaped(lines, i + 1) == (any_unshaped(lines, i) || lines[i].shape_cache() is None),
{
    if any_unshaped(lines, i) {
        let w = choose|w: int|
            0 <= w < lines.len() && w < i && (#[trigger] lines[w]).shape_cache() is None;
        assert(lines[w].shape_cache() is None);
    }
    if any_unshaped(lines, i + 1) {
        let w = choose|w: int|
            0 <= w < lines.len() && w < i + 1 && (#[trigger] lines[w]).shape_cache() is None;
        if w < i {
            assert(lines[w].shape_cache() is None);
        }
    }
    if lines[i].shape_cache() is None {
        assert(any_unshaped(lines, i + 1));
    }
}

/// The lines that a buffer holds for the text `bytes` with the attributes
/// `attrs`. There is one line more than there are line feeds. Line `i`
/// holds the text of line `i`, starts at the offset of that line in the
/// text, and has the attributes of the offsets of the line and its line
/// feed, counted from the start of the line.
pub open spec fn holds_text(lines: Seq<TextLayoutLine>, bytes: Seq<u8>, attrs: AttrsListView) -> bool {
    &&& lines.len() == count_lf(bytes) + 1
    &&& lines.len() == text_lines(bytes).len()
    &&& forall|i: int|
        0 <= i < lines.len() ==> {
            &&& (#[trigger] lines[i]).text_bytes() == text_lines(bytes)[i]
            &&& lines[i].start() == line_start(bytes, i)
            &&& lines[i].attrs() == attrs.tail(line_start(bytes, i)).head(
                raw_lines(bytes)[i].len() as int + 1,
            )
        }
}

/// A buffer of text that is shaped and laid out line by line.
pub struct TextLayout {
    /// The lines (paragraphs) of the text.
    pub lines: Vec<TextLayoutLine>,
    width: i32,
    height: i32,
    scroll: i32,
    redraw: bool,
    wrap: Wrap,
}

impl View for TextLayout {
    type V = TextLayoutView;

    closed spec fn view(&self) -> TextLayoutView {
        TextLayoutView {
            lines: self.lines@,
            width: self.width,
            height: self.height,
            scroll: self.scroll,
            redraw: self.redraw,
            wrap: self.wrap,
        }
    }
}

impl TextLayoutView {
    /// Whether there is at least one line, every line is well formed, and
    /// width and height are not negative.
    pub open spec fn holds_lines(self) -> bool {
        &&& self.lines.len() >= 1
        &&& forall|i: int| 0 <= i < self.lines.len() ==> (#[trigger] self.lines[i]).wf()
        &&& self.width >= 0
        &&& self.height >= 0
    }

    /// Whether every cached layout was asked for the width and the wrap
    /// mode that the buffer has now.
    pub open spec fn layouts_are_current(self) -> bool {
        forall|i: int|
            0 <= i < self.lines.len() && (#[trigger] self.lines[i]).layout_cache() is Some
                ==> self.lines[i].layout_asked() == (self.width, self.wrap)
    }

    /// The invariant of a buffer: it holds lines, and the layouts that are
    /// cached are those for its width and wrap mode.
    pub open spec fn wf(self) -> bool {
        self.holds_lines() && self.layouts_are_current()
    }

    /// Whether the scroll offset is not negative and leaves at least one
    /// cached layout line in view, or is 0 where none is cached.
    pub open spec fn scroll_in_range(self) -> bool {
        0 <= self.scroll && (self.scroll <= total_layout_lines(self.lines) - 1 || self.scroll == 0)
    }

    /// Whether `other` has the same size, scroll offset and wrap mode.
    pub open spec fn same_settings(self, other: TextLayoutView) -> bool {
        &&& self.width == other.width
        &&& self.height == other.height
        &&& self.scroll == other.scroll
        &&& self.wrap == other.wrap
    }
}

/// The count of layout lines grows with the number of lines counted.
pub proof fn layout_count_monotonic(lines: Seq<TextLayoutLine>, a: int, b: int)
    requires
        a <= b,
    ensures
        0 <= layout_count(lines, a) <= layout_count(lines, b),
    decreases b,
{
    if b <= 0 {
    } else if a == b {
        layout_count_monotonic(lines, a - 1, a - 1);
    } else {
        layout_count_monotonic(lines, a, b - 1);
    }
}

/// The count of layout lines of the first `n` lines depends on those lines only.
pub proof fn layout_count_agrees(a: Seq<TextLayoutLine>, b: Seq<TextLayoutLine>, n: int)
    requires
        n <= a.len(),
        n <= b.len(),
        forall|i: int| 0 <= i < n ==> (#[trigger] a[i]).layout_cache() == b[i].layout_cache(),
    ensures
        layout_count(a, n) == layout_count(b, n),
    decreases n,
{
    if n > 0 {
        layout_count_agrees(a, b, n - 1);
    }
}

/// What holds of the number of lines needed: it is a number of lines, no
/// smaller number of lines holds `wanted` layout lines, and it holds that
/// many unless it is the number of all lines.
pub proof fn lines_needed_is_least(lines: Seq<TextLayoutLine>, wanted: int, from: int)
    requires
        0 <= from <= lines.len(),
        forall|j: int| 0 <= j < from ==> layout_count(lines, j) < wanted,
    ensures
        from <= lines_needed_from(lines, wanted, from) <= lines.len(),
        forall|j: int|
            0 <= j < lines_needed_from(lines, wanted, from) ==> layout_count(lines, j) < wanted,
        lines_needed_from(lines, wanted, from) == lines.len() || layout_count(
            lines,
            lines_needed_from(lines, wanted, from),
        ) >= wanted,
    decreases lines.len() - from,
{
    if from >= lines.len() || layout_count(lines, from) >= wanted {
    } else {
        lines_needed_is_least(lines, wanted, from + 1);
    }
}

/// A number of lines that is the least to hold `wanted` layout lines, or
/// is the number of all lines while fewer hold too little, is the number
/// of lines needed.
pub proof fn lines_needed_unique(lines: Seq<TextLayoutLine>, wanted: int, k: int)
    requires
        0 <= k <= lines.len(),
        forall|j: int| 0 <= j < k ==> layout_count(lines, j) < wanted,
        k == lines.len() || layout_count(lines, k) >= wanted,
    ensures
        lines_needed(lines, wanted) == k,
{
    lines_needed_is_least(lines, wanted, 0);
    let n = lines_needed(lines, wanted);
    if n < k {
        assert(layout_count(lines, n) < wanted);
    } else if k < n {
        assert(layout_count(lines, k) < wanted);
    }
}

/// A change of one line that does not take layout lines from it takes
/// none from the buffer.
proof fn line_change_keeps_count(before: Seq<TextLayoutLine>, after: Seq<TextLayoutLine>, at: int)
    requires
        after.len() == before.len(),
        0 <= at < before.len(),
        forall|i: int| 0 <= i < before.len() && i != at ==> #[trigger] after[i] == before[i],
        before[at].layout_len() <= after[at].layout_len(),
    ensures
        total_layout_lines(before) <= total_layout_lines(after),
{
    line_change_keeps_prefix(before, after, at, before.len() as int);
}

/// The count over the first `n` lines does not fall by such a change.
proof fn line_change_keeps_prefix(
    before: Seq<TextLayoutLine>,
    after: Seq<TextLayoutLine>,
    at: int,
    n: int,
)
    requires
        after.len() == before.len(),
        0 <= at < before.len(),
        n <= before.len(),
        forall|i: int| 0 <= i < before.len() && i != at ==> #[trigger] after[i] == before[i],
        before[at].layout_len() <= after[at].layout_len(),
    ensures
        layout_count(before, n) <= layout_count(after, n),
    decreases n,
{
    if n > 0 {
        line_change_keeps_prefix(before, after, at, n - 1);
        if n - 1 != at {
            assert(after[n - 1] == before[n - 1]);
        }
    }
}

/// Laying out lines takes no layout line away: the first `n` lines hold
/// at least as many layout lines as before.
pub proof fn laying_out_adds_lines(
    before: Seq<TextLayoutLine>,
    after: Seq<TextLayoutLine>,
    k: int,
    n: int,
)
    requires
        laid_out_prefix(before, after, k),
        n <= before.len(),
    ensures
        layout_count(before, n) <= layout_count(after, n),
    decreases n,
{
    if n > 0 {
        laying_out_adds_lines(before, after, k, n - 1);
        let i = n - 1;
        if i < k {
            assert(after[i].state() == LineState::Wrapped);
        } else {
            assert(after[i] == before[i]);
        }
    }
}

/// Laying out lines leaves a scroll offset in its range.
pub proof fn laying_out_keeps_scroll(before: TextLayoutView, after: TextLayoutView, k: int)
    requires
        laid_out_prefix(before.lines, after.lines, k),
        after.scroll == before.scroll,
        before.scroll_in_range(),
    ensures
        after.scroll_in_range(),
{
    laying_out_adds_lines(before.lines, after.lines, k, before.lines.len() as int);
}

/// Laying out a prefix and then a second prefix lays out the longer of the two.
pub proof fn laid_out_prefix_twice(
    a: Seq<TextLayoutLine>,
    b: Seq<TextLayoutLine>,
    c: Seq<TextLayoutLine>,
    k1: int,
    k2: int,
)
    requires
        laid_out_prefix(a, b, k1),
        laid_out_prefix(b, c, k2),
    ensures
        laid_out_prefix(a, c, if k1 >= k2 { k1 } else { k2 }),
{
    let k = if k1 >= k2 { k1 } else { k2 };
    assert forall|i: int| 0 <= i < c.len() implies (#[trigger] c[i]).same_content(a[i]) by {
        assert(b[i].same_content(a[i]));
    }
    assert forall|i: int| 0 <= i < c.len() && i < k implies {
        &&& (#[trigger] c[i]).state() == LineState::Wrapped
        &&& a[i].shape_cache() is Some ==> c[i].shape_cache() == a[i].shape_cache()
        &&& a[i].layout_cache() is Some ==> c[i] == a[i]
    } by {
        assert(b[i].same_content(a[i]));
        if i < k1 {
            assert(b[i].state() == LineState::Wrapped);
            if i < k2 {
                assert(c[i].state() == LineState::Wrapped);
            } else {
                assert(c[i] == b[i]);
            }
        } else {
            assert(b[i] == a[i]);
            assert(c[i].state() == LineState::Wrapped);
        }
    }
    assert forall|i: int| 0 <= i < c.len() && i >= k implies #[trigger] c[i] == a[i] by {
        assert(b[i] == a[i]);
        assert(c[i] == b[i]);
    }
}

impl TextLayout {
    /// The wrap mode.
    pub fn wrap(&self) -> (wrap: Wrap)
        ensures
            wrap == self@.wrap,
    {
        self.wrap
    }

    /// The scroll offset: the number of layout lines above the view.
    pub fn scroll(&self) -> (scroll: i32)
        ensures
            scroll == self@.scroll,
    {
        self.scroll
    }

    /// Whether the buffer has changed since the flag was last cleared.
    pub fn redraw(&self) -> (redraw: bool)
        ensures
            redraw == self@.redraw,
    {
        self.redraw
    }

    /// Sets or clears the flag that asks for a redraw.
    pub fn set_redraw(&mut self, redraw: bool)
        ensures
            final(self)@ == (TextLayoutView { redraw, ..old(self)@ }),
    {
        self.redraw = redraw;
    }

    /// The lines of the buffer.
    pub fn lines(&self) -> (lines: &Vec<TextLayoutLine>)
        ensures
            lines@ == self@.lines,
    {
        &self.lines
    }

    /// Tests the invariant of the buffer, for a caller that has changed
    /// the lines: there is a line, width and height are not negative, and
    /// every cached layout is one for the width and wrap mode of the buffer.
    /// The lines themselves keep their own invariant.
    pub fn is_well_formed(&self) -> (ok: bool)
        requires
            forall|i: int| 0 <= i < self@.lines.len() ==> (#[trigger] self@.lines[i]).wf(),
        ensures
            ok == self@.wf(),
    {
        if self.lines.len() == 0 || self.width < 0 || self.height < 0 {
            return false;
        }
        let mut i: usize = 0;
        while i < self.lines.len()
            invariant
                i <= self.lines.len(),
                forall|j: int|
                    0 <= j < i && (#[trigger] self@.lines[j]).layout_cache() is Some
                        ==> self@.lines[j].layout_asked() == (self@.width, self@.wrap),
            decreases self.lines.len() - i,
        {
            match self.lines[i].layout_asked_for() {
                Some((width, wrap)) => {
                    if width != self.width || wrap != self.wrap {
                        return false;
                    }
                },
                None => {},
            }
            i += 1;
        }
        true
    }

    /// Width and height of the view.
    pub fn view_size(&self) -> (size: (i32, i32))
        ensures
            size == (self@.width, self@.height),
    {
        (self.width, self.height)
    }

    /// Lays out lines in order until `lines` layout lines are there, and
    /// returns the number of layout lines of the lines it went through,
    /// capped at `i32::MAX`.
    pub fn shape_until<S: Shaper>(&mut self, shaper: &mut S, lines: i32) -> (total: i32)
        requires
            old(self)@.wf(),
        ensures
            final(self)@.wf(),
            final(self)@.same_settings(old(self)@),
            laid_out_prefix(
                old(self)@.lines,
                final(self)@.lines,
                lines_needed(final(self)@.lines, lines as int),
            ),
            total == capped(
                layout_count(final(self)@.lines, lines_needed(final(self)@.lines, lines as int)),
            ),
            final(self)@.redraw == (old(self)@.redraw || any_unshaped(
                old(self)@.lines,
                lines_needed(final(self)@.lines, lines as int),
            )),
            old(self)@.scroll_in_range() ==> final(self)@.scroll_in_range(),
    {
        let mut reshaped = false;
        let mut total_layout: i32 = 0;
        let mut i: usize = 0;
        while i < self.lines.len() && total_layout < lines
            invariant
                self@.wf(),
                self@.same_settings(old(self)@),
                self@.redraw == old(self)@.redraw,
                i <= self.lines.len(),
                laid_out_prefix(old(self)@.lines, self@.lines, i as int),
                total_layout == capped(layout_count(self@.lines, i as int)),
                0 <= total_layout,
                forall|j: int| 0 <= j < i ==> layout_count(self@.lines, j) < lines,
                reshaped == any_unshaped(old(self)@.lines, i as int),
            decreases self.lines.len() - i,
        {
            let ghost before = self@.lines;
            if self.lines[i].shape_opt().is_none() {
                reshaped = true;
            }
            let width = self.width;
            let wrap = self.wrap;
            let count = self.lines[i].layout(shaper, width, wrap).len();
            proof {
                let after = self@.lines;
                assert(after[i as int].layout_len() == count);
                assert forall|j: int| 0 <= j < after.len() && j != i implies after[j]
                    == before[j] by {}
                layout_count_agrees(before, after, i as int);
                assert forall|j: int| 0 <= j < i + 1 implies layout_count(after, j) < lines by {
                    layout_count_agrees(before, after, j);
                }
                assert(before[i as int] == old(self)@.lines[i as int]);
                assert(layout_count(after, i + 1) == layout_count(after, i as int) + count);
                layout_count_monotonic(after, 0, i as int);
                any_unshaped_step(old(self)@.lines, i as int);
            }
            if count > (i32::MAX - total_layout) as usize {
                total_layout = i32::MAX;
            } else {
                total_layout = total_layout + count as i32;
            }
            i += 1;
        }
        proof {
            lines_needed_unique(self@.lines, lines as int, i as int);
            if old(self)@.scroll_in_range() {
                laying_out_keeps_scroll(old(self)@, self@, i as int);
            }
        }
        if reshaped {
            self.redraw = true;
        }
        total_layout
    }

    /// The number of cached layout lines of all the lines, capped at `i32::MAX`.
    pub fn cached_layout_lines(&self) -> (total: i32)
        ensures
            total == capped(total_layout_lines(self@.lines)),
            0 <= total,
    {
        let total = self.count_layout_lines(self.lines.len());
        if total > i32::MAX as i64 {
            i32::MAX
        } else {
            total as i32
        }
    }

    /// Moves the scroll offset into the range that `total` layout lines allow.
    fn clamp_scroll_to(&mut self, total: i64)
        requires
            0 <= total,
        ensures
            final(self)@ == (TextLayoutView {
                scroll: clamp_scroll(old(self)@.scroll as int, total as int) as i32,
                ..old(self)@
            }),
            final(self)@.scroll == clamp_scroll(old(self)@.scroll as int, total as int),
    {
        if self.scroll as i64 > total - 1 {
            self.scroll = if total - 1 < 0 {
                0
            } else {
                (total - 1) as i32
            };
        } else if self.scroll < 0 {
            self.scroll = 0;
        }
    }

    /// Lays out the lines that the view at the scroll offset needs: line by
    /// line, until the layout lines behind those scrolled past reach below
    /// the view. Then moves the scroll offset into the range of the layout
    /// lines of the buffer: an offset in that range is kept, a negative one
    /// becomes 0, and one behind the last layout line becomes its number.
    pub fn shape_until_scroll<S: Shaper>(&mut self, shaper: &mut S)
        requires
            old(self)@.wf(),
        ensures
            final(self)@.wf(),
            final(self)@.width == old(self)@.width,
            final(self)@.height == old(self)@.height,
            final(self)@.wrap == old(self)@.wrap,
            laid_out_prefix(
                old(self)@.lines,
                final(self)@.lines,
                view_reach(final(self)@.lines, old(self)@.scroll as int, old(self)@.height as int),
            ),
            final(self)@.scroll == clamp_scroll(
                old(self)@.scroll as int,
                layout_count(
                    final(self)@.lines,
                    view_reach(
                        final(self)@.lines,
                        old(self)@.scroll as int,
                        old(self)@.height as int,
                    ),
                ),
            ),
            final(self)@.scroll == clamp_scroll(
                old(self)@.scroll as int,
                total_layout_lines(final(self)@.lines),
            ),
            final(self)@.scroll_in_range(),
            final(self)@.redraw == (old(self)@.redraw || any_unshaped(
                old(self)@.lines,
                view_reach(final(self)@.lines, old(self)@.scroll as int, old(self)@.height as int),
            )),
    {
        let scroll: i64 = if self.scroll > 0 {
            self.scroll as i64
        } else {
            0
        };
        let height = self.height;
        let mut reshaped = false;
        let mut total: i64 = 0;
        let mut filled: i64 = 0;
        let mut i: usize = 0;
        while i < self.lines.len() && filled <= height as i64
            invariant
                self@.wf(),
                self@.same_settings(old(self)@),
                self@.redraw == old(self)@.redraw,
                height == self@.height,
                scroll == lines_above(old(self)@.scroll as int),
                i <= self.lines.len(),
                laid_out_prefix(old(self)@.lines, self@.lines, i as int),
                total == capped_wide(layout_count(self@.lines, i as int)),
                0 <= total,
                0 <= filled <= height + 0x2_0000_0000,
                filled <= height ==> filled == height_in_view(self@.lines, i as int, scroll as int),
                filled > height ==> height_in_view(self@.lines, i as int, scroll as int) > height,
                forall|n: int|
                    0 <= n < i ==> height_in_view(self@.lines, n, scroll as int) <= height,
                reshaped == any_unshaped(old(self)@.lines, i as int),
            decreases self.lines.len() - i,
        {
            let ghost before = self@.lines;
            if self.lines[i].shape_opt().is_none() {
                reshaped = true;
            }
            let width = self.width;
            let wrap = self.wrap;
            self.lines[i].layout(shaper, width, wrap);
            let skip: usize = if total >= scroll {
                0
            } else {
                (scroll - total) as usize
            };
            let (count, sum) = match self.lines[i].layout_opt() {
                Some(layout) => (layout.len(), add_line_heights(layout, skip, filled, height)),
                None => (0, filled),
            };
            proof {
                let after = self@.lines;
                assert(after[i as int].layout_len() == count);
                assert forall|j: int| 0 <= j < after.len() && j != i implies after[j]
                    == before[j] by {}
                layout_count_agrees(before, after, i as int);
                flat_heights_agree(before, after, i as int);
                assert forall|n: int| 0 <= n < i + 1 implies height_in_view(
                    after,
                    n,
                    scroll as int,
                ) <= height by {
                    flat_heights_agree(before, after, n);
                    assert(height_in_view(after, n, scroll as int) == height_in_view(
                        before,
                        n,
                        scroll as int,
                    ));
                    if n == i {
                        assert(height_in_view(before, i as int, scroll as int) == filled);
                    }
                }
                assert(before[i as int] == old(self)@.lines[i as int]);
                assert(layout_count(after, i + 1) == layout_count(after, i as int) + count);
                layout_count_monotonic(after, 0, i as int);
                any_unshaped_step(old(self)@.lines, i as int);
                height_in_view_step(after, i as int, scroll as int);
                assert(sum_from(line_heights(after[i as int]), skip as int) == sum_from(
                    line_heights(after[i as int]),
                    scroll - layout_count(after, i as int),
                ));
            }
            filled = sum;
            total = if count as u64 > (i64::MAX - total) as u64 {
                i64::MAX
            } else {
                total + count as i64
            };
            i += 1;
        }
        let ghost reach = i as int;
        proof {
            view_reach_unique(self@.lines, scroll as int, height as int, reach);
            layout_count_monotonic(self@.lines, reach, self@.lines.len() as int);
            layout_count_monotonic(self@.lines, 0, reach);
            if reach < self@.lines.len() {
                // The view is filled, so a layout line lies behind the scroll offset.
                flat_heights_count(self@.lines, reach);
                assert(sum_from(flat_heights(self@.lines, reach), scroll as int) > 0);
                assert(layout_count(self@.lines, reach) > scroll);
            }
        }
        if reshaped {
            self.redraw = true;
        }
        self.clamp_scroll_to(total);
    }

    /// Sets the scroll offset, moved into the range that the cached layout
    /// lines allow.
    pub fn set_scroll(&mut self, scroll: i32)
        ensures
            final(self)@.lines == old(self)@.lines,
            final(self)@.width == old(self)@.width,
            final(self)@.height == old(self)@.height,
            final(self)@.wrap == old(self)@.wrap,
            final(self)@.scroll == clamp_scroll(scroll as int, total_layout_lines(old(self)@.lines)),
            final(self)@.scroll_in_range(),
            final(self)@.redraw == (old(self)@.redraw || final(self)@.scroll != old(self)@.scroll),
    {
        let total = self.count_layout_lines(self.lines.len());
        let before = self.scroll;
        self.scroll = scroll;
        proof {
            layout_count_monotonic(self@.lines, 0, self@.lines.len() as int);
        }
        self.clamp_scroll_to(total);
        if self.scroll != before {
            self.redraw = true;
        }
    }

    /// Lays out the first `count` lines. Tells whether one of them had no shape.
    fn layout_lines<S: Shaper>(&mut self, shaper: &mut S, count: usize) -> (reshaped: bool)
        requires
            old(self)@.wf(),
            count <= old(self)@.lines.len(),
        ensures
            final(self)@.wf(),
            final(self)@.same_settings(old(self)@),
            final(self)@.redraw == old(self)@.redraw,
            laid_out_prefix(old(self)@.lines, final(self)@.lines, count as int),
            reshaped == any_unshaped(old(self)@.lines, count as int),
    {
        let mut reshaped = false;
        let mut i: usize = 0;
        while i < count
            invariant
                self@.wf(),
                self@.same_settings(old(self)@),
                self@.redraw == old(self)@.redraw,
                i <= count <= self.lines.len(),
                laid_out_prefix(old(self)@.lines, self@.lines, i as int),
                reshaped == any_unshaped(old(self)@.lines, i as int),
            decreases count - i,
        {
            let ghost before = self@.lines;
            if self.lines[i].shape_opt().is_none() {
                reshaped = true;
            }
            let width = self.width;
            let wrap = self.wrap;
            self.lines[i].layout(shaper, width, wrap);
            proof {
                let after = self@.lines;
                assert forall|j: int| 0 <= j < after.len() && j != i implies after[j]
                    == before[j] by {}
                assert(before[i as int] == old(self)@.lines[i as int]);
                any_unshaped_step(old(self)@.lines, i as int);
            }
            i += 1;
        }
        reshaped
    }

    /// The number of cached layout lines of the first `count` lines, kept
    /// within the range of `i64`.
    fn count_layout_lines(&self, count: usize) -> (total: i64)
        requires
            count <= self@.lines.len(),
        ensures
            total == capped_wide(layout_count(self@.lines, count as int)),
            0 <= total,
    {
        let mut total: i64 = 0;
        let mut i: usize = 0;
        while i < count
            invariant
                i <= count <= self.lines.len(),
                total == capped_wide(layout_count(self@.lines, i as int)),
                0 <= total,
            decreases count - i,
        {
            let n = match self.lines[i].layout_opt() {
                Some(layout) => layout.len(),
                None => 0,
            };
            proof {
                assert(self@.lines[i as int].layout_len() == n);
                layout_count_monotonic(self@.lines, 0, i as int);
            }
            total = if n as u64 > (i64::MAX - total) as u64 {
                i64::MAX
            } else {
                total + n as i64
            };
            i += 1;
        }
        total
    }

    /// Wraps anew every line that has a shape, for the width and wrap mode
    /// that the buffer has now.
    fn relayout<S: Shaper>(&mut self, shaper: &mut S)
        requires
            old(self)@.holds_lines(),
        ensures
            final(self)@.wf(),
            final(self)@.same_settings(old(self)@),
            final(self)@.redraw,
            rewrapped(old(self)@.lines, final(self)@.lines, 0),
    {
        let mut i: usize = 0;
        while i < self.lines.len()
            invariant
                self@.holds_lines(),
                self@.same_settings(old(self)@),
                i <= self.lines.len(),
                self@.lines.len() == old(self)@.lines.len(),
                forall|j: int|
                    0 <= j < self@.lines.len() ==> (#[trigger] self@.lines[j]).same_content(
                        old(self)@.lines[j],
                    ),
                forall|j: int|
                    0 <= j < i && old(self)@.lines[j].shape_cache() is Some ==> (
                    #[trigger] self@.lines[j]).state() == LineState::Wrapped
                        && self@.lines[j].shape_cache() == old(self)@.lines[j].shape_cache()
                        && self@.lines[j].layout_asked() == (self@.width, self@.wrap),
                forall|j: int|
                    0 <= j < i && old(self)@.lines[j].shape_cache() is None
                        ==> #[trigger] self@.lines[j] == old(self)@.lines[j],
                forall|j: int|
                    i <= j < self@.lines.len() ==> #[trigger] self@.lines[j] == old(self)@.lines[j],
            decreases self.lines.len() - i,
        {
            if self.lines[i].shape_opt().is_some() {
                let ghost before = self@.lines;
                let width = self.width;
                let wrap = self.wrap;
                self.lines[i].reset_layout();
                self.lines[i].layout(shaper, width, wrap);
                proof {
                    let after = self@.lines;
                    assert forall|j: int| 0 <= j < after.len() && j != i implies after[j]
                        == before[j] by {}
                }
            }
            i += 1;
        }
        self.redraw = true;
        proof {
            assert forall|j: int|
                0 <= j < self@.lines.len() && (#[trigger] self@.lines[j]).layout_cache() is Some implies self@.lines[j].layout_asked()
                == (self@.width, self@.wrap) by {
                old(self)@.lines[j].layout_has_shape();
            }
        }
    }

    /// Sets the wrap mode. A new mode has every shaped line wrapped anew
    /// and the view laid out again.
    pub fn set_wrap<S: Shaper>(&mut self, shaper: &mut S, wrap: Wrap)
        requires
            old(self)@.wf(),
        ensures
            final(self)@.wf(),
            old(self)@.scroll_in_range() ==> final(self)@.scroll_in_range(),
            wrap == old(self)@.wrap ==> final(self)@ == old(self)@,
            wrap != old(self)@.wrap ==> {
                let k = view_reach(
                    final(self)@.lines,
                    old(self)@.scroll as int,
                    final(self)@.height as int,
                );
                &&& final(self)@.wrap == wrap
                &&& final(self)@.width == old(self)@.width
                &&& final(self)@.height == old(self)@.height
                &&& final(self)@.redraw
                &&& rewrapped(old(self)@.lines, final(self)@.lines, k)
                &&& final(self)@.scroll == clamp_scroll(
                    old(self)@.scroll as int,
                    layout_count(final(self)@.lines, k),
                )
                &&& final(self)@.scroll_in_range()
            },
    {
        if wrap != self.wrap {
            self.wrap = wrap;
            self.relayout(shaper);
            self.shape_until_scroll(shaper);
        }
    }

    /// Sets the size of the view; a negative width or height counts as 0.
    /// A new size has every shaped line wrapped anew and the view laid out
    /// again.
    pub fn set_size<S: Shaper>(&mut self, shaper: &mut S, width: i32, height: i32)
        requires
            old(self)@.wf(),
        ensures
            final(self)@.wf(),
            old(self)@.scroll_in_range() ==> final(self)@.scroll_in_range(),
            final(self)@.width == (if width < 0 { 0 } else { width }),
            final(self)@.height == (if height < 0 { 0 } else { height }),
            final(self)@.width == old(self)@.width && final(self)@.height == old(self)@.height
                ==> final(self)@ == old(self)@,
            final(self)@.width != old(self)@.width || final(self)@.height != old(self)@.height
                ==> {
                let k = view_reach(
                    final(self)@.lines,
                    old(self)@.scroll as int,
                    final(self)@.height as int,
                );
                &&& final(self)@.wrap == old(self)@.wrap
                &&& final(self)@.redraw
                &&& rewrapped(old(self)@.lines, final(self)@.lines, k)
                &&& final(self)@.scroll == clamp_scroll(
                    old(self)@.scroll as int,
                    layout_count(final(self)@.lines, k),
                )
                &&& final(self)@.scroll_in_range()
            },
    {
        let clamped_width = if width < 0 {
            0
        } else {
            width
        };
        let clamped_height = if height < 0 {
            0
        } else {
            height
        };
        if clamped_width != self.width || clamped_height != self.height {
            self.width = clamped_width;
            self.height = clamped_height;
            self.relayout(shaper);
            self.shape_until_scroll(shaper);
        }
    }

    /// The shape of line `line_i`, made if it is not cached; nothing if
    /// there is no such line.
    pub fn line_shape<S: Shaper>(&mut self, shaper: &mut S, line_i: usize) -> (shape: Option<
        &ShapeLine,
    >)
        requires
            old(self)@.wf(),
        ensures
            final(self)@.wf(),
            final(self)@.same_settings(old(self)@),
            final(self)@.redraw == old(self)@.redraw,
            final(self)@.lines.len() == old(self)@.lines.len(),
            old(self)@.scroll_in_range() ==> final(self)@.scroll_in_range(),
            shape is Some <==> line_i < old(self)@.lines.len(),
            forall|i: int|
                0 <= i < final(self)@.lines.len() && i != line_i ==> #[trigger] final(self)@.lines[i] == old(self)@.lines[i],
            line_i < old(self)@.lines.len() ==> {
                let line = final(self)@.lines[line_i as int];
                let before = old(self)@.lines[line_i as int];
                &&& line.same_content(before)
                &&& line.shape_cache() == Some(*shape->0)
                &&& before.shape_cache() is Some ==> line == before
                &&& before.shape_cache() is None ==> line.layout_cache() is None
            },
    {
        if line_i >= self.lines.len() {
            return None;
        }
        let ghost before = self@;
        self.lines[line_i].shape(shaper);
        proof {
            before.lines[line_i as int].layout_has_shape();
            if before.scroll_in_range() {
                line_change_keeps_count(before.lines, self@.lines, line_i as int);
            }
        }
        match self.lines[line_i].shape_opt() {
            Some(shape) => Some(shape),
            None => None,
        }
    }

    /// The layout of line `line_i`, made if it is not cached; nothing if
    /// there is no such line.
    pub fn line_layout<S: Shaper>(&mut self, shaper: &mut S, line_i: usize) -> (layout: Option<
        &Vec<LayoutLine>,
    >)
        requires
            old(self)@.wf(),
        ensures
            final(self)@.wf(),
            final(self)@.same_settings(old(self)@),
            final(self)@.redraw == old(self)@.redraw,
            final(self)@.lines.len() == old(self)@.lines.len(),
            old(self)@.scroll_in_range() ==> final(self)@.scroll_in_range(),
            layout is Some <==> line_i < old(self)@.lines.len(),
            forall|i: int|
                0 <= i < final(self)@.lines.len() && i != line_i ==> #[trigger] final(self)@.lines[i] == old(self)@.lines[i],
            line_i < old(self)@.lines.len() ==> {
                let line = final(self)@.lines[line_i as int];
                let before = old(self)@.lines[line_i as int];
                &&& line.same_content(before)
                &&& line.state() == LineState::Wrapped
                &&& line.layout_cache() == Some(*layout->0)
                &&& before.shape_cache() is Some ==> line.shape_cache() == before.shape_cache()
                &&& before.layout_cache() is Some ==> line == before
            },
    {
        if line_i >= self.lines.len() {
            return None;
        }
        let width = self.width;
        let wrap = self.wrap;
        let ghost before = self@;
        self.lines[line_i].layout(shaper, width, wrap);
        proof {
            if before.scroll_in_range() {
                line_change_keeps_count(before.lines, self@.lines, line_i as int);
            }
        }
        match self.lines[line_i].layout_opt() {
            Some(layout) => Some(layout),
            None => None,
        }
    }

    /// Where `cursor` sits in the layout of its line: the layout line and
    /// the slot between its glyphs. A cursor that sits at no slot is put at
    /// the start of the line. The line of the cursor must be laid out.
    pub fn layout_cursor(&self, cursor: &Cursor) -> (at: LayoutCursor)
        requires
            cursor.line < self@.lines.len(),
            self@.lines[cursor.line as int].layout_cache() is Some,
        ensures
            at == layout_cursor_in(self@.lines[cursor.line as int].layout_cache()->0@, *cursor),
            at.layout == 0 || at.layout < self@.lines[cursor.line as int].layout_len(),
    {
        let layout = match self.lines[cursor.line].layout_opt() {
            Some(layout) => layout,
            None => {
                return LayoutCursor::new(cursor.line, 0, 0);
            },
        };
        let mut layout_i: usize = 0;
        while layout_i < layout.len()
            invariant
                layout_i <= layout.len(),
                cursor.line < self@.lines.len(),
                self@.lines[cursor.line as int].layout_cache() == Some(*layout),
                find_glyph(layout@, *cursor, 0, 0) == find_glyph(layout@, *cursor, layout_i as int, 0),
            decreases layout.len() - layout_i,
        {
            let glyphs = &layout[layout_i].glyphs;
            let mut glyph_i: usize = 0;
            while glyph_i < glyphs.len()
                invariant
                    layout_i < layout.len(),
                    cursor.line < self@.lines.len(),
                    self@.lines[cursor.line as int].layout_cache() == Some(*layout),
                    glyphs@ == layout@[layout_i as int].glyphs@,
                    glyph_i <= glyphs.len(),
                    find_glyph(layout@, *cursor, 0, 0) == find_glyph(
                        layout@,
                        *cursor,
                        layout_i as int,
                        glyph_i as int,
                    ),
                decreases glyphs.len() - glyph_i,
            {
                let glyph = glyphs[glyph_i];
                let cursor_end = Cursor::new_with_affinity(cursor.line, glyph.end, Affinity::Before);
                let cursor_start = Cursor::new_with_affinity(
                    cursor.line,
                    glyph.start,
                    Affinity::After,
                );
                let (cursor_left, cursor_right) = if glyph.is_ltr() {
                    (cursor_start, cursor_end)
                } else {
                    (cursor_end, cursor_start)
                };
                if *cursor == cursor_left {
                    return LayoutCursor::new(cursor.line, layout_i, glyph_i);
                }
                if *cursor == cursor_right {
                    return LayoutCursor::new(cursor.line, layout_i, glyph_i + 1);
                }
                glyph_i += 1;
            }
            layout_i += 1;
        }
        LayoutCursor::new(cursor.line, 0, 0)
    }

    /// Lays out the lines up to the line of `cursor`, scrolls so that the
    /// layout line of the cursor is in view, and lays out what the view
    /// then needs.
    pub fn shape_until_cursor<S: Shaper>(&mut self, shaper: &mut S, cursor: Cursor)
        requires
            old(self)@.wf(),
        ensures
            final(self)@.wf(),
            final(self)@.width == old(self)@.width,
            final(self)@.height == old(self)@.height,
            final(self)@.wrap == old(self)@.wrap,
            final(self)@.scroll_in_range(),
            ({
                let lines = final(self)@.lines;
                let through = if cursor.line < lines.len() {
                    cursor.line + 1
                } else {
                    lines.len() as int
                };
                let scroll = scroll_for_cursor(
                    lines,
                    cursor,
                    old(self)@.scroll as int,
                    old(self)@.height as int,
                );
                let k = view_reach(lines, scroll, old(self)@.height as int);
                let reach = if through >= k {
                    through
                } else {
                    k
                };
                &&& laid_out_prefix(old(self)@.lines, lines, reach)
                &&& final(self)@.scroll == clamp_scroll(scroll, layout_count(lines, k))
                &&& final(self)@.redraw == (old(self)@.redraw || any_unshaped(
                    old(self)@.lines,
                    reach,
                ))
            }),
    {
        let on_line = cursor.line < self.lines.len();
        let through = if on_line {
            cursor.line + 1
        } else {
            self.lines.len()
        };
        let reshaped = self.layout_lines(shaper, through);
        if reshaped {
            self.redraw = true;
        }
        let ghost mid = self@.lines;
        let scrolled = self.cursor_scroll(&cursor);
        self.scroll = scrolled;
        self.shape_until_scroll(shaper);
        proof {
            let lines = self@.lines;
            let k = view_reach(lines, scrolled as int, self@.height as int);
            laid_out_prefix_twice(old(self)@.lines, mid, lines, through as int, k);
            assert forall|i: int| 0 <= i < through implies #[trigger] lines[i] == mid[i] by {
                assert(mid[i].state() == LineState::Wrapped);
            }
            scroll_for_cursor_agrees(mid, lines, cursor, old(self)@.scroll as int, self@.height as int);
            let reach = if through >= k {
                through as int
            } else {
                k
            };
            // A line without shape among the first `reach` was seen by one
            // of the two passes.
            if any_unshaped(old(self)@.lines, reach) {
                let w = choose|w: int|
                    0 <= w < old(self)@.lines.len() && w < reach && (#[trigger] old(
                        self,
                    )@.lines[w]).shape_cache() is None;
                if w < through {
                    assert(any_unshaped(old(self)@.lines, through as int));
                } else {
                    assert(mid[w] == old(self)@.lines[w]);
                    assert(mid[w].shape_cache() is None);
                    assert(any_unshaped(mid, k));
                }
            }
            if any_unshaped(mid, k) {
                let w = choose|w: int|
                    0 <= w < mid.len() && w < k && (#[trigger] mid[w]).shape_cache() is None;
                if w < through {
                    assert(mid[w].state() == LineState::Wrapped);
                }
                assert(mid[w] == old(self)@.lines[w]);
                assert(old(self)@.lines[w].shape_cache() is None);
                assert(any_unshaped(old(self)@.lines, reach));
            }
            if any_unshaped(old(self)@.lines, through as int) {
                let w = choose|w: int|
                    0 <= w < old(self)@.lines.len() && w < through && (#[trigger] old(
                        self,
                    )@.lines[w]).shape_cache() is None;
                assert(old(self)@.lines[w].shape_cache() is None);
                assert(any_unshaped(old(self)@.lines, reach));
            }
        }
    }

    /// Height of layout line `q` of line `p`, which must be laid out.
    fn layout_line_height(&self, p: usize, q: usize) -> (h: i64)
        requires
            p < self@.lines.len(),
            q < line_heights(self@.lines[p as int]).len(),
        ensures
            h == line_heights(self@.lines[p as int])[q as int],
            0 <= h <= 0x2_0000_0000,
    {
        match self.lines[p].layout_opt() {
            Some(layout) => layout[q].line_ascent as i64 + layout[q].line_descent as i64,
            None => 0,
        }
    }

    /// Number of cached layout lines of line `p`.
    fn layout_lines_of(&self, p: usize) -> (n: usize)
        requires
            p < self@.lines.len(),
        ensures
            n == self@.lines[p as int].layout_len(),
            n == line_heights(self@.lines[p as int]).len(),
    {
        match self.lines[p].layout_opt() {
            Some(layout) => layout.len(),
            None => 0,
        }
    }

    /// The scroll offset that brings the layout line of `cursor` into
    /// view. The lines up to the line of the cursor must be laid out.
    fn cursor_scroll(&self, cursor: &Cursor) -> (scroll: i32)
        requires
            self@.holds_lines(),
            forall|i: int|
                0 <= i < self@.lines.len() && i <= cursor.line ==> (#[trigger] self@.lines[i]).state()
                    == LineState::Wrapped,
        ensures
            scroll == scroll_for_cursor(
                self@.lines,
                *cursor,
                self@.scroll as int,
                self@.height as int,
            ),
    {
        if cursor.line >= self.lines.len() {
            let total = self.count_layout_lines(self.lines.len());
            return if total < self.scroll as i64 {
                total as i32
            } else {
                self.scroll
            };
        }
        let above = self.count_layout_lines(cursor.line);
        let within = self.layout_cursor(cursor).layout;
        let ghost lines = self@.lines;
        let ghost target = cursor_layout_index(lines, *cursor);
        let ghost heights = flat_heights(lines, cursor.line + 1);
        proof {
            layout_count_monotonic(lines, 0, cursor.line as int);
            lines[cursor.line as int].layout_has_shape();
            flat_heights_index(lines, cursor.line + 1, cursor.line as int, within as int);
        }
        let layout_i: i64 = if within as u64 > (i64::MAX - above) as u64 {
            i64::MAX
        } else {
            above + within as i64
        };
        if layout_i < self.scroll as i64 {
            return layout_i as i32;
        }
        if layout_i > i32::MAX as i64 {
            return self.scroll;
        }
        let height = self.height as i64;
        let scroll = self.scroll as i64;
        let mut p: usize = cursor.line;
        let mut q: usize = within;
        let mut s: i64 = layout_i;
        let mut w: i64 = self.layout_line_height(p, q);
        proof {
            assert forall|j: int| 0 <= j < heights.len() implies 0 <= #[trigger] heights[j] by {
                flat_heights_count(lines, cursor.line + 1);
            }
            assert(span_height(heights, target, target) == heights[target]);
        }
        while s > scroll && s > 0
            invariant
                lines == self@.lines,
                self@.holds_lines(),
                forall|i: int|
                    0 <= i < lines.len() && i <= cursor.line ==> (#[trigger] lines[i]).state()
                        == LineState::Wrapped,
                heights == flat_heights(lines, cursor.line + 1),
                forall|j: int| 0 <= j < heights.len() ==> 0 <= #[trigger] heights[j],
                height == self@.height,
                scroll == self@.scroll,
                target == cursor_layout_index(lines, *cursor),
                0 <= target <= i32::MAX,
                target < heights.len(),
                p <= cursor.line < lines.len(),
                q < line_heights(lines[p as int]).len(),
                s == layout_count(lines, p as int) + q,
                0 <= s <= target,
                w == span_height(heights, s as int, target),
                0 <= w <= 0x4_0000_0000,
                s == target || w <= height,
                scroll_down_from(heights, scroll as int, target, height as int, target)
                    == scroll_down_from(heights, scroll as int, target, height as int, s as int),
            decreases s,
        {
            proof {
                if q == 0 {
                    assert(p > 0) by {
                        if p == 0 {
                            assert(layout_count(lines, 0) == 0);
                        }
                    }
                    lines[p - 1].layout_has_shape();
                    assert(lines[p - 1].state() == LineState::Wrapped);
                }
            }
            let (before_p, before_q) = if q > 0 {
                (p, q - 1)
            } else {
                (p - 1, self.layout_lines_of(p - 1) - 1)
            };
            let h = self.layout_line_height(before_p, before_q);
            proof {
                flat_heights_index(lines, cursor.line + 1, before_p as int, before_q as int);
                assert(layout_count(lines, before_p as int) + before_q == s - 1);
                assert(span_height(heights, s - 1, target) == heights[s - 1] + span_height(
                    heights,
                    s as int,
                    target,
                ));
            }
            if w + h > height {
                return s as i32;
            }
            w = w + h;
            s = s - 1;
            p = before_p;
            q = before_q;
        }
        s as i32
    }

    /// Replaces the text. The text is cut into lines at line feeds, so that
    /// there is one line more than there are line feeds; a carriage return
    /// in front of a line feed belongs to the terminator.
    /// `attrs` holds the attributes of the whole text and is cut along with
    /// it. The view is scrolled to the top, and the lines that it needs are
    /// laid out.
    pub fn set_text<S: Shaper>(&mut self, shaper: &mut S, text: &str, attrs: AttrsList)
        requires
            old(self)@.width >= 0,
            old(self)@.height >= 0,
            attrs.wf(),
        ensures
            final(self)@.wf(),
            final(self)@.width == old(self)@.width,
            final(self)@.height == old(self)@.height,
            final(self)@.wrap == old(self)@.wrap,
            final(self)@.scroll == 0,
            final(self)@.scroll_in_range(),
            final(self)@.redraw,
            holds_text(final(self)@.lines, text.spec_bytes(), attrs@),
            forall|i: int|
                0 <= i < final(self)@.lines.len() ==> (#[trigger] final(self)@.lines[i]).state() == (
                if i < view_reach(final(self)@.lines, 0, old(self)@.height as int) {
                    LineState::Wrapped
                } else {
                    LineState::Unshaped
                }),
    {
        self.lines = Vec::new();
        let ghost bytes = text.spec_bytes();
        let ghost whole = attrs@;
        proof {
            attrs.offsets_are_in_range();
            assert(whole.tail(0).spans =~= whole.spans);
            line_count(bytes);
        }
        let mut attrs = attrs;
        let mut rest: &str = text;
        let mut start: usize = 0;
        let _length = text.as_bytes().len();
        loop
            invariant_except_break
                attrs.wf(),
                self.lines@.len() < raw_lines(bytes).len(),
                raw_lines(bytes).skip(self.lines@.len() as int) == raw_lines(rest.spec_bytes()),
                start == line_start(bytes, self.lines@.len() as int),
                start + rest.spec_bytes().len() == bytes.len(),
                attrs@ == whole.tail(start as int),
            invariant
                self@.width == old(self)@.width,
                self@.height == old(self)@.height,
                self@.wrap == old(self)@.wrap,
                self@.redraw == old(self)@.redraw,
                bytes == text.spec_bytes(),
                bytes.len() <= usize::MAX,
                forall|k: int| #[trigger] whole.spans.dom().contains(k) ==> 0 <= k < usize::MAX,
                forall|i: int|
                    0 <= i < self.lines@.len() ==> {
                        &&& (#[trigger] self.lines@[i]).wf()
                        &&& self.lines@[i].state() == LineState::Unshaped
                        &&& self.lines@[i].layout_cache() is None
                        &&& self.lines@[i].text_bytes() == strip_cr(raw_lines(bytes)[i])
                        &&& self.lines@[i].start() == line_start(bytes, i)
                        &&& self.lines@[i].attrs() == whole.tail(line_start(bytes, i)).head(
                            raw_lines(bytes)[i].len() as int + 1,
                        )
                    },
            ensures
                self.lines@.len() == raw_lines(bytes).len(),
            decreases rest.spec_bytes().len(),
        {
            let ghost n = self.lines@.len() as int;
            let ghost remaining = rest.spec_bytes();
            let ghost before = self.lines@;
            let (line, raw_len, tail) = first_line(rest);
            proof {
                line_end_is_first_lf(remaining);
                assert(raw_lines(bytes).skip(n)[0] == raw_lines(bytes)[n]);
                assert(raw_lines(remaining)[0] == remaining.subrange(0, raw_len as int));
                assert(raw_lines(bytes)[n] == remaining.subrange(0, raw_len as int));
            }
            let owned = line.to_owned();
            match tail {
                Some(tail) => {
                    proof {
                        let tail_bytes = after_first_line(remaining);
                        assert(raw_lines(remaining) == seq![remaining.subrange(0, raw_len as int)]
                            + raw_lines(tail_bytes));
                        assert(raw_lines(bytes).skip(n + 1) =~= raw_lines(bytes).skip(n).skip(1));
                        assert(raw_lines(bytes).skip(n).skip(1) =~= raw_lines(tail_bytes));
                        assert(raw_lines(tail_bytes).len() >= 1);
                    }
                    let new_attrs = attrs.split_off(raw_len + 1);
                    proof {
                        assert(new_attrs@.spans =~= whole.tail(start + raw_len + 1).spans);
                    }
                    self.lines.push(TextLayoutLine::new(owned, attrs, start));
                    attrs = new_attrs;
                    start = start + raw_len + 1;
                    rest = tail;
                    proof {
                        assert forall|i: int| 0 <= i < n implies self.lines@[i] == before[i] by {}
                        assert(self.lines@[n].text_bytes() == strip_cr(raw_lines(bytes)[n]));
                    }
                },
                None => {
                    proof {
                        assert(raw_lines(remaining) =~= seq![remaining]);
                        assert(raw_lines(bytes).skip(n).len() == 1);
                    }
                    if raw_len < usize::MAX {
                        let _beyond = attrs.split_off(raw_len + 1);
                    } else {
                        proof {
                            attrs.offsets_are_in_range();
                            assert(attrs@.spans =~= attrs@.head(raw_len + 1).spans);
                        }
                    }
                    self.lines.push(TextLayoutLine::new(owned, attrs, start));
                    proof {
                        assert forall|i: int| 0 <= i < n implies self.lines@[i] == before[i] by {}
                        assert(self.lines@[n].text_bytes() == strip_cr(raw_lines(bytes)[n]));
                    }
                    break ;
                },
            }
        }
        self.scroll = 0;
        let ghost fresh = self@.lines;
        proof {
            assert(holds_text(fresh, bytes, whole));
        }
        self.shape_until_scroll(shaper);
        proof {
            let lines = self@.lines;
            let k = view_reach(lines, 0, self@.height as int);
            view_reach_is_least(lines, 0, self@.height as int, 0);
            assert(height_in_view(lines, 0, 0) == 0);
            assert(k >= 1);
            assert(fresh[0].shape_cache() is None);
            assert(any_unshaped(fresh, k));
            assert forall|i: int| 0 <= i < lines.len() implies (#[trigger] lines[i]).text_bytes()
                == text_lines(bytes)[i] by {
                assert(lines[i].same_content(fresh[i]));
            }
            assert forall|i: int| 0 <= i < lines.len() implies (#[trigger] lines[i]).state() == (
            if i < k {
                LineState::Wrapped
            } else {
                LineState::Unshaped
            }) by {
                if i >= k {
                    assert(lines[i] == fresh[i]);
                }
            }
            assert forall|i: int| 0 <= i < lines.len() implies (#[trigger] lines[i]).start()
                == line_start(bytes, i) && lines[i].attrs() == whole.tail(
                line_start(bytes, i),
            ).head(raw_lines(bytes)[i].len() as int + 1) by {
                assert(lines[i].same_content(fresh[i]));
            }
        }
    }

    /// A buffer that holds one empty line, with a view as large as can be,
    /// and that breaks lines between words.
    pub fn new<S: Shaper>(shaper: &mut S) -> (buffer: TextLayout)
        ensures
            buffer@.wf(),
            buffer@.lines.len() == 1,
            buffer@.lines[0].text_bytes() == Seq::<u8>::empty(),
            buffer@.lines[0].start() == 0,
            buffer@.lines[0].attrs().defaults == default_attrs(),
            buffer@.lines[0].attrs().spans == Map::<int, AttrsView>::empty(),
            buffer@.lines[0].state() == LineState::Wrapped,
            buffer@.width == i32::MAX,
            buffer@.height == i32::MAX,
            buffer@.scroll == 0,
            buffer@.scroll_in_range(),
            buffer@.wrap == Wrap::Word,
            buffer@.redraw,
    {
        let mut buffer = TextLayout {
            lines: Vec::new(),
            width: i32::MAX,
            height: i32::MAX,
            scroll: 0,
            redraw: false,
            wrap: Wrap::Word,
        };
        let text = "";
        proof {
            reveal_strlit("");
            assert(text@.len() == 0);
            assert(text.spec_bytes() =~= Seq::<u8>::empty());
        }
        buffer.set_text(shaper, text, AttrsList::new(Attrs::new()));
        proof {
            let lines = buffer@.lines;
            view_reach_is_least(lines, 0, i32::MAX as int, 0);
            assert(height_in_view(lines, 0, 0) == 0);
        }
        buffer
    }
}

impl Clone for TextLayout {
    /// A copy with the same lines, size, scroll offset and wrap mode.
    fn clone(&self) -> (copy: TextLayout)
        ensures
            copy@.same_settings(self@),
            copy@.redraw == self@.redraw,
            copy@.lines.len() == self@.lines.len(),
            forall|i: int|
                0 <= i < copy@.lines.len() ==> (#[trigger] copy@.lines[i]).same_caches(
                    self@.lines[i],
                ),
            self@.wf() ==> copy@.wf() && forall|i: int|
                0 <= i < copy@.lines.len() ==> (#[trigger] copy@.lines[i]).same_content(
                    self@.lines[i],
                ),
    {
        let mut lines: Vec<TextLayoutLine> = Vec::new();
        let mut i: usize = 0;
        while i < self.lines.len()
            invariant
                i <= self.lines.len(),
                lines.len() == i,
                forall|j: int| 0 <= j < i ==> (#[trigger] lines@[j]).same_caches(self.lines@[j]),
                self@.wf() ==> forall|j: int|
                    0 <= j < i ==> (#[trigger] lines@[j]).wf() && lines@[j].same_content(
                        self.lines@[j],
                    ),
            decreases self.lines.len() - i,
        {
            lines.push(self.lines[i].clone());
            i += 1;
        }
        TextLayout {
            lines,
            width: self.width,
            height: self.height,
            scroll: self.scroll,
            redraw: self.redraw,
            wrap: self.wrap,
        }
    }
}

} // verus!
