//! Shaped and wrapped text, and the line record that caches both.

use vstd::prelude::*;
use vstd::utf8::encode_utf8;
use crate::attrs::Color;
use crate::attrs_list::{AttrsList, AttrsListView};

verus! {

/// How a line that is wider than the buffer is broken.
#[derive(Clone, Copy, Debug, PartialEq, Eq, Structural)]
pub enum Wrap {
    /// Lines are not broken.
    Off,
    /// Lines are broken between any two glyphs.
    Glyph,
    /// Lines are broken between words.
    Word,
}

/// A glyph cluster after shaping: a range of the text with its advance.
#[derive(Clone, Copy, Debug, PartialEq, Eq, Structural)]
pub struct ShapeGlyph {
    /// Byte offset in the line at which the cluster starts.
    pub start: usize,
    /// Byte offset in the line at which the cluster ends.
    pub end: usize,
    pub x_advance: u32,
    pub ascent: u32,
    pub descent: u32,
    pub x_offset: i32,
    pub y_offset: i32,
    pub color: Color,
    /// Key under which the rasterised glyph is cached.
    pub cache_key: u64,
}

/// Clusters that follow each other in one direction.
#[derive(Debug)]
pub struct ShapeRun {
    /// Embedding level of the run; an odd level runs right to left.
    pub level: u8,
    pub glyphs: Vec<ShapeGlyph>,
}

/// A line of text after shaping, before wrapping.
#[derive(Debug)]
pub struct ShapeLine {
    /// Whether the paragraph runs right to left.
    pub rtl: bool,
    pub runs: Vec<ShapeRun>,
}

/// A positioned glyph of a layout line.
#[derive(Clone, Copy, Debug, PartialEq, Eq, Structural)]
pub struct LayoutGlyph {
    /// Byte offset in the line at which the cluster of the glyph starts.
    pub start: usize,
    /// Byte offset in the line at which the cluster of the glyph ends.
    pub end: usize,
    /// Left edge.
    pub x: i32,
    /// Width.
    pub w: u32,
    /// Embedding level; an odd level runs right to left.
    pub level: u8,
    /// Left edge in whole pixels.
    pub x_int: i32,
    /// Offset from the baseline in whole pixels.
    pub y_int: i32,
    pub color: Color,
    /// Key under which the rasterised glyph is cached.
    pub cache_key: u64,
}

/// Copies a list of plain values.
fn copy_all<T: Copy>(items: &Vec<T>) -> (copy: Vec<T>)
    ensures
        copy@ == items@,
{
    let mut copy: Vec<T> = Vec::new();
    let mut i: usize = 0;
    while i < items.len()
        invariant
            i <= items.len(),
            copy@ == items@.take(i as int),
        decreases items.len() - i,
    {
        copy.push(items[i]);
        proof {
            assert(copy@ =~= items@.take(i + 1));
        }
        i += 1;
    }
    proof {
        assert(items@.take(items@.len() as int) =~= items@);
    }
    copy
}

impl ShapeRun {
    /// Whether `other` holds the same glyphs at the same level.
    pub open spec fn agrees(self, other: ShapeRun) -> bool {
        self.level == other.level && self.glyphs@ == other.glyphs@
    }
}

impl Clone for ShapeRun {
    fn clone(&self) -> (copy: ShapeRun)
        ensures
            copy.agrees(*self),
    {
        ShapeRun { level: self.level, glyphs: copy_all(&self.glyphs) }
    }
}

impl ShapeLine {
    /// Whether `other` holds the same runs in the same direction.
    pub open spec fn agrees(self, other: ShapeLine) -> bool {
        &&& self.rtl == other.rtl
        &&& self.runs@.len() == other.runs@.len()
        &&& forall|i: int| 0 <= i < self.runs@.len() ==> (#[trigger] self.runs@[i]).agrees(other.runs@[i])
    }
}

impl Clone for ShapeLine {
    fn clone(&self) -> (copy: ShapeLine)
        ensures
            copy.agrees(*self),
    {
        let mut runs: Vec<ShapeRun> = Vec::new();
        let mut i: usize = 0;
        while i < self.runs.len()
            invariant
                i <= self.runs.len(),
                runs.len() == i,
                forall|j: int| 0 <= j < i ==> (#[trigger] runs@[j]).agrees(self.runs@[j]),
            decreases self.runs.len() - i,
        {
            runs.push(self.runs[i].clone());
            i += 1;
        }
        ShapeLine { rtl: self.rtl, runs }
    }
}

impl LayoutGlyph {
    pub open spec fn rtl(self) -> bool {
        self.level % 2 == 1
    }

    /// Whether the glyph runs right to left.
    pub fn is_rtl(&self) -> (b: bool)
        ensures
            b == self.rtl(),
    {
        self.level % 2 == 1
    }

    /// Whether the glyph runs left to right.
    pub fn is_ltr(&self) -> (b: bool)
        ensures
            b == !self.rtl(),
    {
        self.level % 2 == 0
    }
}

/// One visual line: what wrapping makes of a part of a shaped line.
#[derive(Debug)]
pub struct LayoutLine {
    /// Width of the line.
    pub w: u32,
    /// The glyphs from left to right.
    pub glyphs: Vec<LayoutGlyph>,
    pub line_ascent: u32,
    pub line_descent: u32,
    pub glyph_ascent: u32,
    pub glyph_descent: u32,
}

impl Clone for LayoutLine {
    fn clone(&self) -> (copy: LayoutLine)
        ensures
            copy.agrees(*self),
    {
        LayoutLine {
            w: self.w,
            glyphs: copy_all(&self.glyphs),
            line_ascent: self.line_ascent,
            line_descent: self.line_descent,
            glyph_ascent: self.glyph_ascent,
            glyph_descent: self.glyph_descent,
        }
    }
}

/// Whether two layouts hold the same layout lines.
pub open spec fn layouts_agree(a: Seq<LayoutLine>, b: Seq<LayoutLine>) -> bool {
    a.len() == b.len() && forall|i: int| 0 <= i < a.len() ==> (#[trigger] a[i]).agrees(b[i])
}

/// Copies a layout.
pub fn clone_layout(layout: &Vec<LayoutLine>) -> (copy: Vec<LayoutLine>)
    ensures
        layouts_agree(copy@, layout@),
{
    let mut copy: Vec<LayoutLine> = Vec::new();
    let mut i: usize = 0;
    while i < layout.len()
        invariant
            i <= layout.len(),
            copy.len() == i,
            forall|j: int| 0 <= j < i ==> (#[trigger] copy@[j]).agrees(layout@[j]),
        decreases layout.len() - i,
    {
        copy.push(layout[i].clone());
        i += 1;
    }
    copy
}

impl LayoutLine {
    /// Whether `other` holds the same glyphs and has the same extent.
    pub open spec fn agrees(self, other: LayoutLine) -> bool {
        &&& self.w == other.w
        &&& self.glyphs@ == other.glyphs@
        &&& self.line_ascent == other.line_ascent
        &&& self.line_descent == other.line_descent
        &&& self.glyph_ascent == other.glyph_ascent
        &&& self.glyph_descent == other.glyph_descent
    }

    /// Height of the line: ascent plus descent.
    pub open spec fn height(self) -> int {
        self.line_ascent + self.line_descent
    }

    /// A line without glyphs and without extent.
    pub fn empty() -> (line: LayoutLine)
        ensures
            line.glyphs@.len() == 0,
            line.w == 0,
            line.line_ascent == 0,
            line.line_descent == 0,
            line.glyph_ascent == 0,
            line.glyph_descent == 0,
    {
        LayoutLine {
            w: 0,
            glyphs: Vec::new(),
            line_ascent: 0,
            line_descent: 0,
            glyph_ascent: 0,
            glyph_descent: 0,
        }
    }
}

/// The layout lines of a line: `layout` as it is, and one line without
/// glyphs and without extent where `layout` holds no line.
pub fn at_least_one_line(layout: Vec<LayoutLine>) -> (lines: Vec<LayoutLine>)
    ensures
        layout@.len() > 0 ==> lines@ == layout@,
        layout@.len() == 0 ==> {
            &&& lines@.len() == 1
            &&& lines@[0].glyphs@.len() == 0
            &&& lines@[0].w == 0
            &&& lines@[0].line_ascent == 0
            &&& lines@[0].line_descent == 0
            &&& lines@[0].glyph_ascent == 0
            &&& lines@[0].glyph_descent == 0
        },
{
    let mut lines = layout;
    if lines.len() == 0 {
        lines.push(LayoutLine::empty());
    }
    lines
}

/// The service that shapes and wraps text. The buffer calls it when it
/// needs a result that it has not cached, and relies on nothing about
/// what comes back.
pub trait Shaper {
    /// Shapes one line of text with its attributes.
    fn shape(&mut self, text: &str, attrs_list: &AttrsList) -> ShapeLine
        requires
            attrs_list.wf(),
    ;

    /// Breaks a shaped line into layout lines that fit `width`.
    fn layout(&mut self, shape: &ShapeLine, width: i32, wrap: Wrap) -> Vec<LayoutLine>;
}

/// How much of the work on a line is cached.
#[derive(Clone, Copy, Debug, PartialEq, Eq, Structural)]
pub enum LineState {
    /// Nothing is cached.
    Unshaped,
    /// The shape is cached.
    Shaped,
    /// The shape and the layout are cached.
    Wrapped,
}

/// One paragraph: its text and attributes, and the cached results of
/// shaping and wrapping it.
pub struct TextLayoutLine {
    text: String,
    attrs_list: AttrsList,
    start_index: usize,
    shape_opt: Option<ShapeLine>,
    layout_opt: Option<Vec<LayoutLine>>,
    /// Width and wrap mode that the cached layout was asked for.
    layout_width: i32,
    layout_wrap: Wrap,
}

impl TextLayoutLine {
    /// The invariant of a line: its attributes are well formed, a layout is
    /// cached only together with the shape it was made from, and a cached
    /// layout has at least one layout line.
    pub closed spec fn wf(self) -> bool {
        &&& self.attrs_list.wf()
        &&& self.layout_opt is Some ==> self.shape_opt is Some
        &&& self.layout_opt is Some ==> self.layout_opt->0@.len() >= 1
    }

    /// The text as characters.
    pub closed spec fn text_chars(self) -> Seq<char> {
        self.text@
    }

    /// The text as bytes.
    pub open spec fn text_bytes(self) -> Seq<u8> {
        encode_utf8(self.text_chars())
    }

    /// The attributes.
    pub closed spec fn attrs(self) -> AttrsListView {
        self.attrs_list@
    }

    /// Byte offset of the line in the text of the buffer.
    pub closed spec fn start(self) -> usize {
        self.start_index
    }

    /// The cached shape.
    pub closed spec fn shape_cache(self) -> Option<ShapeLine> {
        self.shape_opt
    }

    /// The cached layout.
    pub closed spec fn layout_cache(self) -> Option<Vec<LayoutLine>> {
        self.layout_opt
    }

    /// Width and wrap mode that the cached layout was asked for.
    pub closed spec fn layout_asked(self) -> (i32, Wrap) {
        (self.layout_width, self.layout_wrap)
    }

    /// How much is cached.
    pub open spec fn state(self) -> LineState {
        if self.shape_cache() is None {
            LineState::Unshaped
        } else if self.layout_cache() is None {
            LineState::Shaped
        } else {
            LineState::Wrapped
        }
    }

    /// Number of cached layout lines; none counts as zero.
    pub open spec fn layout_len(self) -> int {
        match self.layout_cache() {
            Some(layout) => layout@.len() as int,
            None => 0,
        }
    }

    /// Whether `other` holds the same shape and the same layout, or lacks
    /// them alike.
    pub open spec fn same_caches(self, other: TextLayoutLine) -> bool {
        &&& match (self.shape_cache(), other.shape_cache()) {
            (Some(a), Some(b)) => a.agrees(b),
            (None, None) => true,
            _ => false,
        }
        &&& match (self.layout_cache(), other.layout_cache()) {
            (Some(a), Some(b)) => layouts_agree(a@, b@) && self.layout_asked()
                == other.layout_asked(),
            (None, None) => true,
            _ => false,
        }
    }

    /// Whether `other` is the same text with the same attributes at the same place.
    pub open spec fn same_content(self, other: TextLayoutLine) -> bool {
        &&& self.text_chars() == other.text_chars()
        &&& self.attrs() == other.attrs()
        &&& self.start() == other.start()
    }

    /// A line that holds a layout holds the shape it was made from, and
    /// the layout has at least one layout line.
    pub proof fn layout_has_shape(self)
        requires
            self.wf(),
        ensures
            self.layout_cache() is Some ==> self.shape_cache() is Some && self.layout_len() >= 1,
    {
    }

    /// A line with nothing cached.
    pub fn new(text: String, attrs_list: AttrsList, start_index: usize) -> (line: TextLayoutLine)
        requires
            attrs_list.wf(),
        ensures
            line.wf(),
            line.text_chars() == text@,
            line.attrs() == attrs_list@,
            line.start() == start_index,
            line.state() == LineState::Unshaped,
            line.layout_cache() is None,
    {
        TextLayoutLine {
            text,
            attrs_list,
            start_index,
            shape_opt: None,
            layout_opt: None,
            layout_width: 0,
            layout_wrap: Wrap::Off,
        }
    }

    /// The text.
    pub fn text(&self) -> (text: &str)
        ensures
            text@ == self.text_chars(),
    {
        self.text.as_str()
    }

    /// The attributes.
    pub fn attrs_list(&self) -> (attrs_list: &AttrsList)
        requires
            self.wf(),
        ensures
            attrs_list.wf(),
            attrs_list@ == self.attrs(),
    {
        &self.attrs_list
    }

    /// Byte offset of the line in the text of the buffer.
    pub fn start_index(&self) -> (start: usize)
        ensures
            start == self.start(),
    {
        self.start_index
    }

    /// How much is cached.
    pub fn cache_state(&self) -> (state: LineState)
        ensures
            state == self.state(),
    {
        if self.shape_opt.is_none() {
            LineState::Unshaped
        } else if self.layout_opt.is_none() {
            LineState::Shaped
        } else {
            LineState::Wrapped
        }
    }

    /// The cached shape.
    pub fn shape_opt(&self) -> (shape: &Option<ShapeLine>)
        ensures
            *shape == self.shape_cache(),
    {
        &self.shape_opt
    }

    /// The cached layout.
    pub fn layout_opt(&self) -> (layout: &Option<Vec<LayoutLine>>)
        ensures
            *layout == self.layout_cache(),
    {
        &self.layout_opt
    }

    /// Width and wrap mode that the cached layout was asked for; nothing
    /// if no layout is cached.
    pub fn layout_asked_for(&self) -> (asked: Option<(i32, Wrap)>)
        ensures
            asked == (if self.layout_cache() is Some {
                Some(self.layout_asked())
            } else {
                None
            }),
    {
        if self.layout_opt.is_some() {
            Some((self.layout_width, self.layout_wrap))
        } else {
            None
        }
    }

    /// Replaces text and attributes, and drops what was cached.
    pub fn set_text(&mut self, text: String, attrs_list: AttrsList)
        requires
            attrs_list.wf(),
        ensures
            final(self).wf(),
            final(self).text_chars() == text@,
            final(self).attrs() == attrs_list@,
            final(self).start() == old(self).start(),
            final(self).state() == LineState::Unshaped,
            final(self).layout_cache() is None,
    {
        self.text = text;
        self.attrs_list = attrs_list;
        self.shape_opt = None;
        self.layout_opt = None;
    }

    /// Replaces the attributes, and drops what was cached.
    pub fn set_attrs_list(&mut self, attrs_list: AttrsList)
        requires
            attrs_list.wf(),
        ensures
            final(self).wf(),
            final(self).text_chars() == old(self).text_chars(),
            final(self).attrs() == attrs_list@,
            final(self).start() == old(self).start(),
            final(self).state() == LineState::Unshaped,
            final(self).layout_cache() is None,
    {
        self.attrs_list = attrs_list;
        self.shape_opt = None;
        self.layout_opt = None;
    }

    /// Drops the cached shape and layout.
    pub fn reset(&mut self)
        requires
            old(self).wf(),
        ensures
            final(self).wf(),
            final(self).same_content(*old(self)),
            final(self).state() == LineState::Unshaped,
            final(self).layout_cache() is None,
    {
        self.shape_opt = None;
        self.layout_opt = None;
    }

    /// Drops the cached layout and keeps the shape.
    pub fn reset_layout(&mut self)
        requires
            old(self).wf(),
        ensures
            final(self).wf(),
            final(self).same_content(*old(self)),
            final(self).shape_cache() == old(self).shape_cache(),
            final(self).layout_cache() is None,
    {
        self.layout_opt = None;
    }

    /// The shape of the line, made by `shaper` unless it is cached.
    pub fn shape<S: Shaper>(&mut self, shaper: &mut S) -> (shape: &ShapeLine)
        requires
            old(self).wf(),
        ensures
            final(self).wf(),
            final(self).same_content(*old(self)),
            final(self).shape_cache() == Some(*shape),
            old(self).shape_cache() is Some ==> *final(self) == *old(self),
            old(self).shape_cache() is None ==> final(self).layout_cache() is None,
    {
        if self.shape_opt.is_none() {
            let shape = shaper.shape(self.text.as_str(), &self.attrs_list);
            self.shape_opt = Some(shape);
            self.layout_opt = None;
        }
        self.shape_opt.as_ref().unwrap()
    }

    /// The layout of the line for `width` and `wrap`, made by `shaper`
    /// unless a layout is cached; the line keeps what a layout that it
    /// caches was asked for. An empty result of the shaper stands for one
    /// layout line without glyphs.
    pub fn layout<S: Shaper>(&mut self, shaper: &mut S, width: i32, wrap: Wrap) -> (layout: &Vec<
        LayoutLine,
    >)
        requires
            old(self).wf(),
        ensures
            final(self).wf(),
            final(self).same_content(*old(self)),
            final(self).state() == LineState::Wrapped,
            final(self).layout_cache() == Some(*layout),
            layout@.len() >= 1,
            old(self).shape_cache() is Some ==> final(self).shape_cache() == old(
                self,
            ).shape_cache(),
            old(self).layout_cache() is Some ==> *final(self) == *old(self),
            old(self).layout_cache() is None ==> final(self).layout_asked() == (width, wrap),
    {
        if self.shape_opt.is_none() {
            let shape = shaper.shape(self.text.as_str(), &self.attrs_list);
            self.shape_opt = Some(shape);
            self.layout_opt = None;
        }
        if self.layout_opt.is_none() {
            let layout = shaper.layout(self.shape_opt.as_ref().unwrap(), width, wrap);
            self.layout_opt = Some(at_least_one_line(layout));
            self.layout_width = width;
            self.layout_wrap = wrap;
        }
        self.layout_opt.as_ref().unwrap()
    }
}

impl Clone for TextLayoutLine {
    /// A copy with the same text and attributes, and with copies of what
    /// is cached.
    fn clone(&self) -> (copy: TextLayoutLine)
        ensures
            copy.same_caches(*self),
            copy.text_chars() == self.text_chars(),
            copy.start() == self.start(),
            self.wf() ==> copy.wf() && copy.same_content(*self),
    {
        TextLayoutLine {
            text: self.text.clone(),
            attrs_list: self.attrs_list.clone(),
            start_index: self.start_index,
            shape_opt: match &self.shape_opt {
                Some(shape) => Some(shape.clone()),
                None => None,
            },
            layout_opt: match &self.layout_opt {
                Some(layout) => Some(clone_layout(layout)),
                None => None,
            },
            layout_width: self.layout_width,
            layout_wrap: self.layout_wrap,
        }
    }
}

} // verus!
