//! Formatting attributes of text.

use vstd::prelude::*;
use crate::family::{clone_families, family_views, same_families, FamilyOwned, FamilyView};

verus! {

/// Number of layout units in one pixel. Lengths are held in layout units.
pub const UNITS_PER_PIXEL: i32 = 64;

/// A colour with straight alpha, eight bits per channel.
#[derive(Clone, Copy, Debug, Hash, PartialEq, Eq, Structural)]
pub struct Color {
    pub r: u8,
    pub g: u8,
    pub b: u8,
    pub a: u8,
}

impl Color {
    pub fn rgba(r: u8, g: u8, b: u8, a: u8) -> (c: Color)
        ensures
            c == (Color { r, g, b, a }),
    {
        Color { r, g, b, a }
    }

    /// Opaque colour.
    pub fn rgb(r: u8, g: u8, b: u8) -> (c: Color)
        ensures
            c == (Color { r, g, b, a: 255 }),
    {
        Color { r, g, b, a: 255 }
    }
}

/// Slant of a face.
#[derive(Clone, Copy, Debug, Hash, PartialEq, Eq, Structural)]
pub enum Style {
    Normal,
    Italic,
    Oblique,
}

/// Width class of a face.
#[derive(Clone, Copy, Debug, Hash, PartialEq, Eq, Structural)]
pub enum Stretch {
    UltraCondensed,
    ExtraCondensed,
    Condensed,
    SemiCondensed,
    Normal,
    SemiExpanded,
    Expanded,
    ExtraExpanded,
    UltraExpanded,
}

/// Weight of a face, on the usual scale from 100 to 900.
#[derive(Clone, Copy, Debug, Hash, PartialEq, Eq, Structural)]
pub struct Weight(pub u16);

/// Weight of a regular face.
pub const WEIGHT_NORMAL: u16 = 400;

/// Weight of a bold face.
pub const WEIGHT_BOLD: u16 = 700;

/// Height of a line.
#[derive(Clone, Copy, Debug, Hash, PartialEq, Eq, Structural)]
pub enum LineHeightValue {
    /// A multiple of the font size, in 64ths.
    Normal(i32),
    /// A length in layout units.
    Px(i32),
}

/// What is known of a face when attributes are matched against it.
#[derive(Debug)]
pub struct FaceInfo {
    pub post_script_name: String,
    pub style: Style,
    pub weight: Weight,
    pub stretch: Stretch,
    pub monospaced: bool,
}

/// The attributes that select a face.
#[derive(Debug, Hash, PartialEq, Eq)]
pub struct FontAttrs {
    pub family: Vec<FamilyOwned>,
    pub monospaced: bool,
    pub stretch: Stretch,
    pub style: Style,
    pub weight: Weight,
}

impl FontAttrs {
    /// The part of `attrs` that selects a face.
    pub fn new(attrs: Attrs) -> (font_attrs: FontAttrs)
        ensures
            family_views(font_attrs.family@) == attrs@.family,
            font_attrs.monospaced == attrs@.monospaced,
            font_attrs.stretch == attrs@.stretch,
            font_attrs.style == attrs@.style,
            font_attrs.weight == attrs@.weight,
    {
        FontAttrs {
            family: clone_families(attrs.family),
            monospaced: attrs.monospaced,
            stretch: attrs.stretch,
            style: attrs.style,
            weight: attrs.weight,
        }
    }
}

/// Whether `pattern` occurs in `text`.
pub open spec fn occurs_in(pattern: Seq<char>, text: Seq<char>) -> bool {
    exists|i: int|
        0 <= i && i + pattern.len() <= text.len() && #[trigger] text.subrange(
            i,
            i + pattern.len(),
        ) == pattern
}

/// `str::contains` with a text as the pattern: whether `pattern` occurs in
/// `text`.
#[verifier::external_body]
fn contains(text: &str, pattern: &str) -> (found: bool)
    ensures
        found == occurs_in(pattern@, text@),
{
    text.contains(pattern)
}

/// Whether a face serves text with the attributes `attrs`: a face whose
/// PostScript name holds "Emoji" serves any text; another face has to
/// agree in style, weight, width class and in being monospaced or not.
pub open spec fn face_matches(attrs: AttrsView, face: FaceInfo) -> bool {
    occurs_in("Emoji"@, face.post_script_name@) || (face.style == attrs.style && face.weight
        == attrs.weight && face.stretch == attrs.stretch && face.monospaced == attrs.monospaced)
}

/// The mathematical value of a set of attributes.
pub struct AttrsView {
    pub color: Color,
    pub family: Seq<FamilyView>,
    pub monospaced: bool,
    pub stretch: Stretch,
    pub style: Style,
    pub weight: Weight,
    pub font_size: i32,
    pub line_height: LineHeightValue,
    pub metadata: usize,
}

impl AttrsView {
    /// Whether text with these attributes can be shaped in one run with
    /// text that has the attributes `other`: the fields that select a face agree.
    pub open spec fn compatible(self, other: AttrsView) -> bool {
        &&& self.family == other.family
        &&& self.monospaced == other.monospaced
        &&& self.stretch == other.stretch
        &&& self.style == other.style
        &&& self.weight == other.weight
    }
}

/// Text attributes that borrow their family list.
#[derive(Clone, Copy, Debug)]
pub struct Attrs<'a> {
    pub color: Color,
    pub family: &'a [FamilyOwned],
    pub monospaced: bool,
    pub stretch: Stretch,
    pub style: Style,
    pub weight: Weight,
    /// Font size in layout units.
    pub font_size: i32,
    pub line_height: LineHeightValue,
    pub metadata: usize,
}

impl<'a> View for Attrs<'a> {
    type V = AttrsView;

    open spec fn view(&self) -> AttrsView {
        AttrsView {
            color: self.color,
            family: family_views(self.family@),
            monospaced: self.monospaced,
            stretch: self.stretch,
            style: self.style,
            weight: self.weight,
            font_size: self.font_size,
            line_height: self.line_height,
            metadata: self.metadata,
        }
    }
}

impl<'a> PartialEq for Attrs<'a> {
    fn eq(&self, other: &Self) -> (b: bool) {
        self.same(other)
    }
}

impl<'a> vstd::std_specs::cmp::PartialEqSpecImpl for Attrs<'a> {
    open spec fn obeys_eq_spec() -> bool {
        true
    }

    open spec fn eq_spec(&self, other: &Self) -> bool {
        self@ == other@
    }
}

impl<'a> Eq for Attrs<'a> {

}

/// The attributes of text that nothing else was asked for: black, regular
/// sans-serif, 16 pixels, line height equal to the font size.
pub open spec fn default_attrs() -> AttrsView {
    AttrsView {
        color: Color { r: 0, g: 0, b: 0, a: 255 },
        family: seq![FamilyView::SansSerif],
        monospaced: false,
        stretch: Stretch::Normal,
        style: Style::Normal,
        weight: Weight(400),
        font_size: 1024,
        line_height: LineHeightValue::Normal(64),
        metadata: 0,
    }
}

impl<'a> Attrs<'a> {
    /// The default attributes.
    pub fn new() -> (attrs: Attrs<'static>)
        ensures
            attrs@ == default_attrs(),
    {
        let family: &'static [FamilyOwned] = &[FamilyOwned::SansSerif];
        let attrs = Attrs {
            color: Color { r: 0, g: 0, b: 0, a: 255 },
            family,
            monospaced: false,
            stretch: Stretch::Normal,
            style: Style::Normal,
            weight: Weight(WEIGHT_NORMAL),
            font_size: 16 * UNITS_PER_PIXEL,
            line_height: LineHeightValue::Normal(UNITS_PER_PIXEL),
            metadata: 0,
        };
        proof {
            assert(family_views(family@) =~= seq![FamilyView::SansSerif]);
        }
        attrs
    }

    /// The same attributes with the colour `color`.
    pub fn color(self, color: Color) -> (attrs: Attrs<'a>)
        ensures
            attrs@ == (AttrsView { color, ..self@ }),
    {
        Attrs { color, ..self }
    }

    /// The same attributes with the families `family`.
    pub fn family(self, family: &'a [FamilyOwned]) -> (attrs: Attrs<'a>)
        ensures
            attrs@ == (AttrsView { family: family_views(family@), ..self@ }),
    {
        Attrs { family, ..self }
    }

    /// The same attributes, asking for a monospaced face or not.
    pub fn monospaced(self, monospaced: bool) -> (attrs: Attrs<'a>)
        ensures
            attrs@ == (AttrsView { monospaced, ..self@ }),
    {
        Attrs { monospaced, ..self }
    }

    /// The same attributes with the width class `stretch`.
    pub fn stretch(self, stretch: Stretch) -> (attrs: Attrs<'a>)
        ensures
            attrs@ == (AttrsView { stretch, ..self@ }),
    {
        Attrs { stretch, ..self }
    }

    /// The same attributes with the slant `style`.
    pub fn style(self, style: Style) -> (attrs: Attrs<'a>)
        ensures
            attrs@ == (AttrsView { style, ..self@ }),
    {
        Attrs { style, ..self }
    }

    /// The same attributes with the weight `weight`.
    pub fn weight(self, weight: Weight) -> (attrs: Attrs<'a>)
        ensures
            attrs@ == (AttrsView { weight, ..self@ }),
    {
        Attrs { weight, ..self }
    }

    /// The same attributes with the weight given as a number.
    pub fn raw_weight(self, weight: u16) -> (attrs: Attrs<'a>)
        ensures
            attrs@ == (AttrsView { weight: Weight(weight), ..self@ }),
    {
        Attrs { weight: Weight(weight), ..self }
    }

    /// The same attributes with the font size `font_size`, in layout units.
    pub fn font_size(self, font_size: i32) -> (attrs: Attrs<'a>)
        ensures
            attrs@ == (AttrsView { font_size, ..self@ }),
    {
        Attrs { font_size, ..self }
    }

    /// The same attributes with the line height `line_height`.
    pub fn line_height(self, line_height: LineHeightValue) -> (attrs: Attrs<'a>)
        ensures
            attrs@ == (AttrsView { line_height, ..self@ }),
    {
        Attrs { line_height, ..self }
    }

    /// The same attributes with the tag `metadata`.
    pub fn metadata(self, metadata: usize) -> (attrs: Attrs<'a>)
        ensures
            attrs@ == (AttrsView { metadata, ..self@ }),
    {
        Attrs { metadata, ..self }
    }

    /// Decides whether two sets of attributes have the same value.
    pub fn same(&self, other: &Attrs) -> (b: bool)
        ensures
            b == (self@ == other@),
    {
        self.color == other.color && same_families(self.family, other.family) && self.monospaced
            == other.monospaced && self.stretch == other.stretch && self.style == other.style
            && self.weight == other.weight && self.metadata == other.metadata && self.line_height
            == other.line_height && self.font_size == other.font_size
    }

    /// Decides whether `face` serves text with these attributes.
    pub fn matches(&self, face: &FaceInfo) -> (b: bool)
        ensures
            b == face_matches(self@, *face),
    {
        contains(face.post_script_name.as_str(), "Emoji") || (face.style == self.style
            && face.weight == self.weight && face.stretch == self.stretch && face.monospaced
            == self.monospaced)
    }

    /// Decides whether text with these attributes can be shaped together with
    /// text that has the attributes `other`.
    pub fn compatible(&self, other: &Attrs) -> (b: bool)
        ensures
            b == self@.compatible(other@),
    {
        same_families(self.family, other.family) && self.monospaced == other.monospaced
            && self.stretch == other.stretch && self.style == other.style && self.weight
            == other.weight
    }
}

/// Text attributes that own their family list.
#[derive(Debug)]
pub struct AttrsOwned {
    pub color: Color,
    pub family_owned: Vec<FamilyOwned>,
    pub monospaced: bool,
    pub stretch: Stretch,
    pub style: Style,
    pub weight: Weight,
    pub metadata: usize,
    /// Font size in layout units.
    pub font_size: i32,
    pub line_height: LineHeightValue,
}

impl View for AttrsOwned {
    type V = AttrsView;

    open spec fn view(&self) -> AttrsView {
        AttrsView {
            color: self.color,
            family: family_views(self.family_owned@),
            monospaced: self.monospaced,
            stretch: self.stretch,
            style: self.style,
            weight: self.weight,
            font_size: self.font_size,
            line_height: self.line_height,
            metadata: self.metadata,
        }
    }
}

impl AttrsOwned {
    /// Copies borrowed attributes into an owned value.
    pub fn new(attrs: Attrs) -> (owned: AttrsOwned)
        ensures
            owned@ == attrs@,
    {
        AttrsOwned {
            color: attrs.color,
            family_owned: clone_families(attrs.family),
            monospaced: attrs.monospaced,
            stretch: attrs.stretch,
            style: attrs.style,
            weight: attrs.weight,
            metadata: attrs.metadata,
            font_size: attrs.font_size,
            line_height: attrs.line_height,
        }
    }

    /// The same attributes, borrowing the family list.
    pub fn as_attrs(&self) -> (attrs: Attrs)
        ensures
            attrs@ == self@,
    {
        Attrs {
            color: self.color,
            family: self.family_owned.as_slice(),
            monospaced: self.monospaced,
            stretch: self.stretch,
            style: self.style,
            weight: self.weight,
            metadata: self.metadata,
            font_size: self.font_size,
            line_height: self.line_height,
        }
    }

    /// Decides whether two sets of attributes have the same value.
    pub fn same(&self, other: &AttrsOwned) -> (b: bool)
        ensures
            b == (self@ == other@),
    {
        self.as_attrs().same(&other.as_attrs())
    }
}

impl PartialEq for AttrsOwned {
    fn eq(&self, other: &Self) -> (b: bool) {
        self.same(other)
    }
}

impl vstd::std_specs::cmp::PartialEqSpecImpl for AttrsOwned {
    open spec fn obeys_eq_spec() -> bool {
        true
    }

    open spec fn eq_spec(&self, other: &Self) -> bool {
        self@ == other@
    }
}

impl Eq for AttrsOwned {

}

impl Clone for AttrsOwned {
    fn clone(&self) -> (res: AttrsOwned)
        ensures
            res@ == self@,
    {
        AttrsOwned::new(self.as_attrs())
    }
}

} // verus!
