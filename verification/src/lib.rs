//! Text layout core: attribute spans, a buffer of shaped and wrapped lines,
//! and the mapping between points of the view and positions in the text.
//!
//! * [`AttrsList`] maps the byte offsets of a line to formatting attributes.
//! * [`TextLayout`] holds the lines of a text, lays them out as far as the
//!   view needs, and gives the layout lines in view as [`LayoutRun`]s.
//! * `hit`, `hit_point`, `hit_position` and `line_col_position` of
//!   [`TextLayout`] go from points to positions in the text and back.
//!
//! Shaping and wrapping are not done here: the buffer asks a [`Shaper`]
//! for them and caches what it gets, line by line.
//!
//! All geometry is integer valued, in layout units of which 64 make one
//! pixel.

pub mod attrs;
pub mod attrs_list;
pub mod buffer;
pub mod cursor;
pub mod edit;
pub mod fallback;
pub mod family;
pub mod family_list;
pub mod geometry;
pub mod graphemes;
pub mod hit;
pub mod hit_laws;
pub mod layout;
pub mod positions;
pub mod runs;
pub mod span_laws;
pub mod span_map;
pub mod text_lines;
pub mod view_laws;
pub mod view_reach;

pub use attrs::{
    Attrs, AttrsOwned, Color, FaceInfo, FontAttrs, LineHeightValue, Stretch, Style, Weight,
};
pub use attrs_list::AttrsList;
pub use buffer::TextLayout;
pub use cursor::{Affinity, Cursor, HitPoint, LayoutCursor};
pub use edit::{Action, Edit};
pub use fallback::{FontFallbackIter, Missing};
pub use family::FamilyOwned;
pub use family_list::ParseList;
pub use geometry::{Metrics, Point, Size};
pub use layout::{
    LayoutGlyph, LayoutLine, LineState, ShapeGlyph, ShapeLine, ShapeRun, Shaper, TextLayoutLine,
    Wrap,
};
pub use positions::HitPosition;
pub use runs::{LayoutRun, LayoutRunIter};
