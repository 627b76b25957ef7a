//! Positions in the text: cursors, their affinity, and hit-test results.

use vstd::prelude::*;

verus! {

/// Which run a cursor belongs to when it sits on the boundary between two runs.
#[derive(Copy, Clone, Debug, PartialEq, Eq, PartialOrd, Ord, Structural)]
pub enum Affinity {
    /// The cursor binds to the run that ends at the boundary.
    Before,
    /// The cursor binds to the run that starts at the boundary.
    After,
}

impl Affinity {
    /// Rank in the total order of affinities: `Before` comes first.
    pub open spec fn rank(self) -> int {
        match self {
            Affinity::Before => 0,
            Affinity::After => 1,
        }
    }

    pub fn before(&self) -> (b: bool)
        ensures
            b == (*self == Affinity::Before),
    {
        *self == Affinity::Before
    }

    pub fn after(&self) -> (b: bool)
        ensures
            b == (*self == Affinity::After),
    {
        *self == Affinity::After
    }

    pub fn from_before(before: bool) -> (a: Affinity)
        ensures
            a == (if before { Affinity::Before } else { Affinity::After }),
    {
        if before {
            Affinity::Before
        } else {
            Affinity::After
        }
    }

    pub fn from_after(after: bool) -> (a: Affinity)
        ensures
            a == (if after { Affinity::After } else { Affinity::Before }),
    {
        if after {
            Affinity::After
        } else {
            Affinity::Before
        }
    }
}

impl Default for Affinity {
    fn default() -> (a: Affinity)
        ensures
            a == Affinity::Before,
    {
        Affinity::Before
    }
}

/// A position in the text.
#[derive(Clone, Copy, Debug, PartialEq, Eq, PartialOrd, Ord, Structural)]
pub struct Cursor {
    /// Index of the line.
    pub line: usize,
    /// Byte offset within the line; insertion happens in front of the glyph that starts here.
    pub index: usize,
    /// Side of a run boundary the cursor belongs to.
    pub affinity: Affinity,
}

impl Cursor {
    /// A cursor with affinity `Before`.
    pub fn new(line: usize, index: usize) -> (c: Cursor)
        ensures
            c == (Cursor { line, index, affinity: Affinity::Before }),
    {
        Self::new_with_affinity(line, index, Affinity::Before)
    }

    pub fn new_with_affinity(line: usize, index: usize, affinity: Affinity) -> (c: Cursor)
        ensures
            c == (Cursor { line, index, affinity }),
    {
        Cursor { line, index, affinity }
    }

    /// The order of cursors: by line, then by index, then by affinity.
    pub open spec fn lte(self, other: Cursor) -> bool {
        self.line < other.line || (self.line == other.line && (self.index < other.index || (
        self.index == other.index && self.affinity.rank() <= other.affinity.rank())))
    }

    /// Whether `self` lies in the closed range from `start` to `end`.
    pub open spec fn within(self, start: Cursor, end: Cursor) -> bool {
        start.lte(self) && self.lte(end)
    }

    /// Decides `self <= other` in the order of cursors.
    pub fn at_most(&self, other: &Cursor) -> (b: bool)
        ensures
            b == self.lte(*other),
    {
        if self.line != other.line {
            self.line < other.line
        } else if self.index != other.index {
            self.index < other.index
        } else {
            match (self.affinity, other.affinity) {
                (Affinity::After, Affinity::Before) => false,
                _ => true,
            }
        }
    }

    /// The order of cursors is reflexive.
    pub proof fn lte_reflexive(a: Cursor)
        ensures
            a.lte(a),
    {
    }

    /// Two cursors that are each at most the other are equal.
    pub proof fn lte_antisymmetric(a: Cursor, b: Cursor)
        requires
            a.lte(b),
            b.lte(a),
        ensures
            a == b,
    {
    }

    /// The order of cursors is transitive.
    pub proof fn lte_transitive(a: Cursor, b: Cursor, c: Cursor)
        requires
            a.lte(b),
            b.lte(c),
        ensures
            a.lte(c),
    {
    }

    /// Any two cursors are comparable.
    pub proof fn lte_total(a: Cursor, b: Cursor)
        ensures
            a.lte(b) || b.lte(a),
    {
    }
}

impl Default for Cursor {
    fn default() -> (c: Cursor)
        ensures
            c == (Cursor { line: 0, index: 0, affinity: Affinity::Before }),
    {
        Cursor { line: 0, index: 0, affinity: Affinity::Before }
    }
}

/// Where a cursor sits in the wrapped layout of its line.
#[derive(Clone, Copy, Debug, PartialEq, Eq, Structural)]
pub struct LayoutCursor {
    /// Index of the line.
    pub line: usize,
    /// Index of the layout line within the line.
    pub layout: usize,
    /// Index of the glyph slot within the layout line.
    pub glyph: usize,
}

impl LayoutCursor {
    pub fn new(line: usize, layout: usize, glyph: usize) -> (c: LayoutCursor)
        ensures
            c == (LayoutCursor { line, layout, glyph }),
    {
        LayoutCursor { line, layout, glyph }
    }
}

/// The text position that a point resolves to.
#[derive(Clone, Copy, Debug, PartialEq, Eq, Structural)]
pub struct HitPoint {
    /// Index of the line.
    pub line: usize,
    /// Byte offset within the line.
    pub index: usize,
    /// Whether the point fell on a glyph. A point outside the laid out text
    /// still resolves to the nearest position.
    pub is_inside: bool,
}

} // verus!
