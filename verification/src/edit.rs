//! What an editor on top of the buffer can be asked to do.

use vstd::prelude::*;
use crate::attrs_list::AttrsList;
use crate::buffer::TextLayout;
use crate::cursor::Cursor;

verus! {

/// An action on an editor.
#[derive(Clone, Copy, Debug, PartialEq, Eq)]
pub enum Action {
    /// Move the cursor to the previous character: left in text that reads
    /// left to right, right in text that reads right to left.
    Previous,
    /// Move the cursor to the next character: right in text that reads left
    /// to right, left in text that reads right to left.
    Next,
    /// Move the cursor left.
    Left,
    /// Move the cursor right.
    Right,
    /// Move the cursor up.
    Up,
    /// Move the cursor down.
    Down,
    /// Move the cursor to the start of the layout line.
    Home,
    /// Move the cursor to the end of the layout line.
    End,
    /// Move the cursor to the start of the paragraph.
    ParagraphStart,
    /// Move the cursor to the end of the paragraph.
    ParagraphEnd,
    /// Move the cursor up by one page.
    PageUp,
    /// Move the cursor down by one page.
    PageDown,
    /// Move the cursor up or down by a number of pixels.
    Vertical(i32),
    /// Clear the selection.
    Escape,
    /// Insert a character at the cursor.
    Insert(char),
    /// Start a new line.
    Enter,
    /// Delete the text in front of the cursor.
    Backspace,
    /// Delete the text behind the cursor.
    Delete,
    /// Click at a point.
    Click { x: i32, y: i32 },
    /// Drag to a point.
    Drag { x: i32, y: i32 },
    /// Scroll by a number of lines.
    Scroll { lines: i32 },
    /// Move the cursor to the previous word boundary.
    PreviousWord,
    /// Move the cursor to the next word boundary.
    NextWord,
    /// Move the cursor to the next word boundary on the left.
    LeftWord,
    /// Move the cursor to the next word boundary on the right.
    RightWord,
    /// Move the cursor to the start of the text.
    BufferStart,
    /// Move the cursor to the end of the text.
    BufferEnd,
}

/// What an editor offers. Editors of different kinds implement it, so that
/// one can stand in for another.
pub trait Edit {
    /// The buffer.
    fn buffer(&self) -> &TextLayout;

    /// The buffer, to change it.
    fn buffer_mut(&mut self) -> &mut TextLayout;

    /// The cursor.
    fn cursor(&self) -> Cursor;

    /// The other end of the selection, if text is selected.
    fn select_opt(&self) -> Option<Cursor>;

    /// Sets the other end of the selection.
    fn set_select_opt(&mut self, select_opt: Option<Cursor>);

    /// Lays out what the view needs, after scrolling to the cursor if it
    /// has moved.
    fn shape_as_needed(&mut self);

    /// The selected text.
    fn copy_selection(&mut self) -> Option<String>;

    /// Deletes the selected text and tells whether there was any.
    fn delete_selection(&mut self) -> bool;

    /// Inserts text at the cursor, in place of the selection if there is
    /// one, with the attributes given or with those of the character in
    /// front of the cursor.
    fn insert_string(&mut self, data: &str, attrs_list: Option<AttrsList>);

    /// Performs an action.
    fn action(&mut self, action: Action);
}

} // verus!
