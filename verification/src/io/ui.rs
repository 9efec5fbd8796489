//! Defines the values exchanged between the user interface and the application.
//!
//! Visual output is organized as follows:
//! - A header is displayed on a single row at the top of the display.
//! - A command bar is displayed on the row under the header.
//! - A page is displayed in the remaining space of the display.
pub mod error;

use vstd::prelude::*;

verus! {

/// A key of the keyboard.
#[derive(Clone, Copy, Debug, PartialEq, Eq, Structural)]
pub enum Key {
    /// Backspace key.
    Backspace,
    /// Enter key.
    Enter,
    /// Left arrow key.
    Left,
    /// Right arrow key.
    Right,
    /// Up arrow key.
    Up,
    /// Down arrow key.
    Down,
    /// Home key.
    Home,
    /// End key.
    End,
    /// Page up key.
    PageUp,
    /// Page down key.
    PageDown,
    /// Tab key.
    Tab,
    /// Shift + Tab key.
    BackTab,
    /// Delete key.
    Delete,
    /// Insert key.
    Insert,
    /// A function key, such as `F1`.
    F(u8),
    /// A character key.
    Char(char),
    /// Null.
    Null,
    /// Escape key.
    Esc,
}

/// The modifier keys held while a key is pressed, one bit per modifier.
#[derive(Clone, Copy, Debug, PartialEq, Eq, Structural)]
pub struct Modifiers {
    /// The bits of the held modifiers.
    pub bits: u8,
}

impl Modifiers {
    /// No modifier is held.
    pub fn empty() -> (result: Self)
        ensures
            result.bits == 0,
    {
        Self { bits: 0 }
    }

    /// The shift key is held.
    pub fn shift() -> (result: Self)
        ensures
            result.bits == 1,
    {
        Self { bits: 1 }
    }

    /// The control key is held.
    pub fn control() -> (result: Self)
        ensures
            result.bits == 2,
    {
        Self { bits: 2 }
    }

    /// The alt key is held.
    pub fn alt() -> (result: Self)
        ensures
            result.bits == 4,
    {
        Self { bits: 4 }
    }
}

/// Signifies the size of a terminal.
#[derive(Clone, Copy, Debug, Default, PartialEq, Eq, Structural)]
pub struct Size {
    /// The number of rows.
    pub rows: u16,
    /// The number of columns.
    pub columns: u16,
}

/// Input generated by the user.
#[derive(Clone, Copy, Debug, PartialEq, Eq, Structural)]
pub enum Input {
    /// A key has been pressed.
    Key {
        /// The key.
        key: Key,
        /// The modifiers held when the key was pressed.
        modifiers: Modifiers,
    },
    /// The size of the terminal has changed.
    Resize(Size),
    /// A mouse event has occurred.
    Mouse,
}

/// Represents a quantity of cells.
#[derive(Clone, Copy, Debug, Default, PartialEq, Eq, Structural)]
pub struct Unit(pub u16);

impl Unit {
    /// Returns the number of cells of `self`.
    pub fn get(self) -> (result: u16)
        ensures
            result == self.0,
    {
        self.0
    }

    /// Moves `self` forward by `count`.
    ///
    /// Returns `None` if the result does not fit in a `u16`.
    pub fn forward_checked(self, count: usize) -> (result: Option<Self>)
        ensures
            result is Some <==> self.0 + count <= u16::MAX,
            result matches Some(moved) ==> moved.0 == self.0 + count,
    {
        match u16::try_from(count) {
            Ok(increment) => match self.0.checked_add(increment) {
                Some(sum) => Some(Self::from(sum)),
                None => None,
            },
            Err(_) => None,
        }
    }
}

impl core::ops::Deref for Unit {
    type Target = u16;

    fn deref(&self) -> (result: &u16)
        ensures
            *result == self.0,
    {
        &self.0
    }
}

impl From<u16> for Unit {
    fn from(value: u16) -> (result: Self)
        ensures
            result.0 == value,
    {
        Self(value)
    }
}

impl vstd::std_specs::convert::FromSpecImpl<u16> for Unit {
    open spec fn obeys_from_spec() -> bool {
        true
    }

    open spec fn from_spec(value: u16) -> Self {
        Unit(value)
    }
}

impl From<Unit> for usize {
    fn from(unit: Unit) -> (result: usize)
        ensures
            result == unit.0,
    {
        unit.0 as usize
    }
}

impl vstd::std_specs::convert::FromSpecImpl<Unit> for usize {
    open spec fn obeys_from_spec() -> bool {
        true
    }

    open spec fn from_spec(unit: Unit) -> usize {
        unit.0 as usize
    }
}

impl From<Unit> for u16 {
    fn from(unit: Unit) -> (result: u16)
        ensures
            result == unit.0,
    {
        unit.0
    }
}

impl vstd::std_specs::convert::FromSpecImpl<Unit> for u16 {
    open spec fn obeys_from_spec() -> bool {
        true
    }

    open spec fn from_spec(unit: Unit) -> u16 {
        unit.0
    }
}

impl From<Unit> for u32 {
    fn from(unit: Unit) -> (result: u32)
        ensures
            result == unit.0,
    {
        unit.0 as u32
    }
}

impl vstd::std_specs::convert::FromSpecImpl<Unit> for u32 {
    open spec fn obeys_from_spec() -> bool {
        true
    }

    open spec fn from_spec(unit: Unit) -> u32 {
        unit.0 as u32
    }
}

impl From<Unit> for u64 {
    fn from(unit: Unit) -> (result: u64)
        ensures
            result == unit.0,
    {
        unit.0 as u64
    }
}

impl vstd::std_specs::convert::FromSpecImpl<Unit> for u64 {
    open spec fn obeys_from_spec() -> bool {
        true
    }

    open spec fn from_spec(unit: Unit) -> u64 {
        unit.0 as u64
    }
}

/// The dimensions of a grid.
#[derive(Clone, Copy, Debug, Default, PartialEq, Eq, Structural)]
pub struct Dimensions {
    /// The number of rows.
    pub height: Unit,
    /// The number of columns.
    pub width: Unit,
}

/// The [`Dimensions`] of the page when the terminal has `size`: the top 2 rows are reserved
/// for the header and the command bar.
pub open spec fn page_dimensions(size: Size) -> Dimensions {
    Dimensions {
        height: Unit(if size.rows >= 2 { (size.rows - 2) as u16 } else { 0 }),
        width: Unit(size.columns),
    }
}

impl From<Size> for Dimensions {
    fn from(size: Size) -> (result: Self)
        ensures
            result == page_dimensions(size),
    {
        Self {
            // Reserve the top 2 rows for the header and command bar.
            height: Unit::from(size.rows.saturating_sub(2)),
            width: Unit::from(size.columns),
        }
    }
}

impl vstd::std_specs::convert::FromSpecImpl<Size> for Dimensions {
    open spec fn obeys_from_spec() -> bool {
        true
    }

    open spec fn from_spec(size: Size) -> Self {
        page_dimensions(size)
    }
}

/// Describes the style of a text.
#[derive(Clone, Copy, Debug, PartialEq, Eq, Structural)]
pub enum Style {
    /// Text is default.
    Default,
    /// Text is selected by the user.
    Selection,
}

/// Describes a text with a given [`Style`].
#[derive(Clone, Debug, PartialEq)]
pub struct StyledText {
    /// The text.
    pub text: String,
    /// The [`Style`] of the text.
    pub style: Style,
}

impl StyledText {
    /// Creates a new [`StyledText`].
    pub fn new(text: String, style: Style) -> (result: Self)
        ensures
            result.text == text,
            result.style == style,
    {
        Self { text, style }
    }
}

/// Describes the texts that make up a row.
#[derive(Clone, Debug, PartialEq)]
pub struct RowText {
    /// The [`StyledText`]s that make up a row.
    pub texts: Vec<StyledText>,
}

impl RowText {
    /// Creates a new [`RowText`].
    pub fn new(texts: Vec<StyledText>) -> (result: Self)
        ensures
            result.texts == texts,
    {
        Self { texts }
    }
}

/// A command to the user interface.
#[derive(Clone, Debug, PartialEq)]
pub enum DisplayCmd {
    /// Display rows of text.
    Rows {
        /// The rows to be displayed.
        rows: Vec<RowText>,
    },
    /// Display the command.
    Command {
        /// The text of the command bar.
        command: String,
    },
    /// Displays the header.
    Header {
        /// The header text.
        header: String,
    },
}

/// When the row of the user interface has reached its end.
#[derive(Clone, Copy, Debug, PartialEq, Eq, Structural)]
pub struct ReachedEnd;

} // verus!
