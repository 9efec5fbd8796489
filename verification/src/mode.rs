//! Implements the modality of the application: the names of its modes, the operations that
//! switch between them, and the line numbers they show.
use core::convert::TryFrom;
use core::ops::{Add, Sub};
use crate::app::bytes_of;
use crate::canvas::{line_start, line_starts, line_text, text_line, CHAR_BACKSPACE, CHAR_ENTER};
use crate::storage::decimal_text;
use crate::lsp::{Position, Range};
use crate::storage::LspError;
use crate::ui::base::{Index, IntRangeError};
use vstd::prelude::*;
use vstd::utf8::{is_char_boundary, pop_first_scalar};

verus! {

/// Signifies the name of an application mode.
#[derive(Copy, Clone, Eq, PartialEq, Hash, Debug, Structural)]
pub enum Name {
    /// Displays the current view.
    Display,
    /// Displays the current command.
    Command,
    /// Displays the current filter expression and highlights the characters that match the filter.
    Filter,
    /// Displays the highlighting that has been selected.
    Action,
    /// Displays the current view along with the current edits.
    Edit,
}

/// The text of `name`, as it is shown to the user.
pub open spec fn name_text(name: Name) -> Seq<char> {
    match name {
        Name::Display => "Display"@,
        Name::Command => "Command"@,
        Name::Filter => "Filter"@,
        Name::Action => "Action"@,
        Name::Edit => "Edit"@,
    }
}

impl Name {
    /// Returns the text of `self`, as it is shown to the user.
    pub fn text(&self) -> (result: &'static str)
        ensures
            result@ == name_text(*self),
    {
        match self {
            Name::Display => "Display",
            Name::Command => "Command",
            Name::Filter => "Filter",
            Name::Action => "Action",
            Name::Edit => "Edit",
        }
    }
}

impl Default for Name {
    fn default() -> (result: Self)
        ensures
            result == Name::Display,
    {
        Name::Display
    }
}

impl IntRangeError {
    /// Returns the text that describes `self`.
    pub fn text(&self) -> (result: &'static str)
        ensures
            *self == IntRangeError::Underflow ==> result@ == "Underflow"@,
            *self == IntRangeError::Overflow ==> result@ == "Overflow"@,
    {
        match self {
            IntRangeError::Underflow => "Underflow",
            IntRangeError::Overflow => "Overflow",
        }
    }
}

/// Signifies an alert to stop the application.
#[derive(Debug)]
pub enum Flag {
    /// An error with the user interface, as the interface describes it.
    Ui(String),
    /// An error with an attempt to convert values.
    Conversion(IntRangeError),
    /// An error with the file interaction.
    File(std::io::ErrorKind),
    /// An error with the Language Server Protocol.
    Lsp(LspError),
    /// An invalid input from the user.
    User,
    /// Quits the application.
    ///
    /// This is not actually an error, just a way to kill the application.
    Quit,
}

impl Flag {
    /// Returns the text that describes `self`.
    pub fn message(&self) -> (result: String)
        ensures
            match *self {
                Flag::Ui(description) => result@ == description@,
                Flag::Conversion(IntRangeError::Underflow) => result@ == "Underflow"@,
                Flag::Conversion(IntRangeError::Overflow) => result@ == "Overflow"@,
                Flag::User => result@ == "User Error"@,
                Flag::Quit => result@ == "Quit"@,
                Flag::Lsp(error) => !(error is Thread) ==> result@ == crate::storage::lsp_error_text(error),
                Flag::File(_) => true,
            },
    {
        match self {
            Flag::Ui(description) => description.clone(),
            Flag::Conversion(error) => String::from_str(error.text()),
            Flag::File(kind) => crate::io::fs::debug_io_error_kind(kind),
            Flag::Lsp(error) => error.message(),
            Flag::User => String::from_str("User Error"),
            Flag::Quit => String::from_str("Quit"),
        }
    }
}

impl From<IntRangeError> for Flag {
    fn from(error: IntRangeError) -> (result: Self)
        ensures
            result matches Flag::Conversion(e) && e == error,
    {
        Flag::Conversion(error)
    }
}

impl vstd::std_specs::convert::FromSpecImpl<IntRangeError> for Flag {
    open spec fn obeys_from_spec() -> bool {
        true
    }

    open spec fn from_spec(error: IntRangeError) -> Self {
        Flag::Conversion(error)
    }
}

impl From<LspError> for Flag {
    fn from(error: LspError) -> (result: Self)
        ensures
            result matches Flag::Lsp(e) && e == error,
    {
        Flag::Lsp(error)
    }
}

impl vstd::std_specs::convert::FromSpecImpl<LspError> for Flag {
    open spec fn obeys_from_spec() -> bool {
        true
    }

    open spec fn from_spec(error: LspError) -> Self {
        Flag::Lsp(error)
    }
}

/// Signifies a function to be performed when the application enters a mode.
#[derive(Clone, Debug, PartialEq)]
pub enum Initiation {
    /// Opens the document specified by the given path relative to the root directory.
    OpenDoc(String),
    /// Saves the current data of the view.
    Save,
    /// Starts a filter.
    StartFilter(char),
    /// Sets a list of [`Range`]s.
    SetSignals(Vec<Range>),
    /// Marks a list of [`Position`]s.
    Mark(Vec<Position>),
}

/// Defines an operation that switches modes.
#[derive(Debug)]
pub struct Operation {
    /// The [`Name`] of the desired mode.
    ///
    /// `None` indicates the application should keep the current mode.
    pub mode: Option<Name>,
    /// The [`Initiation`] to be run if changing modes.
    pub initiation: Option<Initiation>,
}

impl Operation {
    /// Returns the [`Name`] of `self`.
    pub fn mode(&self) -> (result: &Option<Name>)
        ensures
            *result == self.mode,
    {
        &self.mode
    }

    /// Returns the [`Initiation`] of `self`.
    pub fn initiation(&self) -> (result: &Option<Initiation>)
        ensures
            *result == self.initiation,
    {
        &self.initiation
    }

    /// Creates a new `Operation` to enter Command mode.
    pub fn enter_command() -> (result: Self)
        ensures
            result.mode == Some(Name::Command),
            result.initiation is None,
    {
        Self { mode: Some(Name::Command), initiation: None }
    }

    /// Creates a new `Operation` to enter Filter mode, starting the filter with `id`.
    pub fn enter_filter(id: char) -> (result: Self)
        ensures
            result.mode == Some(Name::Filter),
            result.initiation == Some(Initiation::StartFilter(id)),
    {
        Self { mode: Some(Name::Filter), initiation: Some(Initiation::StartFilter(id)) }
    }

    /// Creates a new `Operation` to continue execution with no special action.
    pub fn maintain() -> (result: Self)
        ensures
            result.mode is None,
            result.initiation is None,
    {
        Self { mode: None, initiation: None }
    }

    /// Creates a new `Operation` to display the file at `path`.
    ///
    /// The application enters Display mode as a consequence of this `Operation`.
    pub fn display_file(path: &str) -> (result: Self)
        ensures
            result.mode == Some(Name::Display),
            result.initiation matches Some(Initiation::OpenDoc(opened)) && opened@ == path@,
    {
        Self { mode: Some(Name::Display), initiation: Some(Initiation::OpenDoc(path.to_owned())) }
    }

    /// Creates a new `Operation` to save the current file.
    ///
    /// The application enters Display mode as a consequence of this `Operation`.
    pub fn save_file() -> (result: Self)
        ensures
            result.mode == Some(Name::Display),
            result.initiation == Some(Initiation::Save),
    {
        Self { mode: Some(Name::Display), initiation: Some(Initiation::Save) }
    }

    /// Creates a new `Operation` to enter Display mode.
    pub fn enter_display() -> (result: Self)
        ensures
            result.mode == Some(Name::Display),
            result.initiation is None,
    {
        Self { mode: Some(Name::Display), initiation: None }
    }

    /// Creates a new `Operation` to enter Action mode, highlighting `signals`.
    pub fn enter_action(signals: Vec<Range>) -> (result: Self)
        ensures
            result.mode == Some(Name::Action),
            result.initiation == Some(Initiation::SetSignals(signals)),
    {
        Self { mode: Some(Name::Action), initiation: Some(Initiation::SetSignals(signals)) }
    }

    /// Creates a new `Operation` to enter Edit mode, marking `positions`.
    pub fn enter_edit(positions: Vec<Position>) -> (result: Self)
        ensures
            result.mode == Some(Name::Edit),
            result.initiation == Some(Initiation::Mark(positions)),
    {
        Self { mode: Some(Name::Edit), initiation: Some(Initiation::Mark(positions)) }
    }
}

/// An iterator over the [`Index`]es from a start up to, and without, an end.
#[derive(Debug)]
pub struct IndexIterator {
    /// The current [`Index`].
    current: Index,
    /// The first [`Index`] that is not valid.
    end: Index,
}

impl View for IndexIterator {
    /// The current index and the end.
    type V = (int, int);

    closed spec fn view(&self) -> (int, int) {
        (self.current@, self.end@)
    }
}

impl IndexIterator {
    /// The current index never passes the end.
    #[verifier::type_invariant]
    spec fn current_before_end(self) -> bool {
        self.current@ <= self.end@
    }

    /// Creates a new `IndexIterator` from `start` up to `end`.
    pub fn new(start: Index, end: Index) -> (result: Self)
        requires
            start@ <= end@,
        ensures
            result@ == (start@, end@),
    {
        Self { current: start, end }
    }

    /// Returns the next [`Index`], or `None` where the end is reached.
    pub fn next(&mut self) -> (result: Option<Index>)
        ensures
            old(self)@.0 == old(self)@.1 ==> result is None && final(self)@ == old(self)@,
            old(self)@.0 < old(self)@.1 ==> (result matches Some(index) && index@ == old(self)@.0 && final(self)@ == (
                old(self)@.0 + 1,
                old(self)@.1,
            )),
    {
        proof {
            use_type_invariant(&*self);
        }
        if self.current.get() == self.end.get() {
            return None;
        }
        let next_index = self.current;
        self.current = self.current.add(1);
        Some(next_index)
    }
}

/// Signifies a line number, which starts at 1.
#[derive(Copy, Clone, PartialEq, Eq, Ord, PartialOrd, Hash, Debug, Structural)]
pub struct LineNumber(u32);

impl View for LineNumber {
    type V = int;

    /// The value of `self`.
    closed spec fn view(&self) -> int {
        self.0 as int
    }
}

/// The line number of `value`, or the error of the range that it is out of.
pub open spec fn line_number_of(value: int) -> Result<int, IntRangeError> {
    if value <= 0 {
        Err(IntRangeError::Underflow)
    } else if value > u32::MAX {
        Err(IntRangeError::Overflow)
    } else {
        Ok(value)
    }
}

/// The line number `number` moved by `other`: 1 where that leaves the line numbers, or the
/// largest line number where it passes the largest `usize`.
pub open spec fn moved_line_number(number: int, other: int) -> int {
    let sum = number + other;
    if sum > usize::MAX {
        u32::MAX as int
    } else {
        match line_number_of(sum) {
            Ok(value) => value,
            Err(_) => 1,
        }
    }
}

impl LineNumber {
    /// Every line number is positive.
    #[verifier::type_invariant]
    spec fn positive(self) -> bool {
        self.0 > 0
    }

    /// Creates the `LineNumber` `value`, which must be positive and fit in a `u32`.
    pub fn new(value: usize) -> (result: Result<Self, IntRangeError>)
        ensures
            match line_number_of(value as int) {
                Ok(v) => result matches Ok(number) && number@ == v,
                Err(error) => result == Err::<Self, IntRangeError>(error),
            },
    {
        if value == 0 {
            Err(IntRangeError::Underflow)
        } else if value as u64 > u32::MAX as u64 {
            Err(IntRangeError::Overflow)
        } else {
            Ok(Self(value as u32))
        }
    }

    /// Converts `self` to its row index, assuming line number `1` is at row `0`.
    pub fn row(self) -> (result: usize)
        ensures
            result == self@ - 1,
    {
        proof {
            use_type_invariant(&self);
        }
        (self.0 - 1) as usize
    }

    /// Returns the decimal text of `self`.
    pub fn text(&self) -> (result: String)
        ensures
            result@ == crate::storage::decimal_text(self@ as nat),
    {
        decimal_of_u32(self.0)
    }

    /// Returns the iterator over the line numbers from `self` on, each one more than the one
    /// before.
    pub fn into_iter(self) -> (result: LineNumberIterator)
        ensures
            result.current == self,
    {
        LineNumberIterator { current: self }
    }
}

/// Returns the decimal text of `value`: its decimal digits without leading zeros, as
/// `ToString` writes an integer.
fn decimal_of_u32(value: u32) -> (result: String)
    ensures
        result@ == crate::storage::decimal_text(value as nat),
{
    crate::storage::decimal_of_u64(value as u64)
}

impl Default for LineNumber {
    fn default() -> (result: Self)
        ensures
            result@ == 1,
    {
        Self(1)
    }
}

impl Add<i128> for LineNumber {
    type Output = Self;

    fn add(self, other: i128) -> (result: Self)
        ensures
            result@ == moved_line_number(self@, other as int),
    {
        let sum = self.0 as i128 + other;
        if sum < 0 {
            Self::default()
        } else if sum > usize::MAX as i128 {
            Self(u32::MAX)
        } else {
            match Self::new(sum as usize) {
                Ok(number) => number,
                Err(_) => Self::default(),
            }
        }
    }
}

impl vstd::std_specs::ops::AddSpecImpl<i128> for LineNumber {
    open spec fn obeys_add_spec() -> bool {
        true
    }

    open spec fn add_req(self, other: i128) -> bool {
        self@ + other <= i128::MAX
    }

    closed spec fn add_spec(self, other: i128) -> Self {
        LineNumber(moved_line_number(self@, other as int) as u32)
    }
}

impl Sub for LineNumber {
    type Output = i64;

    fn sub(self, other: Self) -> (result: i64)
        ensures
            result == self@ - other@,
    {
        self.0 as i64 - other.0 as i64
    }
}

impl vstd::std_specs::ops::SubSpecImpl for LineNumber {
    open spec fn obeys_sub_spec() -> bool {
        true
    }

    open spec fn sub_req(self, other: Self) -> bool {
        true
    }

    open spec fn sub_spec(self, other: Self) -> i64 {
        (self@ - other@) as i64
    }
}

impl TryFrom<usize> for LineNumber {
    type Error = IntRangeError;

    /// Creates the `LineNumber` of the line at index `value`.
    fn try_from(value: usize) -> (result: Result<Self, Self::Error>)
        ensures
            match line_number_of(value + 1) {
                Ok(v) => result matches Ok(number) && number@ == v,
                Err(error) => result == Err::<Self, IntRangeError>(error),
            },
    {
        match value.checked_add(1) {
            Some(next) => Self::new(next),
            None => Err(IntRangeError::Overflow),
        }
    }
}

impl vstd::std_specs::convert::TryFromSpecImpl<usize> for LineNumber {
    open spec fn obeys_try_from_spec() -> bool {
        true
    }

    closed spec fn try_from_spec(value: usize) -> Result<Self, Self::Error> {
        match line_number_of(value + 1) {
            Ok(v) => Ok(LineNumber(v as u32)),
            Err(error) => Err(error),
        }
    }
}

/// Signifies an iterator over the [`LineNumber`]s that steps by 1.
#[derive(Debug)]
pub struct LineNumberIterator {
    /// The current [`LineNumber`].
    pub current: LineNumber,
}

impl LineNumberIterator {
    /// Returns the current [`LineNumber`] and steps to the next one, which must exist.
    pub fn next(&mut self) -> (result: Option<LineNumber>)
        requires
            old(self).current@ < u32::MAX,
        ensures
            result == Some(old(self).current),
            final(self).current@ == old(self).current@ + 1,
    {
        proof {
            use_type_invariant(&self.current);
        }
        let line_number = LineNumber(self.current.0);
        self.current = LineNumber(self.current.0 + 1);
        Some(line_number)
    }
}

/// The start of the range that `input` edits at `position`: for a backspace, the character
/// before `position`, or the end of the line before where `position` starts a line.
pub open spec fn add_start(position: Position, input: char) -> Position {
    if input == CHAR_BACKSPACE {
        if position.character == 0 {
            if position.line != 0 {
                Position { line: (position.line - 1) as u32, character: u32::MAX }
            } else {
                position
            }
        } else {
            Position { line: position.line, character: (position.character - 1) as u32 }
        }
    } else {
        position
    }
}

/// If adding `input` at `position` calls for the whole pane to be drawn again: a backspace that
/// joins two lines, or an enter.
pub open spec fn add_wipes(position: Position, input: char) -> bool {
    (input == CHAR_BACKSPACE && position.character == 0 && position.line != 0) || input
        == CHAR_ENTER
}

/// The byte offset of `start` in `bytes`: the start of its line plus its character; `None` where
/// `bytes` has no such line.
pub open spec fn add_offset(bytes: Seq<u8>, start: Position) -> Option<int> {
    if start.line < line_starts(bytes).len() {
        Some(line_starts(bytes)[start.line as int] + start.character)
    } else {
        None
    }
}

/// The text that replaces the range that `input` edits: nothing for a backspace, and `input`
/// otherwise.
pub open spec fn add_text(input: char) -> Seq<char> {
    if input == CHAR_BACKSPACE {
        Seq::empty()
    } else {
        seq![input]
    }
}

/// If adding `input` at `position` in `bytes` stays within what the text and the position can
/// take: a removed character must be there, an inserted one must not cut a character, and the
/// position must be able to move right.
pub open spec fn add_fits(bytes: Seq<u8>, position: Position, input: char) -> bool {
    match add_offset(bytes, add_start(position, input)) {
        None => true,
        Some(index) => index <= usize::MAX ==> if input == CHAR_BACKSPACE {
            index < bytes.len() && is_char_boundary(bytes, index)
        } else {
            is_char_boundary(bytes, index) && position.character < u32::MAX
        },
    }
}

/// The bytes of `bytes` once `input` is added at byte `index`.
pub open spec fn added_bytes(bytes: Seq<u8>, index: int, input: char) -> Seq<u8> {
    if input == CHAR_BACKSPACE {
        bytes.subrange(0, index) + pop_first_scalar(bytes.subrange(index, bytes.len() as int))
    } else {
        bytes.subrange(0, index) + bytes_of(seq![input]) + bytes.subrange(index, bytes.len() as int)
    }
}

/// A place in the user interface: a row and a column.
#[derive(Clone, Copy, Debug, PartialEq, Eq, Structural)]
pub struct Address {
    /// The row.
    pub row: usize,
    /// The column.
    pub column: usize,
}

/// A part of the user interface, from the address `first` to the address `last`.
#[derive(Clone, Copy, Debug, PartialEq, Eq, Structural)]
pub struct Span {
    /// The first address.
    pub first: Address,
    /// The last address.
    pub last: Address,
}

/// A color of the user interface.
#[derive(Clone, Copy, Debug, PartialEq, Eq, Structural)]
pub enum Color {
    /// The color that the user interface has by default.
    Default,
    /// Black.
    Black,
    /// Blue.
    Blue,
    /// Red.
    Red,
}

/// A change to what a pane shows.
#[derive(Clone, Debug, PartialEq)]
pub enum Change {
    /// Clears the pane.
    Clear,
    /// Writes the text over the span.
    Text(Span, String),
    /// Gives the span the color as its background.
    Format(Span, Color),
}

/// A change to what a pane shows, with its text as a sequence of characters.
pub enum ChangeView {
    /// Clears the pane.
    Clear,
    /// Writes the text over the span.
    Text(Span, Seq<char>),
    /// Gives the span the color as its background.
    Format(Span, Color),
}

impl View for Change {
    type V = ChangeView;

    open spec fn view(&self) -> ChangeView {
        match self {
            Change::Clear => ChangeView::Clear,
            Change::Text(span, text) => ChangeView::Text(*span, text@),
            Change::Format(span, color) => ChangeView::Format(*span, *color),
        }
    }
}

/// The views of `changes`.
pub open spec fn change_views(changes: Seq<Change>) -> Seq<ChangeView> {
    changes.map_values(|change: Change| change@)
}

/// The address of `position` in a pane whose first shown line is `first_line` and whose margin
/// is `margin` columns wide; `None` where the position is above the pane.
pub open spec fn address_at(first_line: u32, margin: u8, position: Position) -> Option<Address> {
    if position.line >= first_line {
        Some(
            Address {
                row: (position.line - first_line) as usize,
                column: if position.character + margin + 1 <= usize::MAX {
                    (position.character + margin + 1) as usize
                } else {
                    usize::MAX
                },
            },
        )
    } else {
        None
    }
}

/// The span of `range` in a pane whose first shown line is `first_line` and whose margin is
/// `margin` columns wide; `None` where one of its ends is above the pane.
pub open spec fn span_at(first_line: u32, margin: u8, range: Range) -> Option<Span> {
    match (address_at(first_line, margin, range.start), address_at(first_line, margin, range.end)) {
        (Some(first), Some(last)) => Some(Span { first, last }),
        _ => None,
    }
}

/// The span of the whole row `row`.
pub open spec fn row_span(row: int) -> Span {
    Span {
        first: Address { row: row as usize, column: 0 },
        last: Address { row: row as usize, column: usize::MAX },
    }
}

/// The number of decimal digits of `value`; none for 0.
pub open spec fn digit_count(value: nat) -> nat {
    if value == 0 {
        0
    } else {
        decimal_text(value).len()
    }
}

/// The text `text` with spaces before it up to `width` characters.
pub open spec fn padded(text: Seq<char>, width: nat) -> Seq<char> {
    if text.len() < width {
        Seq::new((width - text.len()) as nat, |i: int| ' ') + text
    } else {
        text
    }
}

/// The text of the row that shows line `line` of text `text`: its line number, aligned right in
/// a margin of `margin` columns, a space, and the line.
pub open spec fn row_text(line: int, margin: nat, text: Seq<char>) -> Seq<char> {
    padded(decimal_text((line + 1) as nat), margin) + seq![' '] + text
}

/// The changes that show the lines of `bytes` from line `first_line` on, in the rows of a pane of
/// `height` rows from row `row` on, with a margin of `margin` columns: a row for each line up to
/// the first line that is missing or whose number does not fit in a `u32`.
pub open spec fn shown_rows(bytes: Option<Seq<u8>>, first_line: int, margin: nat, height: nat, row: nat)
    -> Seq<ChangeView>
    decreases height - row,
{
    if row >= height || first_line + row >= u32::MAX {
        Seq::empty()
    } else {
        match line_text((bytes, 0), first_line + row) {
            Some(text) => seq![ChangeView::Text(row_span(row as int), row_text(first_line + row, margin, text))]
                + shown_rows(bytes, first_line, margin, height, row + 1),
            None => Seq::empty(),
        }
    }
}

/// If adding `input` at `position` shows a change of the text: not for an enter, nor for a
/// backspace at the start of a line.
pub open spec fn add_shows(position: Position, input: char) -> bool {
    if input == CHAR_BACKSPACE {
        position.character != 0
    } else {
        input != CHAR_ENTER
    }
}

/// The part of a pane that text is added to: its document, if one is open, the rows it shows,
/// and the changes it has still to show.
pub struct Pane {
    /// The text of the document.
    doc: Option<String>,
    /// If the pane will be cleared and drawn again on the next update.
    will_wipe: bool,
    /// The line shown in the first row.
    first_line: u32,
    /// The number of columns of the margin that shows the line numbers.
    margin_width: u8,
    /// The number of rows of the pane.
    height: usize,
    /// The number of lines of the document.
    line_count: u64,
    /// The changes that the pane has still to show.
    changes: Vec<Change>,
}

impl View for Pane {
    /// The bytes of the text of the document, if one is open, and if the pane will be drawn
    /// again whole.
    type V = (Option<Seq<u8>>, bool);

    closed spec fn view(&self) -> (Option<Seq<u8>>, bool) {
        (
            match self.doc {
                Some(text) => Some(bytes_of(text@)),
                None => None,
            },
            self.will_wipe,
        )
    }
}

impl Pane {
    /// The line shown in the first row.
    pub closed spec fn first_line(self) -> u32 {
        self.first_line
    }

    /// The number of columns of the margin.
    pub closed spec fn margin_width(self) -> u8 {
        self.margin_width
    }

    /// The number of rows.
    pub closed spec fn height(self) -> nat {
        self.height as nat
    }

    /// The number of lines of the document, as counted when it was last refreshed.
    pub closed spec fn line_count(self) -> nat {
        self.line_count as nat
    }

    /// The changes that the pane has still to show.
    pub closed spec fn pending(self) -> Seq<ChangeView> {
        change_views(self.changes@)
    }

    /// Creates a [`Pane`] of `height` rows, without a document.
    pub fn new(height: usize) -> (result: Self)
        ensures
            result@ == (None::<Seq<u8>>, false),
            result.first_line() == 0,
            result.margin_width() == 0,
            result.height() == height,
            result.line_count() == 0,
            result.pending() == Seq::<ChangeView>::empty(),
    {
        let pane = Pane {
            doc: None,
            will_wipe: false,
            first_line: 0,
            margin_width: 0,
            height,
            line_count: 0,
            changes: Vec::new(),
        };
        assert(change_views(pane.changes@) =~= Seq::<ChangeView>::empty());
        pane
    }

    /// Opens the document of the text `text`, as it was read, and counts its lines.
    pub fn open(&mut self, text: String)
        ensures
            final(self)@ == (Some(bytes_of(text@)), old(self)@.1),
            final(self).first_line() == old(self).first_line(),
            final(self).line_count() == capped_count(text_lines_count(text@)),
            final(self).margin_width() == digit_count(final(self).line_count()),
            final(self).height() == old(self).height(),
            final(self).pending() == old(self).pending(),
    {
        self.doc = Some(text);
        self.refresh();
    }

    /// Returns the number of lines that a scroll moves: a quarter of the height.
    fn scroll_delta(&self) -> (result: usize)
        ensures
            result == self.height() / 4,
    {
        self.height / 4
    }

    /// Shows line `first_line` first, to be drawn again whole where that changes the first line.
    fn set_first_line(&mut self, first_line: u32)
        ensures
            final(self)@ == (old(self)@.0, old(self)@.1 || first_line != old(self).first_line()),
            final(self).first_line() == first_line,
            final(self).line_count() == old(self).line_count(),
            final(self).margin_width() == old(self).margin_width(),
            final(self).height() == old(self).height(),
            final(self).pending() == old(self).pending(),
    {
        if first_line != self.first_line {
            self.first_line = first_line;
            self.will_wipe = true;
        }
    }

    /// Scrolls up by a quarter of the height, but not past the first line.
    pub fn scroll_up(&mut self)
        ensures
            ({
                let target = if old(self).first_line() >= old(self).height() / 4 {
                    (old(self).first_line() - old(self).height() / 4) as u32
                } else {
                    0u32
                };
                &&& final(self)@ == (old(self)@.0, old(self)@.1 || target != old(self).first_line())
                &&& final(self).first_line() == target
            }),
            final(self).line_count() == old(self).line_count(),
            final(self).margin_width() == old(self).margin_width(),
            final(self).height() == old(self).height(),
            final(self).pending() == old(self).pending(),
    {
        let delta = self.scroll_delta();
        let target = if self.first_line as usize >= delta {
            (self.first_line as usize - delta) as u32
        } else {
            0
        };
        self.set_first_line(target);
    }

    /// Scrolls down by a quarter of the height, but not past the last line, nor past the
    /// largest line that a `u32` holds.
    pub fn scroll_down(&mut self)
        ensures
            ({
                let moved = old(self).first_line() + old(self).height() / 4;
                let last = if old(self).line_count() >= 1 {
                    old(self).line_count() - 1
                } else {
                    0
                };
                let lowest = if moved < last {
                    moved
                } else {
                    last
                };
                let target = if lowest <= u32::MAX {
                    lowest as u32
                } else {
                    u32::MAX
                };
                &&& final(self)@ == (old(self)@.0, old(self)@.1 || target != old(self).first_line())
                &&& final(self).first_line() == target
            }),
            final(self).line_count() == old(self).line_count(),
            final(self).margin_width() == old(self).margin_width(),
            final(self).height() == old(self).height(),
            final(self).pending() == old(self).pending(),
    {
        let delta = self.scroll_delta() as u64;
        let moved = if delta <= u64::MAX - self.first_line as u64 {
            self.first_line as u64 + delta
        } else {
            u64::MAX
        };
        let last = if self.line_count >= 1 {
            self.line_count - 1
        } else {
            0
        };
        let lowest = if moved < last {
            moved
        } else {
            last
        };
        let target = if lowest <= u32::MAX as u64 {
            lowest as u32
        } else {
            u32::MAX
        };
        self.set_first_line(target);
    }

    /// Returns the text of the document of `self`, if one is open.
    pub fn text(&self) -> (result: Option<&str>)
        ensures
            match result {
                Some(text) => self@.0 == Some(bytes_of(text@)),
                None => self@.0 is None,
            },
    {
        match &self.doc {
            Some(text) => Some(text.as_str()),
            None => None,
        }
    }

    /// Returns if `self` will be drawn again whole.
    pub fn will_wipe(&self) -> (result: bool)
        ensures
            result == self@.1,
    {
        self.will_wipe
    }

    /// Updates the width of the margin to the number of digits of the number of lines.
    fn refresh(&mut self)
        ensures
            final(self)@ == old(self)@,
            final(self).first_line() == old(self).first_line(),
            final(self).height() == old(self).height(),
            final(self).pending() == old(self).pending(),
            final(self).line_count() == match final(self).doc {
                Some(text) => capped_count(text_lines_count(text@)),
                None => 0,
            },
            final(self).margin_width() == digit_count(final(self).line_count()),
    {
        let count = match &self.doc {
            Some(text) => line_count(text.as_str()),
            None => 0,
        };
        self.line_count = count;
        self.margin_width = digits_of(count);
    }

    /// Returns the address of `position` in `self`, or `None` where it is above the pane.
    fn address_of(&self, position: Position) -> (result: Option<Address>)
        ensures
            result == address_at(self.first_line, self.margin_width, position),
    {
        if position.line >= self.first_line {
            let character = position.character as usize;
            let origin = self.margin_width as usize + 1;
            let column = if character <= usize::MAX - origin {
                character + origin
            } else {
                usize::MAX
            };
            Some(Address { row: (position.line - self.first_line) as usize, column })
        } else {
            None
        }
    }

    /// Returns the span of `range` in `self`, or `None` where one of its ends is above the pane.
    fn span_of(&self, range: Range) -> (result: Option<Span>)
        ensures
            result == span_at(self.first_line, self.margin_width, range),
    {
        match self.address_of(range.start) {
            Some(first) => match self.address_of(range.end) {
                Some(last) => Some(Span { first, last }),
                None => None,
            },
            None => None,
        }
    }

    /// Returns the changes that `self` has still to show, and forgets them: where `self` is to be
    /// drawn again whole, they are a clearing followed by a row for each line shown.
    pub fn changes(&mut self) -> (result: Vec<Change>)
        ensures
            change_views(result@) == if old(self)@.1 {
                seq![ChangeView::Clear] + shown_rows(
                    old(self)@.0,
                    old(self).first_line() as int,
                    old(self).margin_width() as nat,
                    old(self).height(),
                    0,
                )
            } else {
                old(self).pending()
            },
            final(self)@ == (old(self)@.0, false),
            final(self).first_line() == old(self).first_line(),
            final(self).margin_width() == old(self).margin_width(),
            final(self).height() == old(self).height(),
            final(self).pending() == Seq::<ChangeView>::empty(),
    {
        if self.will_wipe {
            let mut changes: Vec<Change> = Vec::new();
            changes.push(Change::Clear);
            let ghost bytes = self@.0;
            let mut row: usize = 0;
            loop
                invariant
                    bytes == self@.0,
                    row <= self.height,
                    change_views(changes@) + shown_rows(
                        bytes,
                        self.first_line as int,
                        self.margin_width as nat,
                        self.height as nat,
                        row as nat,
                    ) == seq![ChangeView::Clear] + shown_rows(
                        bytes,
                        self.first_line as int,
                        self.margin_width as nat,
                        self.height as nat,
                        0,
                    ),
                ensures
                    change_views(changes@) == seq![ChangeView::Clear] + shown_rows(
                        bytes,
                        self.first_line as int,
                        self.margin_width as nat,
                        self.height as nat,
                        0,
                    ),
                decreases self.height - row,
            {
                let ghost rest = shown_rows(
                    bytes,
                    self.first_line as int,
                    self.margin_width as nat,
                    self.height as nat,
                    row as nat,
                );
                if row >= self.height || row as u64 >= u32::MAX as u64 - self.first_line as u64 {
                    assert(rest =~= Seq::<ChangeView>::empty());
                    assert(change_views(changes@) =~= change_views(changes@) + rest);
                    break ;
                }
                let line = self.first_line as usize + row;
                let found = match &self.doc {
                    Some(text) => text_line(text.as_str(), line),
                    None => None,
                };
                match found {
                    None => {
                        assert(rest =~= Seq::<ChangeView>::empty());
                        assert(change_views(changes@) =~= change_views(changes@) + rest);
                        break ;
                    },
                    Some(text) => {
                        let shown = row_line_text(line, self.margin_width, text);
                        let ghost before = change_views(changes@);
                        changes.push(Change::Text(row_span_of(row), shown));
                        assert(change_views(changes@) =~= before.push(
                            ChangeView::Text(row_span(row as int), shown@),
                        ));
                        assert(rest =~= seq![ChangeView::Text(row_span(row as int), shown@)]
                            + shown_rows(
                            bytes,
                            self.first_line as int,
                            self.margin_width as nat,
                            self.height as nat,
                            (row + 1) as nat,
                        ));
                        assert(change_views(changes@) + shown_rows(
                            bytes,
                            self.first_line as int,
                            self.margin_width as nat,
                            self.height as nat,
                            (row + 1) as nat,
                        ) =~= before + rest);
                    },
                }
                row = row + 1;
            }
            self.will_wipe = false;
            self.changes = Vec::new();
            assert(change_views(self.changes@) =~= Seq::<ChangeView>::empty());
            changes
        } else {
            let mut changes: Vec<Change> = Vec::new();
            std::mem::swap(&mut changes, &mut self.changes);
            assert(change_views(self.changes@) =~= Seq::<ChangeView>::empty());
            changes
        }
    }

    /// Records the colors that highlight a filter: each row in the default color, then each
    /// shown range of `noises` in blue and each shown range of `signals` in red.
    pub fn apply_filter(&mut self, noises: &[Range], signals: &[Range])
        ensures
            final(self)@ == old(self)@,
            final(self).first_line() == old(self).first_line(),
            final(self).margin_width() == old(self).margin_width(),
            final(self).height() == old(self).height(),
            final(self).pending() == old(self).pending() + Seq::new(
                old(self).height(),
                |r: int| ChangeView::Format(row_span(r), Color::Default),
            ) + range_formats(
                old(self).first_line(),
                old(self).margin_width(),
                noises@,
                Color::Blue,
                noises@.len(),
            ) + range_formats(
                old(self).first_line(),
                old(self).margin_width(),
                signals@,
                Color::Red,
                signals@.len(),
            ),
    {
        let ghost start = change_views(self.changes@);
        let mut row: usize = 0;
        while row < self.height
            invariant
                row <= self.height,
                self@ == old(self)@,
                self.first_line == old(self).first_line,
                self.margin_width == old(self).margin_width,
                self.height == old(self).height,
                start == old(self).pending(),
                change_views(self.changes@) == start + Seq::new(
                    row as nat,
                    |r: int| ChangeView::Format(row_span(r), Color::Default),
                ),
            decreases self.height - row,
        {
            let ghost before = change_views(self.changes@);
            self.changes.push(Change::Format(row_span_of(row), Color::Default));
            assert(change_views(self.changes@) =~= before.push(
                ChangeView::Format(row_span(row as int), Color::Default),
            ));
            row = row + 1;
            assert(change_views(self.changes@) =~= start + Seq::new(
                row as nat,
                |r: int| ChangeView::Format(row_span(r), Color::Default),
            ));
        }
        self.push_range_formats(noises, Color::Blue);
        self.push_range_formats(signals, Color::Red);
    }

    /// Records the color `color` for each shown range of `ranges`.
    fn push_range_formats(&mut self, ranges: &[Range], color: Color)
        ensures
            final(self)@ == old(self)@,
            final(self).first_line == old(self).first_line,
            final(self).margin_width == old(self).margin_width,
            final(self).height == old(self).height,
            final(self).pending() == old(self).pending() + range_formats(
                old(self).first_line(),
                old(self).margin_width(),
                ranges@,
                color,
                ranges@.len(),
            ),
    {
        let ghost start = change_views(self.changes@);
        let mut i: usize = 0;
        while i < ranges.len()
            invariant
                i <= ranges@.len(),
                self@ == old(self)@,
                self.first_line == old(self).first_line,
                self.margin_width == old(self).margin_width,
                self.height == old(self).height,
                start == old(self).pending(),
                change_views(self.changes@) == start + range_formats(
                    self.first_line,
                    self.margin_width,
                    ranges@,
                    color,
                    i as nat,
                ),
            decreases ranges@.len() - i,
        {
            let ghost before = change_views(self.changes@);
            match self.span_of(ranges[i]) {
                Some(span) => {
                    self.changes.push(Change::Format(span, color));
                    assert(change_views(self.changes@) =~= before.push(ChangeView::Format(span, color)));
                },
                None => {},
            }
            i = i + 1;
            assert(change_views(self.changes@) =~= start + range_formats(
                self.first_line,
                self.margin_width,
                ranges@,
                color,
                i as nat,
            ));
        }
    }

    /// Adds `input` at `position`: a backspace removes the character before it (and, at the
    /// start of a line, aims at the end of the line before), and any other character is
    /// inserted, moving `position` right. Records the change to show, where it is shown in
    /// the pane, and returns, where a document is open, the range and the text of the change,
    /// for the language server to be told of it.
    pub fn add(&mut self, position: &mut Position, input: char) -> (result: Result<
        Option<(Range, String)>,
        Flag,
    >)
        requires
            old(self)@.0 matches Some(bytes) ==> add_fits(bytes, *old(position), input),
        ensures
            final(self)@.1 == (old(self)@.1 || add_wipes(*old(position), input)),
            final(self).first_line() == old(self).first_line(),
            final(self).height() == old(self).height(),
            !add_wipes(*old(position), input) ==> final(self).margin_width() == old(self).margin_width(),
            ({
                let start = add_start(*old(position), input);
                let range = Range { start, end: *old(position) };
                match span_at(old(self).first_line(), old(self).margin_width(), range) {
                    Some(span) => final(self).pending() == if add_shows(*old(position), input) {
                        old(self).pending().push(ChangeView::Text(span, add_text(input)))
                    } else {
                        old(self).pending()
                    },
                    None => final(self).pending() == old(self).pending(),
                }
            }),
            match old(self)@.0 {
                None => {
                    &&& result matches Ok(None)
                    &&& final(self)@.0 is None
                    &&& *final(position) == *old(position)
                },
                Some(bytes) => {
                    let start = add_start(*old(position), input);
                    let told = (Range { start, end: *old(position) }, add_text(input));
                    match add_offset(bytes, start) {
                        None => {
                            &&& result matches Ok(Some(change)) && (change.0, change.1@) == told
                            &&& final(self)@.0 == old(self)@.0
                            &&& *final(position) == *old(position)
                        },
                        Some(index) => if index > usize::MAX {
                            &&& result matches Err(Flag::Conversion(IntRangeError::Overflow))
                            &&& final(self)@.0 == old(self)@.0
                            &&& *final(position) == *old(position)
                        } else {
                            &&& result matches Ok(Some(change)) && (change.0, change.1@) == told
                            &&& final(self)@.0 == Some(added_bytes(bytes, index, input))
                            &&& *final(position) == if input == CHAR_BACKSPACE {
                                start
                            } else {
                                Position {
                                    line: old(position).line,
                                    character: (old(position).character + 1) as u32,
                                }
                            }
                        },
                    }
                },
            },
    {
        let mut new_text = String::new();
        let mut start = *position;
        if input == CHAR_BACKSPACE {
            if start.character == 0 {
                if start.line != 0 {
                    start.line = start.line - 1;
                    start.character = u32::MAX;
                    self.will_wipe = true;
                    self.refresh();
                }
            } else {
                start.character = start.character - 1;
                let range = Range { start, end: *position };
                match self.span_of(range) {
                    Some(span) => {
                        proof {
                            reveal_strlit("");
                        }
                        let ghost before = change_views(self.changes@);
                        self.changes.push(Change::Text(span, String::new()));
                        assert(change_views(self.changes@) =~= before.push(
                            ChangeView::Text(span, add_text(input)),
                        ));
                    },
                    None => {},
                }
            }
        } else {
            crate::app::string_push(&mut new_text, input);
            if input == CHAR_ENTER {
                self.will_wipe = true;
                self.refresh();
            } else {
                let range = Range { start, end: *position };
                match self.span_of(range) {
                    Some(span) => {
                        let ghost before = change_views(self.changes@);
                        self.changes.push(Change::Text(span, new_text.clone()));
                        assert(change_views(self.changes@) =~= before.push(
                            ChangeView::Text(span, add_text(input)),
                        ));
                    },
                    None => {},
                }
            }
        }
        proof {
            reveal_strlit("");
        }
        assert(new_text@ == add_text(input));
        let range = Range { start, end: *position };
        match &mut self.doc {
            None => Ok(None),
            Some(text) => {
                let (pointer, _) = line_start(text.as_str().as_bytes(), start.line as usize);
                match pointer {
                    None => {},
                    Some(line_index) => {
                        let data_index = match line_index.checked_add(start.character as usize) {
                            Some(data_index) => data_index,
                            None => return Err(Flag::Conversion(IntRangeError::Overflow)),
                        };
                        if input == CHAR_BACKSPACE {
                            crate::canvas::string_remove(text, data_index);
                            *position = start;
                        } else {
                            crate::canvas::string_insert(text, data_index, input);
                            position.character = position.character + 1;
                        }
                    },
                }
                Ok(Some((range, new_text)))
            },
        }
    }
}

/// The changes that color, in `color`, each range among the first `k` of `ranges` that is shown
/// in a pane whose first shown line is `first_line` and whose margin is `margin` columns wide.
pub open spec fn range_formats(
    first_line: u32,
    margin: u8,
    ranges: Seq<Range>,
    color: Color,
    k: nat,
) -> Seq<ChangeView>
    decreases k,
{
    if k == 0 {
        Seq::empty()
    } else {
        range_formats(first_line, margin, ranges, color, (k - 1) as nat) + match span_at(
            first_line,
            margin,
            ranges[k - 1],
        ) {
            Some(span) => seq![ChangeView::Format(span, color)],
            None => Seq::empty(),
        }
    }
}

/// Returns the span of the whole row `row`.
pub(crate) fn row_span_of(row: usize) -> (result: Span)
    ensures
        result == row_span(row as int),
{
    Span { first: Address { row, column: 0 }, last: Address { row, column: usize::MAX } }
}

/// Returns the text of the row that shows line `line`, whose text is `text`, with a margin of
/// `margin` columns.
fn row_line_text(line: usize, margin: u8, text: &str) -> (result: String)
    requires
        line < u32::MAX,
    ensures
        result@ == row_text(line as int, margin as nat, text@),
{
    let digits = match LineNumber::new(line + 1) {
        Ok(number) => number.text(),
        Err(_) => vstd::pervasive::unreached(),
    };
    let mut shown = String::new();
    let len = digits.unicode_len();
    let mut pad: usize = 0;
    let width = margin as usize;
    while pad + len < width
        invariant
            len == digits@.len(),
            pad + len <= width || pad == 0,
            width == margin as nat,
            shown@ == Seq::new(pad as nat, |i: int| ' '),
        decreases width - pad - len,
    {
        crate::app::string_push(&mut shown, ' ');
        assert(shown@ =~= Seq::new((pad + 1) as nat, |i: int| ' '));
        pad = pad + 1;
    }
    assert(shown@ + digits@ =~= padded(digits@, margin as nat));
    let shown = shown.concat(digits.as_str());
    let mut shown = shown;
    crate::app::string_push(&mut shown, ' ');
    let shown = shown.concat(text);
    assert(shown@ =~= row_text(line as int, margin as nat, text@));
    shown
}

/// The number `count`, or the largest `u64` where it does not fit in one.
pub open spec fn capped_count(count: int) -> nat {
    if count <= u64::MAX {
        count as nat
    } else {
        u64::MAX as nat
    }
}

/// Returns the number of lines of `text`, as `str::lines` gives them, where it fits in a `u64`.
fn line_count(text: &str) -> (result: u64)
    ensures
        result == capped_count(text_lines_count(text@)),
{
    let bytes = text.as_bytes();
    let bounds = crate::app::line_bounds(bytes);
    let total = crate::canvas::text_line_total(bytes, &bounds);
    if total as u128 <= u64::MAX as u128 {
        total as u64
    } else {
        u64::MAX
    }
}

/// The number of lines of `text`, as `str::lines` gives them.
pub open spec fn text_lines_count(text: Seq<char>) -> int {
    crate::app::text_lines(bytes_of(text)).len() as int
}

/// Returns the number of decimal digits of `value`, none for 0.
fn digits_of(value: u64) -> (result: u8)
    ensures
        result == digit_count(value as nat),
{
    let mut count: u8 = 0;
    let mut rest: u64 = value;
    assert(power_of_ten(20) == 100000000000000000000) by {
        reveal_with_fuel(power_of_ten, 21);
    }
    while rest > 0
        invariant
            count <= 20,
            rest < power_of_ten((20 - count) as nat),
            digit_count(value as nat) == count + digit_count(rest as nat),
        decreases rest,
    {
        assert(count < 20) by {
            if count == 20 {
                assert(power_of_ten(0) == 1);
            }
        }
        assert(power_of_ten((20 - count) as nat) == 10 * power_of_ten((20 - count - 1) as nat));
        proof {
            lemma_digit_count_step(rest as nat);
        }
        rest = rest / 10;
        count = count + 1;
    }
    count
}

/// Ten to the power `exponent`.
pub open spec fn power_of_ten(exponent: nat) -> nat
    decreases exponent,
{
    if exponent == 0 {
        1
    } else {
        10 * power_of_ten((exponent - 1) as nat)
    }
}

/// A positive value has one digit more than its tenth.
proof fn lemma_digit_count_step(value: nat)
    requires
        value > 0,
    ensures
        digit_count(value) == digit_count(value / 10) + 1,
{
    if value >= 10 {
        assert(decimal_text(value) == decimal_text(value / 10).push(
            crate::storage::digit_char(value % 10),
        ));
    }
}

} // verus!
