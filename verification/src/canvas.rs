//! Manages the locations and selections within the text that is displayed to the user.
use crate::app::{
    all_lines, bytes_of, closed_lines, int_pairs, lemma_text_lines_bounds, line_bounds,
    open_line_start, str_get,
    string_push, text_lines,
};
use crate::control::{Ability, Edge};
use crate::mode::{
    change_views, padded, row_span, row_span_of, Address, Change, ChangeView, Color, Span,
};
use crate::storage::{decimal, decimal_text};
use crate::rec::{match_bounds, match_count};
use vstd::prelude::*;
use vstd::utf8::{decode_utf8, encode_utf8_decode_utf8, is_char_boundary, pop_first_scalar};

verus! {

/// An error that can be resolved by the application.
#[derive(Clone, Copy, Debug, PartialEq, Eq, Structural)]
pub enum Issue {
    /// Error occurred while converting types.
    Conversion,
    /// Error occurred while parsing.
    Parse,
    /// Attempted to remove element from an empty list.
    RemoveFromEmpty,
    /// Ability is empty.
    EmptyAbility,
    /// Path is invalid.
    InvalidPath,
    /// Ability is invalid.
    InvalidAbility,
}

/// The error of an input or output operation, from std.
#[verifier::external_type_specification]
#[verifier::external_body]
pub struct ExIoError(std::io::Error);

/// An error that is unable to be resolved.
#[derive(Debug)]
pub enum Crash {
    /// An error from the file system.
    Io(std::io::Error),
    /// An error from the user interface, as the interface describes it.
    Ui(String),
    /// An unexpected error.
    Unexpected,
}

/// An error that occurs while working on a document.
#[derive(Debug)]
pub enum SheetError {
    /// An error that can be resolved.
    Issue(Issue),
    /// An error that is unable to be resolved.
    Crash(Crash),
}

/// The description of `issue`.
pub open spec fn issue_text(issue: Issue) -> Seq<char> {
    match issue {
        Issue::Conversion => "Conversion"@,
        Issue::Parse => "Parse"@,
        Issue::RemoveFromEmpty => "Attempting to remove element from an empty list"@,
        Issue::EmptyAbility => "Ability is empty"@,
        Issue::InvalidPath => "Provided path is invalid"@,
        Issue::InvalidAbility => "Provided ability is invalid"@,
    }
}

impl Issue {
    /// Returns the description of `self`.
    pub fn text(&self) -> (result: &'static str)
        ensures
            result@ == issue_text(*self),
    {
        match self {
            Issue::Conversion => "Conversion",
            Issue::Parse => "Parse",
            Issue::RemoveFromEmpty => "Attempting to remove element from an empty list",
            Issue::EmptyAbility => "Ability is empty",
            Issue::InvalidPath => "Provided path is invalid",
            Issue::InvalidAbility => "Provided ability is invalid",
        }
    }
}

/// Returns the text that `error` shows; this is its `Display` implementation.
#[verifier::external_body]
pub(crate) fn io_error_text(error: &std::io::Error) -> String {
    format!("{}", error)
}

impl SheetError {
    /// Returns the text that describes `self` to the user.
    pub fn message(&self) -> (result: String)
        ensures
            match *self {
                SheetError::Issue(issue) => result@ == "Issue: "@ + issue_text(issue),
                SheetError::Crash(Crash::Ui(description)) => result@ == "Crash: "@ + description@,
                SheetError::Crash(Crash::Unexpected) => result@ == "Crash: Unexpected"@,
                SheetError::Crash(Crash::Io(_)) => "Crash: "@.is_prefix_of(result@),
            },
    {
        match self {
            SheetError::Issue(issue) => String::from_str("Issue: ").concat(issue.text()),
            SheetError::Crash(crash) => {
                let prefix = String::from_str("Crash: ");
                let result = match crash {
                    Crash::Io(error) => prefix.concat(io_error_text(error).as_str()),
                    Crash::Ui(description) => prefix.concat(description.as_str()),
                    Crash::Unexpected => prefix.concat("Unexpected"),
                };
                proof {
                    reveal_strlit("Crash: ");
                    reveal_strlit("Unexpected");
                    reveal_strlit("Crash: Unexpected");
                    assert(result@.subrange(0, 7) =~= "Crash: "@);
                }
                result
            },
        }
    }
}

impl From<Issue> for SheetError {
    fn from(value: Issue) -> (result: Self)
        ensures
            result == SheetError::Issue(value),
    {
        SheetError::Issue(value)
    }
}

impl vstd::std_specs::convert::FromSpecImpl<Issue> for SheetError {
    open spec fn obeys_from_spec() -> bool {
        true
    }

    open spec fn from_spec(value: Issue) -> Self {
        SheetError::Issue(value)
    }
}

/// A range of character indices, from `head` to `tail`.
#[derive(Clone, Copy, Debug, PartialEq, Eq, Structural)]
pub struct Selection {
    /// The index where the selection starts.
    pub head: usize,
    /// The index where the selection ends.
    pub tail: usize,
}

impl Selection {
    /// Creates a [`Selection`] from `head` to `tail`.
    pub fn new(head: usize, tail: usize) -> (result: Self)
        ensures
            result.head == head,
            result.tail == tail,
    {
        Self { head, tail }
    }

    /// Creates a [`Selection`] that starts at `head` and holds `len` characters.
    pub fn with_len(head: usize, len: usize) -> (result: Self)
        requires
            head + len <= usize::MAX,
        ensures
            result.head == head,
            result.tail == head + len,
    {
        Self { head, tail: head + len }
    }
}

/// A location within a document: the index of its line (its string) and of its column (its
/// shift).
#[derive(Clone, Copy, Debug, PartialEq, Eq, Structural)]
pub struct Location {
    /// The index of the line.
    string: usize,
    /// The index of the column.
    shift: usize,
}

impl View for Location {
    /// The index of the line and the index of the column.
    type V = (nat, nat);

    closed spec fn view(&self) -> (nat, nat) {
        (self.string as nat, self.shift as nat)
    }
}

impl Location {
    /// Creates the [`Location`] at column `shift` of line `string`.
    pub fn new(string: usize, shift: usize) -> (result: Self)
        ensures
            result@ == (string as nat, shift as nat),
    {
        Self { string, shift }
    }

    /// Moves `self` one column left.
    pub fn move_left(&mut self)
        requires
            old(self)@.1 > 0,
        ensures
            final(self)@ == (old(self)@.0, (old(self)@.1 - 1) as nat),
    {
        self.shift = self.shift - 1;
    }

    /// Moves `self` one column right.
    pub fn move_right(&mut self)
        requires
            old(self)@.1 < usize::MAX,
        ensures
            final(self)@ == (old(self)@.0, old(self)@.1 + 1),
    {
        self.shift = self.shift + 1;
    }

    /// Moves `self` to the end of its line, the largest column there is.
    pub fn move_to_end(&mut self)
        ensures
            final(self)@ == (old(self)@.0, usize::MAX as nat),
    {
        self.shift = usize::MAX;
    }

    /// Moves `self` one line up.
    pub fn move_up(&mut self)
        requires
            old(self)@.0 > 0,
        ensures
            final(self)@ == ((old(self)@.0 - 1) as nat, old(self)@.1),
    {
        self.string = self.string - 1;
    }

    /// If `self` is in the first line.
    pub fn is_first_string(&self) -> (result: bool)
        ensures
            result == (self@.0 == 0),
    {
        self.string == 0
    }

    /// If `self` is in the first column of its line.
    pub fn is_first_shift(&self) -> (result: bool)
        ensures
            result == (self@.1 == 0),
    {
        self.shift == 0
    }

    /// Returns the number of lines from line `string` down to `self`, or `None` where `self` is
    /// above line `string`.
    pub fn string_diff(&self, string: usize) -> (result: Option<usize>)
        ensures
            match result {
                Some(diff) => string <= self@.0 && diff == self@.0 - string,
                None => self@.0 < string,
            },
    {
        self.string.checked_sub(string)
    }

    /// Returns the column of `self` moved `shift` columns right, saturating at the largest
    /// column there is.
    pub fn shift_add(&self, shift: usize) -> (result: usize)
        ensures
            result == if self@.1 + shift > usize::MAX { usize::MAX as int } else { self@.1 + shift },
    {
        self.shift.saturating_add(shift)
    }

    /// Returns the index of the line of `self`.
    pub fn string(&self) -> (result: usize)
        ensures
            result == self@.0,
    {
        self.string
    }

    /// Returns the index of the column of `self`.
    pub fn shift(&self) -> (result: usize)
        ensures
            result == self@.1,
    {
        self.shift
    }
}

/// A series of [`Location`]s, from `head` to `tail`.
#[derive(Clone, Copy, Debug, PartialEq, Eq, Structural)]
pub struct OldSelection {
    /// The first [`Location`] of the selection.
    head: Location,
    /// The last [`Location`] of the selection.
    tail: Location,
}

impl View for OldSelection {
    /// The views of the head and of the tail.
    type V = ((nat, nat), (nat, nat));

    closed spec fn view(&self) -> ((nat, nat), (nat, nat)) {
        (self.head@, self.tail@)
    }
}

impl OldSelection {
    /// Creates the [`OldSelection`] from `head` to `tail`.
    pub fn new(head: Location, tail: Location) -> (result: Self)
        ensures
            result@ == (head@, tail@),
    {
        Self { head, tail }
    }

    /// Creates the [`OldSelection`] of the entire line at index `line`.
    pub fn entire_line(line: usize) -> (result: Self)
        ensures
            result@ == ((line as nat, 0nat), (line as nat, usize::MAX as nat)),
    {
        Self { head: Location::new(line, 0), tail: Location::new(line, usize::MAX) }
    }

    /// Collapses `self` onto its `edge`.
    pub fn select_edge(&mut self, edge: Edge)
        ensures
            match edge {
                Edge::Start => final(self)@ == (old(self)@.0, old(self)@.0),
                Edge::End => final(self)@ == (old(self)@.1, old(self)@.1),
            },
    {
        match edge {
            Edge::Start => {
                self.tail = self.head;
            },
            Edge::End => {
                self.head = self.tail;
            },
        }
    }

    /// If `self` starts in the first column of its line.
    pub fn starts_at_first_shift(&self) -> (result: bool)
        ensures
            result == (self@.0.1 == 0),
    {
        self.head.is_first_shift()
    }

    /// If `self` starts in the first line.
    pub fn starts_at_first_string(&self) -> (result: bool)
        ensures
            result == (self@.0.0 == 0),
    {
        self.head.is_first_string()
    }

    /// Moves the head of `self` one column left.
    pub fn expand_left(&mut self)
        requires
            old(self)@.0.1 > 0,
        ensures
            final(self)@ == ((old(self)@.0.0, (old(self)@.0.1 - 1) as nat), old(self)@.1),
    {
        self.head.move_left()
    }

    /// Moves the head of `self` one line up.
    pub fn expand_up(&mut self)
        requires
            old(self)@.0.0 > 0,
        ensures
            final(self)@ == (((old(self)@.0.0 - 1) as nat, old(self)@.0.1), old(self)@.1),
    {
        self.head.move_up()
    }

    /// Moves the head of `self` to the end of its line.
    pub fn move_head_to_end(&mut self)
        ensures
            final(self)@ == ((old(self)@.0.0, usize::MAX as nat), old(self)@.1),
    {
        self.head.move_to_end()
    }

    /// Moves both ends of `self` one column right.
    pub fn move_right(&mut self)
        requires
            old(self)@.0.1 < usize::MAX,
            old(self)@.1.1 < usize::MAX,
        ensures
            final(self)@ == ((old(self)@.0.0, old(self)@.0.1 + 1), (old(self)@.1.0, old(self)@.1.1 + 1)),
    {
        self.head.move_right();
        self.tail.move_right();
    }
}

/// The character that removes a character.
pub const CHAR_BACKSPACE: char = '\u{8}';

/// The character that starts a new line.
pub const CHAR_ENTER: char = '\n';

/// The byte offsets at which the lines of `bytes` start: 0, then one past each line feed.
pub open spec fn line_starts(bytes: Seq<u8>) -> Seq<int>
    decreases bytes.len(),
{
    if bytes.len() == 0 {
        seq![0]
    } else if bytes.last() == 10 {
        line_starts(bytes.drop_last()).push(bytes.len() as int)
    } else {
        line_starts(bytes.drop_last())
    }
}

/// The byte offset of column `location.1` of line `location.0` of `bytes`, where only the lines
/// that end in a line feed count; `None` where there is no such line or the offset does not fit
/// in `usize`.
pub open spec fn offset_of(bytes: Seq<u8>, location: (nat, nat)) -> Option<int> {
    let starts = line_starts(bytes);
    if location.0 + 1 < starts.len() && starts[location.0 as int] + location.1 <= usize::MAX {
        Some(starts[location.0 as int] + location.1)
    } else {
        None
    }
}

/// The text `text` without its carriage returns.
pub open spec fn without_returns(text: Seq<char>) -> Seq<char>
    decreases text.len(),
{
    if text.len() == 0 {
        text
    } else if text.last() == '\r' {
        without_returns(text.drop_last())
    } else {
        without_returns(text.drop_last()).push(text.last())
    }
}

/// The number of line feeds in `text`.
pub open spec fn line_feeds(text: Seq<char>) -> nat
    decreases text.len(),
{
    if text.len() == 0 {
        0
    } else if text.last() == '\n' {
        line_feeds(text.drop_last()) + 1
    } else {
        line_feeds(text.drop_last())
    }
}

/// A text holds no more line feeds than characters.
proof fn lemma_line_feeds_bound(text: Seq<char>)
    ensures
        line_feeds(text) <= text.len(),
    decreases text.len(),
{
    if text.len() > 0 {
        lemma_line_feeds_bound(text.drop_last());
    }
}

/// The number of lines of `text`: one for each line feed, and one for the text after the last
/// line feed where there is any.
pub open spec fn line_total(text: Seq<char>) -> nat {
    if text.len() > 0 && text.last() != '\n' {
        line_feeds(text) + 1
    } else {
        line_feeds(text)
    }
}

/// A selection by its view: its head and its tail, each a line and a column.
pub type SelectionView = ((nat, nat), (nat, nat));

/// A document by its view: the bytes of its text, if it has one, and its number of lines.
pub type DocumentView = (Option<Seq<u8>>, nat);

/// The bytes of `bytes` once `input` is written at byte `index`: the character at `index`
/// removed for a backspace, nothing changed for an enter, and `input` inserted otherwise.
pub open spec fn edited_bytes(bytes: Seq<u8>, index: int, input: char) -> Seq<u8> {
    if input == CHAR_BACKSPACE {
        bytes.subrange(0, index) + pop_first_scalar(bytes.subrange(index, bytes.len() as int))
    } else if input == CHAR_ENTER {
        bytes
    } else {
        bytes.subrange(0, index) + bytes_of(seq![input]) + bytes.subrange(index, bytes.len() as int)
    }
}

/// If a backspace at `selection` joins its line to the line before.
pub open spec fn joins_lines(selection: SelectionView) -> bool {
    selection.0.1 == 0 && selection.0.0 > 0
}

/// The number of lines `count` once `input` is written at `selection`.
pub open spec fn edited_count(count: nat, selection: SelectionView, input: char) -> int {
    if input == CHAR_BACKSPACE && joins_lines(selection) {
        count - 1
    } else if input == CHAR_ENTER {
        count + 1int
    } else {
        count as int
    }
}

/// The selection `selection` once `input` is written at it: for a backspace at the start of a
/// line, its head goes to the end of the line before; for a character other than a backspace or
/// an enter, both ends go one column right.
pub open spec fn edited_selection(selection: SelectionView, input: char) -> SelectionView {
    if input == CHAR_BACKSPACE {
        if joins_lines(selection) {
            (((selection.0.0 - 1) as nat, usize::MAX as nat), selection.1)
        } else {
            selection
        }
    } else if input == CHAR_ENTER {
        selection
    } else {
        ((selection.0.0, selection.0.1 + 1), (selection.1.0, selection.1.1 + 1))
    }
}

/// The document and the selection once `input` is written at the head of `selection` in `doc`;
/// `None` where the head is not in the text.
pub open spec fn edit_outcome(doc: DocumentView, selection: SelectionView, input: char) -> Option<
    (DocumentView, SelectionView),
> {
    match doc.0 {
        None => Some((doc, selection)),
        Some(bytes) => match offset_of(bytes, selection.0) {
            None => None,
            Some(index) => Some(
                (
                    (
                        Some(edited_bytes(bytes, index, input)),
                        edited_count(doc.1, selection, input) as nat,
                    ),
                    edited_selection(selection, input),
                ),
            ),
        },
    }
}

/// If writing `input` at the head of `selection` in `doc` stays within what the text and the
/// counters can take: a removed character must be there, an inserted one must not cut a
/// character, and no counter may go past its bounds.
pub open spec fn edit_fits(doc: DocumentView, selection: SelectionView, input: char) -> bool {
    match doc.0 {
        None => true,
        Some(bytes) => match offset_of(bytes, selection.0) {
            None => true,
            Some(index) => if input == CHAR_BACKSPACE {
                &&& joins_lines(selection) ==> doc.1 > 0
                &&& index < bytes.len()
                &&& is_char_boundary(bytes, index)
            } else if input == CHAR_ENTER {
                doc.1 < usize::MAX
            } else {
                &&& is_char_boundary(bytes, index)
                &&& selection.0.1 < usize::MAX
                &&& selection.1.1 < usize::MAX
            },
        },
    }
}

/// The selection that `input` is written at, for the selection `selection`: for a backspace
/// that does not start a line, its head moves one column left, onto the character to remove.
pub open spec fn prepared(selection: SelectionView, input: char) -> SelectionView {
    if input == CHAR_BACKSPACE && selection.0.1 > 0 {
        ((selection.0.0, (selection.0.1 - 1) as nat), selection.1)
    } else {
        selection
    }
}

/// If writing `input` at `selection` shows a change of the text: not for an enter, nor for a
/// backspace at the start of a line.
pub open spec fn shows_write(selection: SelectionView, input: char) -> bool {
    if input == CHAR_BACKSPACE {
        selection.0.1 > 0
    } else {
        input != CHAR_ENTER
    }
}

/// The text that writing `input` shows: nothing for a backspace, and `input` otherwise.
pub open spec fn write_text(input: char) -> Seq<char> {
    if input == CHAR_BACKSPACE {
        Seq::empty()
    } else {
        seq![input]
    }
}

/// The address of `location` in a pane whose first shown line follows line `first_visible`
/// and whose margin is `margin` columns wide; `None` where the location is not below that line.
pub open spec fn location_address(first_visible: nat, margin: nat, location: (nat, nat)) -> Option<
    Address,
> {
    let top = if first_visible + 1 <= usize::MAX {
        first_visible + 1
    } else {
        usize::MAX as nat
    };
    let origin = if margin + 1 <= usize::MAX {
        margin + 1
    } else {
        usize::MAX as nat
    };
    if location.0 >= top {
        Some(
            Address {
                row: (location.0 - top) as usize,
                column: if location.1 + origin <= usize::MAX {
                    (location.1 + origin) as usize
                } else {
                    usize::MAX
                },
            },
        )
    } else {
        None
    }
}

/// The span of `selection` in a pane as [`location_address`] places its ends.
pub open spec fn selection_span(first_visible: nat, margin: nat, selection: SelectionView) -> Option<
    Span,
> {
    match (
        location_address(first_visible, margin, selection.0),
        location_address(first_visible, margin, selection.1),
    ) {
        (Some(first), Some(last)) => Some(Span { first, last }),
        _ => None,
    }
}

/// The width of the margin of a document of `count` lines: the number of digits of `count`.
pub open spec fn margin_for(count: nat) -> nat {
    decimal_text(count).len()
}

/// The state of a pane as it is written to: its document, the width of its margin, and, unless a
/// write failed, the selections written so far and the changes to show.
pub type WriteState = (DocumentView, nat, Option<(Seq<SelectionView>, Seq<ChangeView>)>);

/// The state once `input` is written at each of the first `k` selections of `selections` in
/// turn, in a pane that starts with document `doc` and a margin of `margin` columns and whose
/// first shown line follows line `first_visible`; where a write fails, the document and the
/// margin are as the writes before it left them.
pub open spec fn written(
    doc: DocumentView,
    margin: nat,
    first_visible: nat,
    selections: Seq<SelectionView>,
    input: char,
    k: nat,
) -> WriteState
    decreases k,
{
    if k == 0 {
        (doc, margin, Some((seq![], seq![])))
    } else {
        let (before, width, done) = written(doc, margin, first_visible, selections, input, (k - 1) as nat);
        match done {
            None => (before, width, None),
            Some((moved, changes)) => {
                let selection = selections[k - 1];
                let target = prepared(selection, input);
                let shown = if shows_write(selection, input) {
                    match selection_span(first_visible, width, target) {
                        Some(span) => seq![ChangeView::Text(span, write_text(input))],
                        None => Seq::empty(),
                    }
                } else {
                    Seq::empty()
                };
                match edit_outcome(before, target, input) {
                    None => (before, width, None),
                    Some((after, selection)) => (
                        after,
                        margin_for(after.1),
                        Some((moved.push(selection), changes + shown)),
                    ),
                }
            },
        }
    }
}

/// If each of the first `k` writes of [`written`] stays within what the text and the counters
/// can take.
pub open spec fn writes_fit(
    doc: DocumentView,
    margin: nat,
    first_visible: nat,
    selections: Seq<SelectionView>,
    input: char,
    k: nat,
) -> bool
    decreases k,
{
    if k == 0 {
        true
    } else {
        &&& writes_fit(doc, margin, first_visible, selections, input, (k - 1) as nat)
        &&& match written(doc, margin, first_visible, selections, input, (k - 1) as nat) {
            (before, _, Some(_)) => edit_fits(before, prepared(selections[k - 1], input), input),
            (_, _, None) => true,
        }
    }
}

/// If writing `input` at one of the first `k` selections of `selections` calls for the whole
/// pane to be drawn again: an enter, or a backspace that joins two lines.
pub open spec fn redraws(selections: Seq<SelectionView>, input: char, k: int) -> bool {
    exists|j: int|
        0 <= j < k && (input == CHAR_ENTER || (input == CHAR_BACKSPACE && joins_lines(
            #[trigger] selections[j],
        )))
}

/// Where the writes fit for `n` selections, they fit for the first `k`.
proof fn lemma_writes_fit_prefix(
    doc: DocumentView,
    margin: nat,
    first_visible: nat,
    selections: Seq<SelectionView>,
    input: char,
    k: nat,
    n: nat,
)
    requires
        k <= n,
        writes_fit(doc, margin, first_visible, selections, input, n),
    ensures
        writes_fit(doc, margin, first_visible, selections, input, k),
    decreases n - k,
{
    if k < n {
        lemma_writes_fit_prefix(doc, margin, first_visible, selections, input, k, (n - 1) as nat);
    }
}

/// Returns the byte offset at which line `line` of `bytes` starts, where there is such a line,
/// and the number of line feeds of `bytes`.
pub(crate) fn line_start(bytes: &[u8], line: usize) -> (result: (Option<usize>, usize))
    ensures
        result.1 + 1 == line_starts(bytes@).len(),
        match result.0 {
            Some(start) => line < line_starts(bytes@).len() && start == line_starts(bytes@)[line as int],
            None => line >= line_starts(bytes@).len(),
        },
{
    let mut i: usize = 0;
    let mut feeds: usize = 0;
    let mut candidate: usize = 0;
    while i < bytes.len()
        invariant
            i <= bytes@.len(),
            feeds <= i,
            feeds + 1 == line_starts(bytes@.subrange(0, i as int)).len(),
            line <= feeds ==> candidate == line_starts(bytes@.subrange(0, i as int))[line as int],
        decreases bytes@.len() - i,
    {
        let ghost before = bytes@.subrange(0, i as int);
        assert(bytes@.subrange(0, i + 1).drop_last() =~= before);
        if bytes[i] == 10 {
            if feeds + 1 == line {
                candidate = i + 1;
            }
            feeds = feeds + 1;
        }
        i = i + 1;
    }
    assert(bytes@.subrange(0, i as int) =~= bytes@);
    if line <= feeds {
        (Some(candidate), feeds)
    } else {
        (None, feeds)
    }
}

/// A document: its text, if it has one, and its number of lines.
pub struct Document {
    /// The text of the document.
    text: Option<String>,
    /// The number of lines of the document.
    string_count: usize,
}

impl View for Document {
    /// The bytes of the text, if there is one, and the number of lines.
    type V = DocumentView;

    closed spec fn view(&self) -> DocumentView {
        (
            match self.text {
                Some(text) => Some(bytes_of(text@)),
                None => None,
            },
            self.string_count as nat,
        )
    }
}

impl Document {
    /// Creates the [`Document`] of the text `text` as it was read: its carriage returns are
    /// dropped, and its lines are counted.
    pub fn from_text(text: &str) -> (result: Self)
        ensures
            result@ == (Some(bytes_of(without_returns(text@))), line_total(text@)),
    {
        let mut kept = String::new();
        let mut feeds: usize = 0;
        let mut i: usize = 0;
        let n = text.unicode_len();
        while i < n
            invariant
                n == text@.len(),
                i <= n,
                feeds <= i,
                kept@ == without_returns(text@.subrange(0, i as int)),
                feeds == line_feeds(text@.subrange(0, i as int)),
            decreases n - i,
        {
            assert(text@.subrange(0, i + 1).drop_last() =~= text@.subrange(0, i as int));
            let c = text.get_char(i);
            if c != '\r' {
                string_push(&mut kept, c);
            }
            if c == '\n' {
                feeds = feeds + 1;
            }
            i = i + 1;
        }
        assert(text@.subrange(0, n as int) =~= text@);
        proof {
            if n > 0 {
                lemma_line_feeds_bound(text@.drop_last());
            }
        }
        let string_count = if n > 0 && text.get_char(n - 1) != '\n' {
            feeds + 1
        } else {
            feeds
        };
        Document { text: Some(kept), string_count }
    }

    /// Creates a [`Document`] without text.
    pub fn empty() -> (result: Self)
        ensures
            result@ == (None::<Seq<u8>>, 0nat),
    {
        Document { text: None, string_count: 0 }
    }

    /// Returns the text of `self`, if it has one.
    pub fn text(&self) -> (result: Option<&str>)
        ensures
            match result {
                Some(text) => self@.0 == Some(bytes_of(text@)),
                None => self@.0 is None,
            },
    {
        match &self.text {
            Some(text) => Some(text.as_str()),
            None => None,
        }
    }

    /// Returns the number of lines of `self`.
    pub fn string_count(&self) -> (result: usize)
        ensures
            result == self@.1,
    {
        self.string_count
    }

    /// Returns the text of line `index` of `self`, as `str::lines` gives the lines; `None` where
    /// there is no such line.
    pub fn line(&self, index: usize) -> (result: Option<&str>)
        ensures
            match result {
                Some(line) => line_text(self@, index as int) == Some(line@),
                None => line_text(self@, index as int) is None,
            },
    {
        match &self.text {
            None => None,
            Some(text) => text_line(text.as_str(), index),
        }
    }

    /// Returns the byte offset of `location` in the text of `self`: 0 where there is no text, and
    /// an error where the location is not in the text.
    pub fn index_of(&self, location: &Location) -> (result: Result<usize, SheetError>)
        ensures
            match self@.0 {
                None => result matches Ok(index) && index == 0,
                Some(bytes) => match offset_of(bytes, location@) {
                    Some(index) => result matches Ok(found) && found == index,
                    None => result matches Err(SheetError::Crash(Crash::Unexpected)),
                },
            },
    {
        match &self.text {
            None => Ok(0),
            Some(text) => {
                let bytes = text.as_str().as_bytes();
                let (start, feeds) = line_start(bytes, location.string);
                match start {
                    Some(start) => {
                        if location.string < feeds {
                            match start.checked_add(location.shift) {
                                Some(index) => Ok(index),
                                None => Err(SheetError::Crash(Crash::Unexpected)),
                            }
                        } else {
                            Err(SheetError::Crash(Crash::Unexpected))
                        }
                    },
                    None => Err(SheetError::Crash(Crash::Unexpected)),
                }
            },
        }
    }

    /// Writes `input` at the head of `selection`: a backspace removes the character there
    /// (and, at the start of a line, moves the head to the end of the line before), an enter
    /// counts one more line, and any other character is inserted, moving `selection` right.
    pub fn edit(&mut self, selection: &mut OldSelection, input: char) -> (result: Result<
        (),
        SheetError,
    >)
        requires
            edit_fits(old(self)@, old(selection)@, input),
        ensures
            match edit_outcome(old(self)@, old(selection)@, input) {
                None => {
                    &&& result matches Err(SheetError::Crash(Crash::Unexpected))
                    &&& final(self)@ == old(self)@
                    &&& final(selection)@ == old(selection)@
                },
                Some((doc, moved)) => {
                    &&& result is Ok
                    &&& final(self)@ == doc
                    &&& final(selection)@ == moved
                },
            },
    {
        let index = match self.index_of(&selection.head) {
            Ok(index) => index,
            Err(error) => return Err(error),
        };
        match &mut self.text {
            None => {},
            Some(text) => {
                if input == CHAR_BACKSPACE {
                    if selection.starts_at_first_shift() && !selection.starts_at_first_string() {
                        selection.expand_up();
                        selection.move_head_to_end();
                        self.string_count = self.string_count - 1;
                    }
                    string_remove(text, index);
                } else if input == CHAR_ENTER {
                    self.string_count = self.string_count + 1;
                } else {
                    string_insert(text, index, input);
                    selection.move_right();
                }
            },
        }
        Ok(())
    }
}

/// Removes the character that starts at byte `index` of `text`; this is `String::remove`.
#[verifier::external_body]
pub(crate) fn string_remove(text: &mut String, index: usize)
    requires
        index < bytes_of(old(text)@).len(),
        is_char_boundary(bytes_of(old(text)@), index as int),
    ensures
        bytes_of(final(text)@) == bytes_of(old(text)@).subrange(0, index as int) + pop_first_scalar(
            bytes_of(old(text)@).subrange(index as int, bytes_of(old(text)@).len() as int),
        ),
{
    text.remove(index);
}

/// Inserts `c` into `text` at byte `index`; this is `String::insert`.
#[verifier::external_body]
pub(crate) fn string_insert(text: &mut String, index: usize, c: char)
    requires
        is_char_boundary(bytes_of(old(text)@), index as int),
    ensures
        bytes_of(final(text)@) == bytes_of(old(text)@).subrange(0, index as int) + bytes_of(seq![c])
            + bytes_of(old(text)@).subrange(index as int, bytes_of(old(text)@).len() as int),
{
    text.insert(index, c);
}

/// The part of a pane that is written to: its document, the selections within it, and where it
/// shows them.
pub struct Pane {
    /// The document of the pane.
    doc: Document,
    /// The selection of each line, by the byte offsets of its ends.
    selections: Vec<Selection>,
    /// The selections where input is written.
    old_selections: Vec<OldSelection>,
    /// The line that the first shown line follows.
    first_visible_string_index: usize,
    /// The number of columns of the margin.
    margin_width: usize,
    /// The number of rows of the pane.
    height: usize,
}

impl View for Pane {
    /// The view of the document, the views of the selections where input is written, and the
    /// selections of the lines.
    type V = (DocumentView, Seq<SelectionView>, Seq<Selection>);

    closed spec fn view(&self) -> (DocumentView, Seq<SelectionView>, Seq<Selection>) {
        (
            self.doc@,
            self.old_selections@.map_values(|selection: OldSelection| selection@),
            self.selections@,
        )
    }
}

impl Pane {
    /// The line that the first shown line follows.
    pub closed spec fn first_visible(self) -> nat {
        self.first_visible_string_index as nat
    }

    /// The number of columns of the margin.
    pub closed spec fn margin(self) -> nat {
        self.margin_width as nat
    }

    /// The number of rows of the pane.
    pub closed spec fn height(self) -> nat {
        self.height as nat
    }

    /// Creates a [`Pane`] of `height` rows that shows `doc` with the selections
    /// `old_selections`, no line selected, its first line shown first and no margin yet.
    pub fn new(doc: Document, old_selections: Vec<OldSelection>, height: usize) -> (result: Self)
        ensures
            result@ == (
                doc@,
                old_selections@.map_values(|selection: OldSelection| selection@),
                Seq::<Selection>::empty(),
            ),
            result.first_visible() == 0,
            result.margin() == 0,
            result.height() == height,
    {
        Pane {
            doc,
            selections: Vec::new(),
            old_selections,
            first_visible_string_index: 0,
            margin_width: 0,
            height,
        }
    }

    /// Returns the selections of the lines of `self`.
    pub fn line_selections(&self) -> (result: &Vec<Selection>)
        ensures
            result@ == self@.2,
    {
        &self.selections
    }

    /// Returns the document of `self`.
    pub fn doc(&self) -> (result: &Document)
        ensures
            result@ == self@.0,
    {
        &self.doc
    }

    /// Returns the selections of `self`.
    pub fn selections(&self) -> (result: &Vec<OldSelection>)
        ensures
            result@.map_values(|selection: OldSelection| selection@) == self@.1,
    {
        &self.old_selections
    }

    /// Sets the width of the margin to the number of digits of the number of lines.
    fn refresh(&mut self)
        ensures
            final(self).doc == old(self).doc,
            final(self).selections == old(self).selections,
            final(self).old_selections == old(self).old_selections,
            final(self).first_visible() == old(self).first_visible(),
            final(self).height() == old(self).height(),
            final(self).margin() == margin_for(old(self)@.0.1),
    {
        let digits = decimal(self.doc.string_count);
        self.margin_width = digits.unicode_len();
    }

    /// Returns the address of `location` in `self`, or `None` where it is not shown.
    fn address_of(&self, location: Location) -> (result: Option<Address>)
        ensures
            result == location_address(self.first_visible(), self.margin(), location@),
    {
        let top = self.first_visible_string_index.saturating_add(1);
        match location.string.checked_sub(top) {
            Some(row) => Some(
                Address { row, column: location.shift.saturating_add(self.margin_width.saturating_add(1)) },
            ),
            None => None,
        }
    }

    /// Returns the span of `selection` in `self`, or `None` where one of its ends is not shown.
    fn span_of(&self, selection: &OldSelection) -> (result: Option<Span>)
        ensures
            result == selection_span(self.first_visible(), self.margin(), selection@),
    {
        match self.address_of(selection.head) {
            Some(first) => match self.address_of(selection.tail) {
                Some(last) => Some(Span { first, last }),
                None => None,
            },
            None => None,
        }
    }

    /// Writes `input` at each selection in turn, and returns the changes that show the result:
    /// the whole pane drawn again where a line was added or joined, and otherwise the writes;
    /// each time followed by the colors of the rows and the selections. Where a selection is not
    /// in the text, stops there with the error.
    pub fn write(&mut self, input: char) -> (result: Result<Vec<Change>, SheetError>)
        requires
            writes_fit(
                old(self)@.0,
                old(self).margin(),
                old(self).first_visible(),
                old(self)@.1,
                input,
                old(self)@.1.len(),
            ),
        ensures
            ({
                let (doc, margin, done) = written(
                    old(self)@.0,
                    old(self).margin(),
                    old(self).first_visible(),
                    old(self)@.1,
                    input,
                    old(self)@.1.len(),
                );
                &&& final(self)@.0 == doc
                &&& final(self).margin() == margin
                &&& final(self)@.2 == old(self)@.2
                &&& final(self).first_visible() == old(self).first_visible()
                &&& final(self).height() == old(self).height()
                &&& match done {
                    Some((selections, changes)) => {
                        &&& final(self)@.1 == selections
                        &&& result matches Ok(shown) && change_views(shown@) == if redraws(
                            old(self)@.1,
                            input,
                            old(self)@.1.len() as int,
                        ) {
                            redrawn(doc, old(self).first_visible(), margin, old(self).height(), selections)
                        } else {
                            changes + repainted(
                                old(self).first_visible(),
                                margin,
                                old(self).height(),
                                selections,
                            )
                        }
                    },
                    None => {
                        &&& result matches Err(SheetError::Crash(Crash::Unexpected))
                        &&& final(self)@.1 == old(self)@.1
                    },
                }
            }),
    {
        let ghost start = old(self)@;
        let ghost margin = old(self).margin();
        let ghost first_visible = old(self).first_visible();
        let mut new_selections: Vec<OldSelection> = Vec::new();
        let mut changes: Vec<Change> = Vec::new();
        let mut will_redraw = false;
        let mut i: usize = 0;
        while i < self.old_selections.len()
            invariant
                start == old(self)@,
                margin == old(self).margin(),
                first_visible == old(self).first_visible(),
                self.first_visible() == first_visible,
                self.height() == old(self).height(),
                self.old_selections@ == old(self).old_selections@,
                self.selections@ == old(self).selections@,
                i <= self.old_selections@.len(),
                writes_fit(start.0, margin, first_visible, start.1, input, start.1.len()),
                written(start.0, margin, first_visible, start.1, input, i as nat) == (
                    self.doc@,
                    self.margin(),
                    Some(
                        (
                            new_selections@.map_values(|selection: OldSelection| selection@),
                            change_views(changes@),
                        ),
                    ),
                ),
                will_redraw == redraws(start.1, input, i as int),
            decreases self.old_selections@.len() - i,
        {
            proof {
                lemma_writes_fit_prefix(
                    start.0,
                    margin,
                    first_visible,
                    start.1,
                    input,
                    (i + 1) as nat,
                    start.1.len(),
                );
            }
            let ghost before_changes = change_views(changes@);
            let mut selection = self.old_selections[i];
            assert(start.1[i as int] == selection@);
            let ghost original = selection@;
            if input == CHAR_BACKSPACE {
                if selection.starts_at_first_shift() {
                    if !selection.starts_at_first_string() {
                        will_redraw = true;
                    }
                } else {
                    selection.expand_left();
                    match self.span_of(&selection) {
                        Some(span) => {
                            proof {
                                reveal_strlit("");
                            }
                            changes.push(Change::Text(span, String::new()));
                            assert(change_views(changes@) =~= before_changes.push(
                                ChangeView::Text(span, write_text(input)),
                            ));
                        },
                        None => {},
                    }
                }
            } else if input == CHAR_ENTER {
                will_redraw = true;
            } else {
                match self.span_of(&selection) {
                    Some(span) => {
                        let mut text = String::new();
                        string_push(&mut text, input);
                        assert(text@ =~= write_text(input));
                        changes.push(Change::Text(span, text));
                        assert(change_views(changes@) =~= before_changes.push(
                            ChangeView::Text(span, write_text(input)),
                        ));
                    },
                    None => {},
                }
            }
            assert(selection@ == prepared(original, input));
            let ghost shown = if shows_write(original, input) {
                match selection_span(first_visible, self.margin(), prepared(original, input)) {
                    Some(span) => seq![ChangeView::Text(span, write_text(input))],
                    None => Seq::empty(),
                }
            } else {
                Seq::empty()
            };
            assert(change_views(changes@) =~= before_changes + shown);
            match self.doc.edit(&mut selection, input) {
                Ok(()) => {},
                Err(error) => {
                    proof {
                        lemma_written_stays_failed(
                            start.0,
                            margin,
                            first_visible,
                            start.1,
                            input,
                            (i + 1) as nat,
                            start.1.len(),
                        );
                    }
                    return Err(error);
                },
            }
            self.refresh();
            let ghost before = new_selections@.map_values(|selection: OldSelection| selection@);
            new_selections.push(selection);
            assert(new_selections@.map_values(|selection: OldSelection| selection@) =~= before.push(
                selection@,
            ));
            i = i + 1;
            assert(will_redraw == redraws(start.1, input, i as int)) by {
                if will_redraw && !redraws(start.1, input, (i - 1) as int) {
                    assert(start.1[i - 1] == start.1[(i - 1) as int]);
                }
            }
        }
        self.old_selections = new_selections;
        if will_redraw {
            Ok(self.redraw())
        } else {
            let repaint = self.repaint();
            let ghost shown = change_views(changes@);
            let mut changes = changes;
            let mut repaint = repaint;
            let ghost painted = change_views(repaint@);
            changes.append(&mut repaint);
            assert(change_views(changes@) =~= shown + painted);
            Ok(changes)
        }
    }

    /// Returns the colors of the rows of `self`, followed by those of its selections.
    fn repaint(&self) -> (result: Vec<Change>)
        ensures
            change_views(result@) == repainted(self.first_visible(), self.margin(), self.height(), self@.1),
    {
        let mut changes: Vec<Change> = Vec::new();
        let mut row: usize = 0;
        while row < self.height
            invariant
                row <= self.height,
                change_views(changes@) == Seq::new(
                    row as nat,
                    |r: int| ChangeView::Format(row_span(r), Color::Black),
                ),
            decreases self.height - row,
        {
            let ghost before = change_views(changes@);
            let span = row_span_of(row);
            changes.push(Change::Format(span, Color::Black));
            assert(change_views(changes@) =~= before.push(
                ChangeView::Format(row_span(row as int), Color::Black),
            ));
            row = row + 1;
            assert(change_views(changes@) =~= Seq::new(
                row as nat,
                |r: int| ChangeView::Format(row_span(r), Color::Black),
            ));
        }
        let ghost rows = change_views(changes@);
        let mut i: usize = 0;
        while i < self.old_selections.len()
            invariant
                i <= self.old_selections@.len(),
                rows == Seq::new(self.height(), |r: int| ChangeView::Format(row_span(r), Color::Black)),
                change_views(changes@) == rows + selection_formats(
                    self.first_visible(),
                    self.margin(),
                    self@.1,
                    i as nat,
                ),
            decreases self.old_selections@.len() - i,
        {
            let selection = self.old_selections[i];
            assert(self@.1[i as int] == selection@);
            let ghost before = change_views(changes@);
            match self.span_of(&selection) {
                Some(span) => {
                    changes.push(Change::Format(span, Color::Blue));
                    assert(change_views(changes@) =~= before.push(ChangeView::Format(span, Color::Blue)));
                },
                None => {},
            }
            i = i + 1;
            assert(change_views(changes@) =~= rows + selection_formats(
                self.first_visible(),
                self.margin(),
                self@.1,
                i as nat,
            ));
        }
        changes
    }

    /// Returns the changes that draw `self` again whole: a clearing, the rows of its lines, and
    /// its colors.
    fn redraw(&self) -> (result: Vec<Change>)
        ensures
            change_views(result@) == redrawn(self@.0, self.first_visible(), self.margin(), self.height(), self@.1),
    {
        let mut changes: Vec<Change> = Vec::new();
        changes.push(Change::Clear);
        let mut row: usize = 0;
        let ghost whole = seq![ChangeView::Clear] + redrawn_rows(
            self@.0,
            self.first_visible(),
            self.margin(),
            self.height(),
            0,
        );
        loop
            invariant
                row <= self.height,
                change_views(changes@) + redrawn_rows(
                    self@.0,
                    self.first_visible(),
                    self.margin(),
                    self.height(),
                    row as nat,
                ) == whole,
            ensures
                change_views(changes@) == whole,
            decreases self.height - row,
        {
            let ghost rest = redrawn_rows(
                self@.0,
                self.first_visible(),
                self.margin(),
                self.height(),
                row as nat,
            );
            if row >= self.height || self.first_visible_string_index >= usize::MAX - row {
                assert(rest =~= Seq::<ChangeView>::empty());
                assert(change_views(changes@) =~= change_views(changes@) + rest);
                break ;
            }
            let line = self.first_visible_string_index + row;
            match self.doc.line(line) {
                None => {
                    assert(rest =~= Seq::<ChangeView>::empty());
                    assert(change_views(changes@) =~= change_views(changes@) + rest);
                    break ;
                },
                Some(text) => {
                    let shown = numbered_line(line + 1, self.margin_width, text);
                    let ghost before = change_views(changes@);
                    changes.push(Change::Text(row_span_of(row), shown));
                    assert(change_views(changes@) =~= before.push(
                        ChangeView::Text(row_span(row as int), shown@),
                    ));
                    assert(rest =~= seq![ChangeView::Text(row_span(row as int), shown@)]
                        + redrawn_rows(
                        self@.0,
                        self.first_visible(),
                        self.margin(),
                        self.height(),
                        (row + 1) as nat,
                    ));
                    assert(change_views(changes@) + redrawn_rows(
                        self@.0,
                        self.first_visible(),
                        self.margin(),
                        self.height(),
                        (row + 1) as nat,
                    ) =~= before + rest);
                },
            }
            row = row + 1;
        }
        let repaint = self.repaint();
        let ghost drawn = change_views(changes@);
        let ghost painted = change_views(repaint@);
        let mut repaint = repaint;
        changes.append(&mut repaint);
        assert(change_views(changes@) =~= drawn + painted);
        changes
    }

    /// Returns the number of lines that a scroll moves: a quarter of the height.
    fn scroll_delta(&self) -> (result: usize)
        ensures
            result == self.height() / 4,
    {
        self.height / 4
    }

    /// Shows line `index` first, and returns the changes that draw `self` again; none where that
    /// line is shown first already.
    pub fn jump_to(&mut self, index: usize) -> (result: Vec<Change>)
        ensures
            final(self)@ == old(self)@,
            final(self).margin() == old(self).margin(),
            final(self).height() == old(self).height(),
            final(self).first_visible() == index,
            change_views(result@) == if index == old(self).first_visible() {
                Seq::<ChangeView>::empty()
            } else {
                redrawn(old(self)@.0, index as nat, old(self).margin(), old(self).height(), old(self)@.1)
            },
    {
        if index == self.first_visible_string_index {
            let changes: Vec<Change> = Vec::new();
            assert(change_views(changes@) =~= Seq::<ChangeView>::empty());
            changes
        } else {
            self.first_visible_string_index = index;
            self.redraw()
        }
    }

    /// Scrolls down by a quarter of the height, but not past the last line.
    pub fn scroll_down(&mut self) -> (result: Vec<Change>)
        ensures
            ({
                let moved = if old(self).first_visible() + old(self).height() / 4 <= usize::MAX {
                    old(self).first_visible() + old(self).height() / 4
                } else {
                    usize::MAX as nat
                };
                let last = if old(self)@.0.1 >= 1 {
                    (old(self)@.0.1 - 1) as nat
                } else {
                    0
                };
                let target = if moved < last {
                    moved
                } else {
                    last
                };
                &&& final(self)@ == old(self)@
                &&& final(self).margin() == old(self).margin()
                &&& final(self).height() == old(self).height()
                &&& final(self).first_visible() == target
                &&& change_views(result@) == if target == old(self).first_visible() {
                    Seq::<ChangeView>::empty()
                } else {
                    redrawn(old(self)@.0, target, old(self).margin(), old(self).height(), old(self)@.1)
                }
            }),
    {
        let moved = self.first_visible_string_index.saturating_add(self.scroll_delta());
        let last = self.doc.string_count().saturating_sub(1);
        let target = if moved < last {
            moved
        } else {
            last
        };
        self.jump_to(target)
    }

    /// Scrolls up by a quarter of the height, but not past the first line.
    pub fn scroll_up(&mut self) -> (result: Vec<Change>)
        ensures
            ({
                let target = if old(self).first_visible() >= old(self).height() / 4 {
                    (old(self).first_visible() - old(self).height() / 4) as nat
                } else {
                    0
                };
                &&& final(self)@ == old(self)@
                &&& final(self).margin() == old(self).margin()
                &&& final(self).height() == old(self).height()
                &&& final(self).first_visible() == target
                &&& change_views(result@) == if target == old(self).first_visible() {
                    Seq::<ChangeView>::empty()
                } else {
                    redrawn(old(self)@.0, target, old(self).margin(), old(self).height(), old(self)@.1)
                }
            }),
    {
        let target = self.first_visible_string_index.saturating_sub(self.scroll_delta());
        self.jump_to(target)
    }

    /// Moves each selection of `self` onto its `edge`, and returns the colors that show them.
    pub fn select_edge(&mut self, edge: Edge) -> (result: Vec<Change>)
        ensures
            final(self)@.0 == old(self)@.0,
            final(self)@.2 == old(self)@.2,
            final(self).first_visible() == old(self).first_visible(),
            final(self).margin() == old(self).margin(),
            final(self).height() == old(self).height(),
            final(self)@.1 == old(self)@.1.map_values(
                |selection: SelectionView| match edge {
                    Edge::Start => (selection.0, selection.0),
                    Edge::End => (selection.1, selection.1),
                },
            ),
            change_views(result@) == repainted(
                final(self).first_visible(),
                final(self).margin(),
                final(self).height(),
                final(self)@.1,
            ),
    {
        let ghost start = old(self)@.1;
        let mut moved: Vec<OldSelection> = Vec::new();
        let mut i: usize = 0;
        while i < self.old_selections.len()
            invariant
                start == old(self)@.1,
                self.old_selections@ == old(self).old_selections@,
                i <= self.old_selections@.len(),
                moved@.map_values(|selection: OldSelection| selection@) == start.take(i as int).map_values(
                    |selection: SelectionView| match edge {
                        Edge::Start => (selection.0, selection.0),
                        Edge::End => (selection.1, selection.1),
                    },
                ),
            decreases self.old_selections@.len() - i,
        {
            let mut selection = self.old_selections[i];
            assert(start[i as int] == selection@);
            let ghost original = selection@;
            selection.select_edge(edge);
            let ghost before = moved@.map_values(|selection: OldSelection| selection@);
            moved.push(selection);
            assert(moved@.map_values(|selection: OldSelection| selection@) =~= before.push(
                selection@,
            ));
            assert(start.take(i + 1) =~= start.take(i as int).push(original));
            assert(selection@ == match edge {
                Edge::Start => (original.0, original.0),
                Edge::End => (original.1, original.1),
            });
            i = i + 1;
            assert(moved@.map_values(|selection: OldSelection| selection@) =~= start.take(
                i as int,
            ).map_values(
                |selection: SelectionView| match edge {
                    Edge::Start => (selection.0, selection.0),
                    Edge::End => (selection.1, selection.1),
                },
            ));
        }
        assert(start.take(start.len() as int) =~= start);
        self.old_selections = moved;
        self.repaint()
    }
}

/// The changes that color the selections among the first `k` of `selections` that are shown in
/// a pane, as [`selection_span`] places them, in blue.
pub open spec fn selection_formats(
    first_visible: nat,
    margin: nat,
    selections: Seq<SelectionView>,
    k: nat,
) -> Seq<ChangeView>
    decreases k,
{
    if k == 0 {
        Seq::empty()
    } else {
        selection_formats(first_visible, margin, selections, (k - 1) as nat) + match selection_span(
            first_visible,
            margin,
            selections[k - 1],
        ) {
            Some(span) => seq![ChangeView::Format(span, Color::Blue)],
            None => Seq::empty(),
        }
    }
}

/// The colors of a pane of `height` rows with the selections `selections`: each row black, then
/// each shown selection blue.
pub open spec fn repainted(
    first_visible: nat,
    margin: nat,
    height: nat,
    selections: Seq<SelectionView>,
) -> Seq<ChangeView> {
    Seq::new(height, |r: int| ChangeView::Format(row_span(r), Color::Black)) + selection_formats(
        first_visible,
        margin,
        selections,
        selections.len(),
    )
}

/// The changes that show the lines of `doc` from the line after `first_visible` on (counting
/// lines from 0, as the first line shown is line `first_visible`), in the rows from `row` on of a
/// pane of `height` rows with a margin of `margin` columns: each row holds the line number, aligned
/// right in the margin, a space and the line.
pub open spec fn redrawn_rows(doc: DocumentView, first_visible: nat, margin: nat, height: nat, row: nat)
    -> Seq<ChangeView>
    decreases height - row,
{
    if row >= height || first_visible + row >= usize::MAX {
        Seq::empty()
    } else {
        match line_text(doc, (first_visible + row) as int) {
            Some(text) => seq![
                ChangeView::Text(
                    row_span(row as int),
                    padded(decimal_text(first_visible + row + 1), margin) + seq![' '] + text,
                ),
            ] + redrawn_rows(doc, first_visible, margin, height, row + 1),
            None => Seq::empty(),
        }
    }
}

/// The changes that draw a pane again whole: a clearing, the rows of its lines, and its colors.
pub open spec fn redrawn(
    doc: DocumentView,
    first_visible: nat,
    margin: nat,
    height: nat,
    selections: Seq<SelectionView>,
) -> Seq<ChangeView> {
    seq![ChangeView::Clear] + redrawn_rows(doc, first_visible, margin, height, 0) + repainted(
        first_visible,
        margin,
        height,
        selections,
    )
}

/// Returns the text of a row that shows line number `number`, whose text is `text`, with a
/// margin of `margin` columns.
fn numbered_line(number: usize, margin: usize, text: &str) -> (result: String)
    ensures
        result@ == padded(decimal_text(number as nat), margin as nat) + seq![' '] + text@,
{
    let digits = decimal(number);
    let mut shown = String::new();
    let len = digits.unicode_len();
    let mut pad: usize = 0;
    while pad + len < margin
        invariant
            len == digits@.len(),
            pad + len <= margin || pad == 0,
            shown@ == Seq::new(pad as nat, |i: int| ' '),
        decreases margin - pad - len,
    {
        string_push(&mut shown, ' ');
        assert(shown@ =~= Seq::new((pad + 1) as nat, |i: int| ' '));
        pad = pad + 1;
    }
    assert(shown@ + digits@ =~= padded(digits@, margin as nat));
    let shown = shown.concat(digits.as_str());
    let mut shown = shown;
    string_push(&mut shown, ' ');
    let shown = shown.concat(text);
    assert(shown@ =~= padded(decimal_text(number as nat), margin as nat) + seq![' '] + text@);
    shown
}

/// Once a write of [`written`] fails, the later ones change nothing.
proof fn lemma_written_stays_failed(
    doc: DocumentView,
    margin: nat,
    first_visible: nat,
    selections: Seq<SelectionView>,
    input: char,
    k: nat,
    n: nat,
)
    requires
        k <= n,
        written(doc, margin, first_visible, selections, input, k).2 is None,
    ensures
        written(doc, margin, first_visible, selections, input, n) == written(
            doc,
            margin,
            first_visible,
            selections,
            input,
            k,
        ),
    decreases n - k,
{
    if k < n {
        lemma_written_stays_failed(doc, margin, first_visible, selections, input, k, (n - 1) as nat);
    }
}

/// Returns line `index` of `text`, as `str::lines` gives the lines; `None` where there is no such
/// line.
pub(crate) fn text_line(text: &str, index: usize) -> (result: Option<&str>)
    ensures
        match result {
            Some(line) => line_text((Some(bytes_of(text@)), 0), index as int) == Some(line@),
            None => line_text((Some(bytes_of(text@)), 0), index as int) is None,
        },
{
    let bytes = text.as_bytes();
    let bounds = line_bounds(bytes);
    let total = text_line_total(bytes, &bounds);
    proof {
        lemma_text_lines_bounds(bytes@);
    }
    if index < total {
        let (start, end) = bounds[index];
        assert((start as int, end as int) == text_lines(bytes@)[index as int]);
        match str_get(text, start, end) {
            Some(line) => {
                proof {
                    encode_utf8_decode_utf8(line@);
                }
                Some(line)
            },
            None => None,
        }
    } else {
        None
    }
}

/// Returns the number of lines of `bytes` as `str::lines` gives them, given the bounds of all its
/// lines.
pub(crate) fn text_line_total(bytes: &[u8], bounds: &Vec<(usize, usize)>) -> (result: usize)
    requires
        int_pairs(bounds@) == all_lines(bytes@),
    ensures
        result == text_lines(bytes@).len(),
{
    assert(int_pairs(bounds@).len() == bounds@.len());
    assert(all_lines(bytes@).len() == closed_lines(bytes@).len() + 1);
    let last = bounds.len() - 1;
    assert(int_pairs(bounds@)[last as int] == all_lines(bytes@)[last as int]);
    assert(all_lines(bytes@)[last as int] == (open_line_start(bytes@), bytes@.len() as int));
    if bounds[last].0 < bytes.len() {
        bounds.len()
    } else {
        last
    }
}

/// The lines of the document `doc`, by their byte bounds, as `str::lines` gives them; none where
/// there is no text.
pub open spec fn doc_lines(doc: DocumentView) -> Seq<(int, int)> {
    match doc.0 {
        Some(bytes) => text_lines(bytes),
        None => Seq::empty(),
    }
}

/// The text of line `line` of the document `doc`, as `str::lines` gives the lines; `None` where
/// there is no such line, or where its bounds cut a character.
pub open spec fn line_text(doc: DocumentView, line: int) -> Option<Seq<char>> {
    match doc.0 {
        None => None,
        Some(bytes) => {
            let lines = text_lines(bytes);
            if 0 <= line < lines.len() && is_char_boundary(bytes, lines[line].0)
                && is_char_boundary(bytes, lines[line].1) {
                Some(decode_utf8(bytes.subrange(lines[line].0, lines[line].1)))
            } else {
                None
            }
        },
    }
}

/// The offset at which the selection of line `k` of `lines` starts: each line before it counts
/// its length and one more for its end.
pub open spec fn line_offset(lines: Seq<(int, int)>, k: int) -> int
    decreases k,
{
    if k <= 0 {
        0
    } else {
        line_offset(lines, k - 1) + (lines[k - 1].1 - lines[k - 1].0) + 1
    }
}

/// The selection of line `k` of `lines`.
pub open spec fn line_selection(lines: Seq<(int, int)>, k: int) -> Selection {
    Selection {
        head: line_offset(lines, k) as usize,
        tail: (line_offset(lines, k) + (lines[k].1 - lines[k].0)) as usize,
    }
}

/// The number of lines of `doc` that are selected: those among its counted lines that its text
/// has.
pub open spec fn selected_lines(doc: DocumentView) -> nat {
    if doc.1 < doc_lines(doc).len() {
        doc.1
    } else {
        doc_lines(doc).len()
    }
}

/// The selections of the matches of `pattern` in `target`, all on line `line`.
pub open spec fn found_selections(pattern: Seq<char>, target: Seq<char>, line: nat) -> Seq<
    SelectionView,
> {
    Seq::new(
        match_count(pattern, target),
        |r: int|
            (
                (line, match_bounds(pattern, target, r as nat).0),
                (line, match_bounds(pattern, target, r as nat).1),
            ),
    )
}

/// The text `text` without its first `shift` characters.
pub open spec fn target_after(text: Seq<char>, shift: nat) -> Seq<char> {
    if shift < text.len() {
        text.skip(shift as int)
    } else {
        Seq::empty()
    }
}

/// The selections of the matches of `pattern` in the line of each of the first `k` selections of
/// `selections` in `doc`, from the head of that selection on.
pub open spec fn pattern_selections(
    doc: DocumentView,
    pattern: Seq<char>,
    selections: Seq<SelectionView>,
    k: nat,
) -> Seq<SelectionView>
    decreases k,
{
    if k == 0 {
        Seq::empty()
    } else {
        let selection = selections[k - 1];
        pattern_selections(doc, pattern, selections, (k - 1) as nat) + match line_text(
            doc,
            selection.0.0 as int,
        ) {
            Some(text) => found_selections(pattern, target_after(text, selection.0.1), selection.0.0),
            None => Seq::empty(),
        }
    }
}

/// The offsets of the line selections grow with the line.
proof fn lemma_line_offset_grows(lines: Seq<(int, int)>, k: int, n: int)
    requires
        0 <= k <= n <= lines.len(),
        forall|j: int| 0 <= j < lines.len() ==> #[trigger] lines[j].0 <= lines[j].1,
    ensures
        line_offset(lines, k) <= line_offset(lines, n),
    decreases n - k,
{
    if k < n {
        lemma_line_offset_grows(lines, k, n - 1);
    }
}

impl Pane {
    /// Selects each line of the document; where `ability` is a pattern, also replaces the
    /// selections where input is written by the matches of the pattern in the line of each of
    /// them, from its head on.
    pub fn process_ability(&mut self, ability: &Ability)
        requires
            line_offset(doc_lines(old(self)@.0), selected_lines(old(self)@.0) as int) <= usize::MAX,
        ensures
            final(self)@.0 == old(self)@.0,
            final(self)@.2 == Seq::new(
                selected_lines(old(self)@.0),
                |k: int| line_selection(doc_lines(old(self)@.0), k),
            ),
            match *ability {
                Ability::Pattern(Some(pattern)) => final(self)@.1 == pattern_selections(
                    old(self)@.0,
                    pattern.source(),
                    old(self)@.1,
                    old(self)@.1.len(),
                ),
                _ => final(self)@.1 == old(self)@.1,
            },
    {
        let mut selections: Vec<Selection> = Vec::new();
        match &self.doc.text {
            None => {},
            Some(text) => {
                let bytes = text.as_str().as_bytes();
                let bounds = line_bounds(bytes);
                let total = text_line_total(bytes, &bounds);
                let ghost lines = text_lines(bytes@);
                proof {
                    lemma_text_lines_bounds(bytes@);
                    assert(int_pairs(bounds@).len() == bounds@.len());
                }
                let mut index: usize = 0;
                let mut line: usize = 0;
                while line < self.doc.string_count && line < total
                    invariant
                        lines == doc_lines(self.doc@),
                        total == lines.len(),
                        int_pairs(bounds@) == all_lines(bytes@),
                        bounds@.len() == all_lines(bytes@).len(),
                        total <= bounds@.len(),
                        bytes@ == self.doc@.0->Some_0,
                        lines == text_lines(bytes@),
                        forall|j: int| 0 <= j < lines.len() ==> #[trigger] lines[j].0 <= lines[j].1,
                        forall|j: int| 0 <= j < lines.len() ==> #[trigger] lines[j] == all_lines(bytes@)[j],
                        line <= selected_lines(self.doc@),
                        line_offset(lines, selected_lines(self.doc@) as int) <= usize::MAX,
                        index == line_offset(lines, line as int),
                        selections@ == Seq::new(line as nat, |k: int| line_selection(lines, k)),
                    decreases total - line,
                {
                    let (start, end) = bounds[line];
                    assert(int_pairs(bounds@)[line as int] == all_lines(bytes@)[line as int]);
                    assert((start as int, end as int) == lines[line as int]);
                    proof {
                        lemma_line_offset_grows(
                            lines,
                            (line + 1) as int,
                            selected_lines(self.doc@) as int,
                        );
                    }
                    let len = end - start;
                    selections.push(Selection::with_len(index, len));
                    index = index + len + 1;
                    line = line + 1;
                    assert(selections@ =~= Seq::new(line as nat, |k: int| line_selection(lines, k)));
                }
            },
        }
        assert(selections@ =~= Seq::new(
            selected_lines(self.doc@),
            |k: int| line_selection(doc_lines(self.doc@), k),
        ));
        self.selections = selections;
        match ability {
            Ability::Pattern(Some(pattern)) => self.select_matches(pattern),
            _ => {},
        }
    }

    /// Replaces the selections where input is written by the matches of `pattern` in the line of
    /// each of them, from its head on.
    fn select_matches(&mut self, pattern: &crate::rec::Pattern)
        ensures
            final(self)@.0 == old(self)@.0,
            final(self)@.2 == old(self)@.2,
            final(self)@.1 == pattern_selections(
                old(self)@.0,
                pattern.source(),
                old(self)@.1,
                old(self)@.1.len(),
            ),
    {
        let ghost start = old(self)@;
        let mut found: Vec<OldSelection> = Vec::new();
        let mut i: usize = 0;
        while i < self.old_selections.len()
            invariant
                start == old(self)@,
                self.doc@ == start.0,
                self.selections@ == start.2,
                self.old_selections@.map_values(|selection: OldSelection| selection@) == start.1,
                i <= self.old_selections@.len(),
                found@.map_values(|selection: OldSelection| selection@) == pattern_selections(
                    start.0,
                    pattern.source(),
                    start.1,
                    i as nat,
                ),
            decreases self.old_selections@.len() - i,
        {
            let selection = self.old_selections[i];
            assert(start.1[i as int] == selection@);
            let ghost before = found@.map_values(|selection: OldSelection| selection@);
            let line = selection.head.string;
            let shift = selection.head.shift;
            match self.doc.line(line) {
                None => {
                    assert(pattern_selections(start.0, pattern.source(), start.1, (i + 1) as nat)
                        =~= before);
                },
                Some(text) => {
                    let n = text.unicode_len();
                    let from = if shift < n {
                        shift
                    } else {
                        n
                    };
                    let target = text.substring_char(from, n);
                    assert(target@ =~= target_after(text@, shift as nat));
                    let ghost count = match_count(pattern.source(), target@);
                    let mut matches = pattern.tokenize_iter(target);
                    let ghost all = found_selections(pattern.source(), target@, line as nat);
                    loop
                        invariant_except_break
                            matches.taken() <= count,
                            found@.map_values(|selection: OldSelection| selection@) == before
                                + all.take(matches.taken() as int),
                        invariant
                            matches.source() == pattern.source(),
                            matches.target() == target@,
                            count == match_count(pattern.source(), target@),
                            all == found_selections(pattern.source(), target@, line as nat),
                        ensures
                            found@.map_values(|selection: OldSelection| selection@) == before
                                + all,
                        decreases count - matches.taken(),
                    {
                        let ghost taken = matches.taken();
                        let ghost seen = found@.map_values(|selection: OldSelection| selection@);
                        match matches.next() {
                            None => {
                                assert(all.take(taken as int) =~= all);
                                break ;
                            },
                            Some(tokens) => {
                                let ghost bounds_at = match_bounds(pattern.source(), target@, taken);
                                assert(tokens.bounds() == Some(bounds_at));
                                match tokens.span() {
                                    Some(bounds) => {
                                        let next = OldSelection::new(
                                            Location::new(line, bounds.0),
                                            Location::new(line, bounds.1),
                                        );
                                        assert(next@ == all[taken as int]);
                                        found.push(next);
                                        assert(found@.map_values(
                                            |selection: OldSelection| selection@,
                                        ) =~= seen.push(next@));
                                    },
                                    None => {},
                                }
                                assert(all.take((taken + 1) as int) =~= all.take(taken as int).push(
                                    all[taken as int],
                                ));
                                assert(found@.map_values(|selection: OldSelection| selection@) =~= before
                                    + all.take((taken + 1) as int));
                            },
                        }
                    }
                    assert(pattern_selections(start.0, pattern.source(), start.1, (i + 1) as nat)
                        =~= before + found_selections(pattern.source(), target@, line as nat));
                },
            }
            i = i + 1;
        }
        assert(found@.map_values(|selection: OldSelection| selection@) == pattern_selections(
            start.0,
            pattern.source(),
            start.1,
            start.1.len(),
        ));
        self.old_selections = found;
    }
}

} // verus!
