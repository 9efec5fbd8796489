//! Implements the `paper` application logic for converting an [`Input`] into [`Output`]s.
pub mod translate;

use crate::io::ui::{Dimensions, Unit};
use crate::io::{File, Output};
use crate::io::ui::{RowText, Style, StyledText};
use crate::lsp::{TextDocumentIdentifier, TextDocumentItem};
use crate::orient::{vertical_of, AxialDirection, ScreenDirection};
use translate::{Command, Interpreter, Operation, SelectionMovement};
use crate::io::Input;
use crate::lsp::ShowMessageRequestParams;
use crate::app::translate::quit_question;
use vstd::utf8::is_char_boundary;
use crate::lsp::{DocumentSymbol, Position, Range};
use vstd::prelude::*;

verus! {

// ---------------------------------------------------------------------------------------------
// Errors
// ---------------------------------------------------------------------------------------------

/// Error when incrementing past the highest value.
#[derive(Clone, Copy, Debug, PartialEq, Eq, Structural)]
pub struct OverflowError;

/// Error when attempting to access element that is outside the array.
#[derive(Clone, Copy, Debug, PartialEq, Eq, Structural)]
pub struct OutOfBoundsError;

/// Error when attempting to divide by zero.
#[derive(Clone, Copy, Debug, PartialEq, Eq, Structural)]
pub struct DivideByZeroError;

/// Error converting a [`Range`] into a [`Scope`].
#[derive(Clone, Copy, Debug, PartialEq, Eq, Structural)]
pub enum ScopeFromRangeError {
    /// Attempting to increment past the highest value.
    Overflow(OverflowError),
    /// Attempting to access element outside of array.
    OutOfBounds(OutOfBoundsError),
    /// Attempting to divide by zero.
    DivideByZero(DivideByZeroError),
}

impl From<OverflowError> for ScopeFromRangeError {
    fn from(error: OverflowError) -> (result: Self)
        ensures
            result == ScopeFromRangeError::Overflow(error),
    {
        Self::Overflow(error)
    }
}

impl vstd::std_specs::convert::FromSpecImpl<OverflowError> for ScopeFromRangeError {
    open spec fn obeys_from_spec() -> bool {
        true
    }

    open spec fn from_spec(error: OverflowError) -> Self {
        ScopeFromRangeError::Overflow(error)
    }
}

impl From<OutOfBoundsError> for ScopeFromRangeError {
    fn from(error: OutOfBoundsError) -> (result: Self)
        ensures
            result == ScopeFromRangeError::OutOfBounds(error),
    {
        Self::OutOfBounds(error)
    }
}

impl vstd::std_specs::convert::FromSpecImpl<OutOfBoundsError> for ScopeFromRangeError {
    open spec fn obeys_from_spec() -> bool {
        true
    }

    open spec fn from_spec(error: OutOfBoundsError) -> Self {
        ScopeFromRangeError::OutOfBounds(error)
    }
}

impl From<DivideByZeroError> for ScopeFromRangeError {
    fn from(error: DivideByZeroError) -> (result: Self)
        ensures
            result == ScopeFromRangeError::DivideByZero(error),
    {
        Self::DivideByZero(error)
    }
}

impl vstd::std_specs::convert::FromSpecImpl<DivideByZeroError> for ScopeFromRangeError {
    open spec fn obeys_from_spec() -> bool {
        true
    }

    open spec fn from_spec(error: DivideByZeroError) -> Self {
        ScopeFromRangeError::DivideByZero(error)
    }
}

// ---------------------------------------------------------------------------------------------
// Rows and characters
// ---------------------------------------------------------------------------------------------

/// An index of rows in a [`Document`].
#[derive(Clone, Copy, Debug, PartialEq, Eq, Structural)]
pub struct Row(pub u64);

/// `value` saturated into the range of a `u64`.
pub open spec fn sat_u64(value: int) -> int {
    if value > u64::MAX {
        u64::MAX as int
    } else if value < 0 {
        0
    } else {
        value
    }
}

impl Row {
    /// Adds `rhs` to `self`.
    ///
    /// If result of addition overflows the bounds of [`Row`], returns [`OverflowError`].
    pub fn try_add(self, rhs: Self) -> (result: Result<Self, OverflowError>)
        ensures
            result is Ok <==> self.0 + rhs.0 <= u64::MAX,
            result matches Ok(sum) ==> sum.0 == self.0 + rhs.0,
    {
        match self.0.checked_add(rhs.0) {
            Some(sum) => Ok(Self(sum)),
            None => Err(OverflowError),
        }
    }

    /// Adds `rhs` to `self`, saturating at [`u64::MAX`].
    pub fn saturating_add(self, rhs: u64) -> (result: Self)
        ensures
            result.0 == sat_u64(self.0 + rhs),
    {
        Self(self.0.saturating_add(rhs))
    }

    /// Subtracts `rhs` from `self`, saturating at 0.
    pub fn saturating_sub(self, rhs: u64) -> (result: Self)
        ensures
            result.0 == sat_u64(self.0 - rhs),
    {
        Self(self.0.saturating_sub(rhs))
    }
}

impl TryFrom<Row> for usize {
    type Error = OverflowError;

    fn try_from(row: Row) -> (result: Result<Self, Self::Error>)
        ensures
            result is Ok <==> row.0 <= usize::MAX,
            result matches Ok(index) ==> index == row.0,
    {
        match usize::try_from(row.0) {
            Ok(index) => Ok(index),
            Err(_) => Err(OverflowError),
        }
    }
}

impl vstd::std_specs::convert::TryFromSpecImpl<Row> for usize {
    open spec fn obeys_try_from_spec() -> bool {
        true
    }

    open spec fn try_from_spec(row: Row) -> Result<Self, Self::Error> {
        if row.0 <= usize::MAX {
            Ok(row.0 as usize)
        } else {
            Err(OverflowError)
        }
    }
}

/// An index of a single line of text.
#[derive(Clone, Copy, Debug, PartialEq, Eq, Structural)]
pub struct Character(pub u32);

impl Character {
    /// Returns the value from dividing `self` by `rhs`.
    pub fn try_div(self, rhs: Unit) -> (result: Result<Row, DivideByZeroError>)
        ensures
            result is Ok <==> rhs.0 != 0,
            result matches Ok(row) ==> row.0 == self.0 / (rhs.0 as u32),
    {
        match self.0.checked_div(u32::from(rhs)) {
            Some(quotient) => Ok(Row(quotient as u64)),
            None => Err(DivideByZeroError),
        }
    }

    /// Returns the remainder of dividing `self` by `rhs`.
    pub fn try_rem(self, rhs: Unit) -> (result: Result<Unit, DivideByZeroError>)
        ensures
            result is Ok <==> rhs.0 != 0,
            result matches Ok(remainder) ==> remainder.0 == self.0 % (rhs.0 as u32),
    {
        let divisor = u32::from(rhs);
        if divisor == 0 {
            Err(DivideByZeroError)
        } else {
            let remainder = self.0 % divisor;
            // divisor <= u16::MAX, thus remainder < u16::MAX.
            Ok(Unit::from(remainder as u16))
        }
    }
}

impl From<u32> for Character {
    fn from(value: u32) -> (result: Self)
        ensures
            result.0 == value,
    {
        Self(value)
    }
}

impl vstd::std_specs::convert::FromSpecImpl<u32> for Character {
    open spec fn obeys_from_spec() -> bool {
        true
    }

    open spec fn from_spec(value: u32) -> Self {
        Character(value)
    }
}

// ---------------------------------------------------------------------------------------------
// U32Vec
// ---------------------------------------------------------------------------------------------

/// A wrapper around [`Vec`] where the index is [`u32`].
///
/// Additionally adds some error handling where appropriate.
#[derive(Clone, Debug)]
pub struct U32Vec<T> {
    /// The underlying [`Vec`].
    pub vec: Vec<T>,
}

impl<T> U32Vec<T> {
    /// Creates a new empty [`U32Vec`].
    pub fn new() -> (result: Self)
        ensures
            result.vec@ == Seq::<T>::empty(),
    {
        Self { vec: Vec::new() }
    }

    /// Returns a reference to the element at `index`.
    pub fn get(&self, index: u32) -> (result: Result<&T, OutOfBoundsError>)
        ensures
            result is Ok <==> index < self.vec@.len(),
            result matches Ok(element) ==> *element == self.vec@[index as int],
    {
        let position = index as usize;
        if position < self.vec.len() {
            Ok(&self.vec[position])
        } else {
            Err(OutOfBoundsError)
        }
    }

    /// Returns the number of elements in `self`.
    pub fn len(&self) -> (result: usize)
        ensures
            result == self.vec@.len(),
    {
        self.vec.len()
    }

    /// Returns the elements of `self` as a slice.
    pub fn iter(&self) -> (result: &[T])
        ensures
            result@ == self.vec@,
    {
        self.vec.as_slice()
    }

    /// Adds `value` to the end of `self`.
    pub fn push(&mut self, value: T)
        ensures
            final(self).vec@ == old(self).vec@.push(value),
    {
        self.vec.push(value);
    }
}

// ---------------------------------------------------------------------------------------------
// Lines of a text
// ---------------------------------------------------------------------------------------------

/// The byte of a line feed.
pub const LINE_FEED: u8 = 10;

/// The byte of a carriage return.
pub const CARRIAGE_RETURN: u8 = 13;

/// The index at which the line that is being written at the end of `bytes` starts: just after
/// the last line feed of `bytes`, or 0.
pub open spec fn open_line_start(bytes: Seq<u8>) -> int
    decreases bytes.len(),
{
    if bytes.len() == 0 {
        0
    } else if bytes.last() == LINE_FEED {
        bytes.len() as int
    } else {
        open_line_start(bytes.drop_last())
    }
}

/// The end of the text of a line that is ended by the line feed at `index`: a carriage return
/// just before the line feed is not part of the text.
pub open spec fn line_text_end(bytes: Seq<u8>, index: int) -> int {
    if index >= 1 && bytes[index - 1] == CARRIAGE_RETURN {
        index - 1
    } else {
        index
    }
}

/// The (start, end) byte indices of the lines of `bytes` that are ended by a line feed.
pub open spec fn closed_lines(bytes: Seq<u8>) -> Seq<(int, int)>
    decreases bytes.len(),
{
    if bytes.len() == 0 {
        Seq::empty()
    } else {
        let previous = closed_lines(bytes.drop_last());
        if bytes.last() == LINE_FEED {
            previous.push((open_line_start(bytes.drop_last()), line_text_end(bytes, bytes.len() - 1)))
        } else {
            previous
        }
    }
}

/// The (start, end) byte indices of all lines of `bytes`: the lines ended by a line feed,
/// followed by the line after the last line feed, which may be empty.
pub open spec fn all_lines(bytes: Seq<u8>) -> Seq<(int, int)> {
    closed_lines(bytes).push((open_line_start(bytes), bytes.len() as int))
}

/// The lines of `bytes` as `str::lines` gives them: the last line is left out when it is empty.
pub open spec fn text_lines(bytes: Seq<u8>) -> Seq<(int, int)> {
    if open_line_start(bytes) < bytes.len() {
        all_lines(bytes)
    } else {
        closed_lines(bytes)
    }
}

/// The rows of the line text from `start` to `end` when a row holds at most `width` bytes.
///
/// A line always has at least one row, which is empty for an empty line.
pub open spec fn row_chunks(start: int, end: int, width: int) -> Seq<(int, int)>
    decreases end - start,
{
    if width > 0 && start + width < end {
        seq![(start, start + width)].add(row_chunks(start + width, end, width))
    } else {
        seq![(start, end)]
    }
}

/// The sequence of `usize` pairs as integer pairs.
pub open spec fn int_pairs(pairs: Seq<(usize, usize)>) -> Seq<(int, int)> {
    pairs.map_values(|pair: (usize, usize)| (pair.0 as int, pair.1 as int))
}

proof fn lemma_open_line_start_bounds(bytes: Seq<u8>)
    ensures
        0 <= open_line_start(bytes) <= bytes.len(),
    decreases bytes.len(),
{
    if bytes.len() > 0 {
        lemma_open_line_start_bounds(bytes.drop_last());
    }
}

/// Every line of `bytes` lies within `bytes`, starts after the previous one and ends no earlier
/// than it starts.
proof fn lemma_closed_lines_bounds(bytes: Seq<u8>)
    ensures
        forall|k: int| 0 <= k < closed_lines(bytes).len() ==> {
            let line = #[trigger] closed_lines(bytes)[k];
            0 <= line.0 <= line.1 && line.1 < open_line_start(bytes)
        },
    decreases bytes.len(),
{
    if bytes.len() > 0 {
        let previous = bytes.drop_last();
        lemma_closed_lines_bounds(previous);
        lemma_open_line_start_bounds(previous);
        if bytes.last() == LINE_FEED {
            let index = bytes.len() - 1;
            assert(previous.len() == index);
            if index >= 1 && bytes[index - 1] == CARRIAGE_RETURN {
                // The carriage return is not a line feed, so the line holds it.
                assert(previous.last() == CARRIAGE_RETURN);
                lemma_open_line_start_bounds(previous.drop_last());
                assert(open_line_start(previous) <= index - 1);
            }
        }
        assert forall|k: int| 0 <= k < closed_lines(bytes).len() implies {
            let line = #[trigger] closed_lines(bytes)[k];
            0 <= line.0 <= line.1 && line.1 < open_line_start(bytes)
        } by {
            if k < closed_lines(previous).len() {
                assert(closed_lines(bytes)[k] == closed_lines(previous)[k]);
            }
        }
    }
}

// ---------------------------------------------------------------------------------------------
// Exec helpers for lines
// ---------------------------------------------------------------------------------------------

/// Returns the (start, end) byte indices of all lines of `bytes`, as [`all_lines`] gives them.
pub(crate) fn line_bounds(bytes: &[u8]) -> (result: Vec<(usize, usize)>)
    ensures
        int_pairs(result@) == all_lines(bytes@),
{
    let mut lines: Vec<(usize, usize)> = Vec::new();
    let mut start: usize = 0;
    let mut index: usize = 0;
    while index < bytes.len()
        invariant
            index <= bytes@.len(),
            int_pairs(lines@) == closed_lines(bytes@.take(index as int)),
            start == open_line_start(bytes@.take(index as int)),
        decreases bytes@.len() - index,
    {
        let ghost before = bytes@.take(index as int);
        let ghost after = bytes@.take(index as int + 1);
        assert(after.drop_last() =~= before);
        proof {
            lemma_open_line_start_bounds(before);
        }
        if bytes[index] == LINE_FEED {
            let mut end = index;
            if index >= 1 && bytes[index - 1] == CARRIAGE_RETURN {
                end = index - 1;
            }
            if index >= 1 {
                assert(after[index as int - 1] == bytes@[index as int - 1]);
            }
            lines.push((start, end));
            start = index + 1;
            assert(int_pairs(lines@) =~= closed_lines(after));
        } else {
            assert(int_pairs(lines@) =~= closed_lines(after));
        }
        index = index + 1;
    }
    assert(bytes@.take(bytes@.len() as int) =~= bytes@);
    lines.push((start, bytes.len()));
    assert(int_pairs(lines@) =~= all_lines(bytes@));
    lines
}

/// Returns the rows of the line text from `start` to `end`, as [`row_chunks`] gives them.
fn chunk_rows(start: usize, end: usize, max_length: usize) -> (rows: Vec<(usize, usize)>)
    requires
        start <= end,
        max_length > 0 || start == end,
    ensures
        int_pairs(rows@) == row_chunks(start as int, end as int, max_length as int),
{
    let mut rows: Vec<(usize, usize)> = Vec::new();
    let mut prev_index = start;
    let mut row_end_index = start.saturating_add(max_length);
    while row_end_index < end
        invariant
            start <= prev_index <= end,
            max_length > 0 || prev_index == end,
            row_end_index == sat_usize(prev_index + max_length),
            int_pairs(rows@) + row_chunks(prev_index as int, end as int, max_length as int)
                == row_chunks(start as int, end as int, max_length as int),
        decreases end - prev_index,
    {
        let ghost old_rows = rows@;
        assert(row_chunks(prev_index as int, end as int, max_length as int) == seq![
            (prev_index as int, row_end_index as int),
        ].add(row_chunks(row_end_index as int, end as int, max_length as int)));
        rows.push((prev_index, row_end_index));
        assert(int_pairs(rows@) =~= int_pairs(old_rows).push((prev_index as int, row_end_index as int)));
        assert(int_pairs(rows@) + row_chunks(row_end_index as int, end as int, max_length as int)
            =~= int_pairs(old_rows) + row_chunks(prev_index as int, end as int, max_length as int));
        prev_index = row_end_index;
        row_end_index = row_end_index.saturating_add(max_length);
    }
    let ghost old_rows = rows@;
    rows.push((prev_index, end));
    assert(int_pairs(rows@) =~= int_pairs(old_rows) + row_chunks(prev_index as int, end as int, max_length as int));
    rows
}

/// `value` saturated into the range of a `usize`.
pub open spec fn sat_usize(value: int) -> int {
    if value > usize::MAX {
        usize::MAX as int
    } else {
        value
    }
}

} // verus!

verus! {

// ---------------------------------------------------------------------------------------------
// Symbols
// ---------------------------------------------------------------------------------------------

/// A [`Range`] of text that can be selected.
#[derive(Debug)]
pub struct Symbol {
    /// The [`Range`] of `Self`.
    pub range: Range,
    /// The children [`Symbol`]s of `Self`.
    pub children: Vec<Symbol>,
}

/// If `symbol` is the [`Symbol`] of `doc`: it spans the same range, and its children are those
/// of `doc`, each converted, in reverse order.
pub open spec fn is_symbol_of(symbol: Symbol, doc: DocumentSymbol) -> bool
    decreases doc,
{
    &&& symbol.range == doc.range
    &&& match doc.children {
        None => symbol.children@.len() == 0,
        Some(children) => {
            &&& symbol.children@.len() == children@.len()
            &&& forall|k: int|
                0 <= k < children@.len() ==> is_symbol_of(
                    #[trigger] symbol.children@[k],
                    children@[children@.len() - 1 - k],
                )
        },
    }
}

/// Converts `doc` into a [`Symbol`].
#[verifier::loop_isolation(false)]
fn symbol_from(doc: DocumentSymbol) -> (result: Symbol)
    ensures
        is_symbol_of(result, doc),
    decreases doc,
{
    let ghost entry = doc;
    let mut children: Vec<Symbol> = Vec::new();
    let range = doc.range;
    if let Some(mut doc_children) = doc.children {
        let ghost all = doc_children@;
        while doc_children.len() > 0
            invariant
                entry.children matches Some(v) && v@ == all,
                doc_children@ == all.take(doc_children@.len() as int),
                children@.len() + doc_children@.len() == all.len(),
                forall|k: int|
                    0 <= k < children@.len() ==> is_symbol_of(#[trigger] children@[k], all[all.len() - 1 - k]),
            decreases doc_children@.len(),
        {
            let ghost index = doc_children@.len() - 1;
            let child = doc_children.pop().unwrap();
            proof {
                let v = entry.children->0;
                assert(child == all[index]);
                assert(decreases_to!(entry => entry.children));
                assert(decreases_to!(entry.children => v));
                assert(decreases_to!(v => v@));
                assert(decreases_to!(v@ => v@[index]));
                assert(decreases_to!(entry => child));
            }
            children.push(symbol_from(child));
            assert(doc_children@ =~= all.take(doc_children@.len() as int));
        }
    }
    Symbol { range, children }
}

impl From<DocumentSymbol> for Symbol {
    fn from(symbol: DocumentSymbol) -> (result: Self)
        ensures
            is_symbol_of(result, symbol),
    {
        symbol_from(symbol)
    }
}

impl vstd::std_specs::convert::FromSpecImpl<DocumentSymbol> for Symbol {
    /// The symbol holds a `Vec`, which a specification cannot build: the `ensures` of `from`
    /// states the result instead.
    open spec fn obeys_from_spec() -> bool {
        false
    }

    open spec fn from_spec(symbol: DocumentSymbol) -> Self {
        arbitrary()
    }
}

/// The number of bytes of the text of the `k`-th line of `bytes`, as `str::lines` gives it.
pub open spec fn text_line_length(bytes: Seq<u8>, k: int) -> int {
    text_lines(bytes)[k].1 - text_lines(bytes)[k].0
}

/// If [`Symbol::create_root`] fails on `bytes`: there are more lines than a `u32` can count,
/// or a line is longer than a `u32` can index.
pub open spec fn root_overflows(bytes: Seq<u8>) -> bool {
    ||| text_lines(bytes).len() > u32::MAX
    ||| exists|k: int| 0 <= k < text_lines(bytes).len() && text_line_length(bytes, k) > u32::MAX
}

/// If `symbol` is the symbol of the `line`-th line, which holds `length` bytes.
pub open spec fn is_line_symbol(symbol: Symbol, line: int, length: int) -> bool {
    &&& symbol.range == Range {
        start: Position { line: line as u32, character: 0 },
        end: Position { line: line as u32, character: length as u32 },
    }
    &&& symbol.children@.len() == 0
}

/// If `symbol` is the root symbol of the text `bytes` whose last line holds
/// `last_line_length` bytes: it spans the text and has one child per line.
pub open spec fn is_root_symbol(symbol: Symbol, bytes: Seq<u8>, last_line_length: u32) -> bool {
    let lines = text_lines(bytes);
    &&& symbol.range == Range {
        start: Position { line: 0, character: 0 },
        end: Position {
            line: (if lines.len() > 0 { lines.len() - 1 } else { 0 }) as u32,
            character: last_line_length,
        },
    }
    &&& symbol.children@.len() == lines.len()
    &&& forall|k: int|
        0 <= k < lines.len() ==> is_line_symbol(
            #[trigger] symbol.children@[k],
            k,
            text_line_length(bytes, k),
        )
}

pub(crate) proof fn lemma_text_lines_bounds(bytes: Seq<u8>)
    ensures
        forall|k: int| 0 <= k < text_lines(bytes).len() ==> {
            let line = #[trigger] text_lines(bytes)[k];
            0 <= line.0 <= line.1 <= bytes.len()
        },
        text_lines(bytes).len() <= all_lines(bytes).len(),
        forall|k: int| 0 <= k < text_lines(bytes).len() ==> #[trigger] text_lines(bytes)[k] == all_lines(bytes)[k],
{
    lemma_closed_lines_bounds(bytes);
    lemma_open_line_start_bounds(bytes);
    assert forall|k: int| 0 <= k < all_lines(bytes).len() implies {
        let line = #[trigger] all_lines(bytes)[k];
        0 <= line.0 <= line.1 <= bytes.len()
    } by {
        if k < closed_lines(bytes).len() {
            assert(all_lines(bytes)[k] == closed_lines(bytes)[k]);
        }
    }
    assert forall|k: int| 0 <= k < text_lines(bytes).len() implies #[trigger] text_lines(bytes)[k]
        == all_lines(bytes)[k] by {
        if open_line_start(bytes) >= bytes.len() {
            assert(closed_lines(bytes)[k] == all_lines(bytes)[k]);
        }
    }
}

impl Symbol {
    /// Creates the default root [`Symbol`] of `text`, whose last line holds `last_line_length`
    /// bytes.
    pub fn create_root(text: &str, last_line_length: u32) -> (result: Result<Self, OverflowError>)
        ensures
            result is Ok <==> !root_overflows(vstd::utf8::encode_utf8(text@)),
            result matches Ok(symbol) ==> is_root_symbol(symbol, vstd::utf8::encode_utf8(text@), last_line_length),
    {
        let bytes = text.as_bytes();
        let ghost b = bytes@;
        assert(b == vstd::utf8::encode_utf8(text@));
        let bounds = line_bounds(bytes);
        proof {
            lemma_text_lines_bounds(b);
            lemma_closed_lines_bounds(b);
            lemma_open_line_start_bounds(b);
        }
        assert(bounds@.len() == all_lines(b).len());
        let last = bounds[bounds.len() - 1];
        assert(int_pairs(bounds@)[bounds@.len() - 1] == (last.0 as int, last.1 as int));
        assert(all_lines(b)[bounds@.len() - 1] == (open_line_start(b), b.len() as int));
        let line_count = if last.0 < bytes.len() {
            bounds.len()
        } else {
            bounds.len() - 1
        };
        assert(line_count == text_lines(b).len());
        if line_count > u32::MAX as usize {
            return Err(OverflowError);
        }
        let mut children: Vec<Symbol> = Vec::new();
        let mut line: usize = 0;
        while line < line_count
            invariant
                line <= line_count == text_lines(b).len() <= bounds@.len(),
                line_count <= u32::MAX,
                b == vstd::utf8::encode_utf8(text@),
                int_pairs(bounds@) == all_lines(b),
                forall|k: int| 0 <= k < text_lines(b).len() ==> #[trigger] text_lines(b)[k] == all_lines(b)[k],
                forall|k: int| 0 <= k < text_lines(b).len() ==> {
                    let line = #[trigger] text_lines(b)[k];
                    0 <= line.0 <= line.1 <= b.len()
                },
                children@.len() == line,
                forall|k: int| 0 <= k < line ==> text_line_length(b, k) <= u32::MAX,
                forall|k: int|
                    0 <= k < line ==> is_line_symbol(#[trigger] children@[k], k, text_line_length(b, k)),
            decreases line_count - line,
        {
            let (start, end) = bounds[line];
            assert(int_pairs(bounds@)[line as int] == (start as int, end as int));
            assert(text_lines(b)[line as int] == (start as int, end as int));
            let length = end - start;
            if length > u32::MAX as usize {
                assert(text_line_length(b, line as int) > u32::MAX);
                return Err(OverflowError);
            }
            let index = line as u32;
            children.push(
                Symbol {
                    range: Range::new(Position::new(index, 0), Position::new(index, length as u32)),
                    children: Vec::new(),
                },
            );
            line = line + 1;
        }
        Ok(
            Self {
                range: Range::new(
                    Position::new(0, 0),
                    Position::new((line_count as u32).saturating_sub(1), last_line_length),
                ),
                children,
            },
        )
    }
}

} // verus!

verus! {

// ---------------------------------------------------------------------------------------------
// Documents
// ---------------------------------------------------------------------------------------------

/// A line in a [`Document`].
#[derive(Clone, Debug)]
pub struct Line {
    /// The index within the [`Document`] of the first row of `Self`.
    pub first_row: Row,
    /// The start and end indexes of each row in `Self`.
    pub rows: Vec<(usize, usize)>,
}

impl Line {
    /// Creates a new [`Line`].
    pub fn new(first_row: Row, rows: Vec<(usize, usize)>) -> (result: Self)
        ensures
            result.first_row == first_row,
            result.rows == rows,
    {
        Self { first_row, rows }
    }
}

/// A file and the user's current interactions with it.
#[derive(Debug)]
pub struct Document {
    /// The file of the document.
    pub file: File,
    /// The lines in `Self`.
    pub lines: U32Vec<Line>,
    /// The [`Dimensions`] of the screen showing the document.
    pub dimensions: Dimensions,
    /// The first row that is visible.
    pub first_visible_row: Row,
    /// The last row that is visible.
    pub max_visible_row: Row,
    /// The version of the document.
    pub version: i32,
    /// The root of all [`Symbol`]s in `Self`.
    pub root_symbol: Symbol,
    /// Describes the [`Symbol`] that is selected.
    pub selection: Vec<usize>,
}

/// The bytes of the text `text`.
pub open spec fn bytes_of(text: Seq<char>) -> Seq<u8> {
    vstd::utf8::encode_utf8(text)
}

/// The rows of the `k`-th line of `bytes` when a row holds at most `width` bytes.
pub open spec fn line_rows(bytes: Seq<u8>, width: int, k: int) -> Seq<(int, int)> {
    row_chunks(all_lines(bytes)[k].0, all_lines(bytes)[k].1, width)
}

/// The number of rows of the lines of `bytes` before its `k`-th line.
pub open spec fn rows_before(bytes: Seq<u8>, width: int, k: int) -> int
    decreases k,
{
    if k <= 0 {
        0
    } else {
        rows_before(bytes, width, k - 1) + line_rows(bytes, width, k - 1).len()
    }
}

/// If laying out `bytes` in rows of `width` bytes comes to an end: a width of 0 only fits
/// empty lines.
pub open spec fn layout_terminates(bytes: Seq<u8>, width: int) -> bool {
    width > 0 || forall|k: int|
        0 <= k < all_lines(bytes).len() ==> #[trigger] all_lines(bytes)[k].0 == all_lines(bytes)[k].1
}

/// Returns if laying out `text` in rows of `width` bytes comes to an end, which
/// [`Document::new`] and the creation of a document by the processor require.
pub fn layout_fits(text: &str, width: u16) -> (result: bool)
    ensures
        result == layout_terminates(bytes_of(text@), width as int),
{
    if width > 0 {
        return true;
    }
    let bytes = text.as_bytes();
    let bounds = line_bounds(bytes);
    let ghost all = all_lines(bytes@);
    let mut k: usize = 0;
    while k < bounds.len()
        invariant
            int_pairs(bounds@) == all,
            all == all_lines(bytes@),
            bytes@ == bytes_of(text@),
            width == 0,
            k <= bounds@.len(),
            forall|i: int| 0 <= i < k ==> #[trigger] all[i].0 == all[i].1,
        decreases bounds@.len() - k,
    {
        let (start, end) = bounds[k];
        assert(int_pairs(bounds@)[k as int] == (start as int, end as int));
        assert(int_pairs(bounds@).len() == bounds@.len());
        if start != end {
            assert(all[k as int] == (start as int, end as int));
            assert(all_lines(bytes_of(text@))[k as int].0 != all_lines(bytes_of(text@))[k as int].1);
            return false;
        }
        k = k + 1;
    }
    true
}

/// The number of bytes of the last line of `bytes`.
pub open spec fn last_line_length(bytes: Seq<u8>) -> int {
    bytes.len() - open_line_start(bytes)
}

/// If [`Document::new`] fails on the text `bytes`.
pub open spec fn document_overflows(bytes: Seq<u8>) -> bool {
    last_line_length(bytes) > u32::MAX || root_overflows(bytes)
}

/// If `lines` is the layout of `bytes` in rows of `width` bytes: one entry per line, holding the
/// rows of the line and the index of its first row.
pub open spec fn is_layout(lines: Seq<Line>, bytes: Seq<u8>, width: int) -> bool {
    &&& lines.len() == all_lines(bytes).len()
    &&& forall|k: int|
        0 <= k < lines.len() ==> {
            &&& int_pairs(#[trigger] lines[k].rows@) == line_rows(bytes, width, k)
            &&& lines[k].first_row.0 == sat_u64(rows_before(bytes, width, k))
        }
}

proof fn lemma_rows_before_nonnegative(bytes: Seq<u8>, width: int, k: int)
    ensures
        rows_before(bytes, width, k) >= 0,
    decreases k,
{
    if k > 0 {
        lemma_rows_before_nonnegative(bytes, width, k - 1);
    }
}

pub(crate) proof fn lemma_all_lines_bounds(bytes: Seq<u8>)
    ensures
        all_lines(bytes).len() >= 1,
        forall|k: int| 0 <= k < all_lines(bytes).len() ==> {
            let line = #[trigger] all_lines(bytes)[k];
            0 <= line.0 <= line.1 <= bytes.len()
        },
{
    lemma_closed_lines_bounds(bytes);
    lemma_open_line_start_bounds(bytes);
    assert forall|k: int| 0 <= k < all_lines(bytes).len() implies {
        let line = #[trigger] all_lines(bytes)[k];
        0 <= line.0 <= line.1 <= bytes.len()
    } by {
        if k < closed_lines(bytes).len() {
            assert(all_lines(bytes)[k] == closed_lines(bytes)[k]);
        }
    }
}

/// If `doc` is the document that [`Document::new`] creates to show `file` on a screen of
/// `dimensions`.
pub open spec fn is_new_document(doc: Document, file: File, dimensions: Dimensions) -> bool {
    let bytes = bytes_of(file.text@);
    let width = dimensions.width.0 as int;
    let row_count = rows_before(bytes, width, all_lines(bytes).len() as int);
    &&& doc.file == file
    &&& doc.dimensions == dimensions
    &&& is_layout(doc.lines.vec@, bytes, width)
    &&& doc.first_visible_row == Row(0)
    &&& doc.max_visible_row.0 == sat_u64(sat_u64(row_count) - dimensions.height.0)
    &&& doc.version == 0
    &&& is_root_symbol(doc.root_symbol, bytes, last_line_length(bytes) as u32)
    &&& doc.selection@ == Seq::<usize>::empty()
}

impl Document {
    /// Creates a new [`Document`] showing `file` on a screen of `dimensions`.
    ///
    /// Each line of the text is cut into rows of at most `dimensions.width` bytes.
    pub fn new(file: File, dimensions: Dimensions) -> (result: Result<Self, OverflowError>)
        requires
            layout_terminates(bytes_of(file.text@), dimensions.width.0 as int),
        ensures
            result is Ok <==> !document_overflows(bytes_of(file.text@)),
            result matches Ok(doc) ==> is_new_document(doc, file, dimensions),
    {
        let max_length = usize::from(dimensions.width);
        let mut lines: U32Vec<Line> = U32Vec::new();
        let mut row_count: u64 = 0;
        let text = file.text().as_str();
        let bytes = text.as_bytes();
        let ghost b = bytes@;
        let ghost width = max_length as int;
        assert(b == bytes_of(file.text@));
        let bounds = line_bounds(bytes);
        proof {
            lemma_all_lines_bounds(b);
        }
        let mut k: usize = 0;
        while k < bounds.len()
            invariant
                k <= bounds@.len() == all_lines(b).len(),
                int_pairs(bounds@) == all_lines(b),
                forall|j: int| 0 <= j < all_lines(b).len() ==> {
                    let line = #[trigger] all_lines(b)[j];
                    0 <= line.0 <= line.1 <= b.len()
                },
                layout_terminates(b, width),
                width == max_length,
                lines.vec@.len() == k,
                row_count == sat_u64(rows_before(b, width, k as int)),
                forall|j: int|
                    0 <= j < k ==> {
                        &&& int_pairs(#[trigger] lines.vec@[j].rows@) == line_rows(b, width, j)
                        &&& lines.vec@[j].first_row.0 == sat_u64(rows_before(b, width, j))
                    },
            decreases bounds@.len() - k,
        {
            let (start, end) = bounds[k];
            assert(int_pairs(bounds@)[k as int] == (start as int, end as int));
            assert(all_lines(b)[k as int] == (start as int, end as int));
            let rows = chunk_rows(start, end, max_length);
            let first_row = row_count;
            proof {
                lemma_rows_before_nonnegative(b, width, k as int);
            }
            row_count = row_count.saturating_add(rows.len() as u64);
            assert(int_pairs(rows@).len() == rows@.len());
            lines.push(Line::new(Row(first_row), rows));
            k = k + 1;
        }
        let last = bounds[bounds.len() - 1];
        assert(int_pairs(bounds@)[bounds@.len() - 1] == (last.0 as int, last.1 as int));
        assert(all_lines(b)[bounds@.len() - 1] == (open_line_start(b), b.len() as int));
        let last_line_length = match u32::try_from(bytes.len() - last.0) {
            Ok(length) => length,
            Err(_) => {
                return Err(OverflowError);
            },
        };
        let root_symbol = match Symbol::create_root(text, last_line_length) {
            Ok(symbol) => symbol,
            Err(error) => {
                return Err(error);
            },
        };
        assert(is_layout(lines.vec@, b, width));
        Ok(
            Self {
                max_visible_row: Row(row_count.saturating_sub(dimensions.height.0 as u64)),
                lines,
                dimensions,
                first_visible_row: Row(0),
                version: 0,
                root_symbol,
                file,
                selection: Vec::new(),
            },
        )
    }
}

} // verus!

verus! {

// ---------------------------------------------------------------------------------------------
// Scrolling and selection
// ---------------------------------------------------------------------------------------------

/// The number of rows that a scroll moves the view.
pub const SCROLL_ROWS: u64 = 5;

/// The first visible row after scrolling from `first` towards `direction`, where `max` is the
/// last row that may be first.
pub open spec fn scrolled_row(first: int, max: int, direction: ScreenDirection) -> int {
    let moved = match vertical_of(direction) {
        Some(AxialDirection::Positive) => sat_u64(first + SCROLL_ROWS),
        Some(AxialDirection::Negative) => sat_u64(first - SCROLL_ROWS),
        None => first,
    };
    if vertical_of(direction) is Some && moved > max {
        max
    } else {
        moved
    }
}

/// The symbol reached from `symbol` by following the child indices of `path`, or `None` where
/// an index is out of bounds.
pub open spec fn symbol_at(symbol: Symbol, path: Seq<usize>) -> Option<Symbol>
    decreases path.len(),
{
    if path.len() == 0 {
        Some(symbol)
    } else if path[0] < symbol.children@.len() {
        symbol_at(symbol.children@[path[0] as int], path.drop_first())
    } else {
        None
    }
}

/// The selection after moving `selection` from the root `root` as `movement` describes, or
/// `None` where the selection leads outside of the symbols.
pub open spec fn moved_selection(root: Symbol, selection: Seq<usize>, movement: SelectionMovement) -> (Seq<usize>, bool) {
    match movement {
        SelectionMovement::Descend => match symbol_at(root, selection) {
            Some(symbol) => if symbol.children@.len() > 0 {
                (selection.push(0), true)
            } else {
                (selection, true)
            },
            None => (selection, false),
        },
        SelectionMovement::Ascend => if selection.len() > 0 {
            (selection.drop_last(), true)
        } else {
            (selection, true)
        },
        SelectionMovement::Increment => if selection.len() > 0 {
            let index = selection.last();
            let parent = selection.drop_last();
            match symbol_at(root, parent) {
                Some(symbol) => {
                    let next = if index + 1 > usize::MAX { usize::MAX as int } else { index + 1 };
                    let last = if symbol.children@.len() >= 1 { symbol.children@.len() - 1 } else { 0 };
                    (parent.push(if next < last { next as usize } else { last as usize }), true)
                },
                None => (parent, false),
            }
        } else {
            (selection, true)
        },
        SelectionMovement::Decrement => if selection.len() > 0 {
            let index = selection.last();
            (selection.drop_last().push(if index >= 1 { (index - 1) as usize } else { 0 }), true)
        } else {
            (selection, true)
        },
    }
}

/// Following `path` and then one more child index `index` reaches that child of the symbol
/// that `path` reaches.
proof fn lemma_symbol_at_push(symbol: Symbol, path: Seq<usize>, index: usize)
    ensures
        symbol_at(symbol, path.push(index)) == match symbol_at(symbol, path) {
            Some(reached) => if index < reached.children@.len() {
                Some(reached.children@[index as int])
            } else {
                None
            },
            None => None,
        },
    decreases path.len(),
{
    if path.len() == 0 {
        assert(path.push(index).drop_first() =~= Seq::<usize>::empty());
        assert(path.push(index)[0] == index);
        if index < symbol.children@.len() {
            assert(symbol_at(symbol.children@[index as int], Seq::<usize>::empty()) == Some(
                symbol.children@[index as int],
            ));
        }
    } else {
        assert(path.push(index).drop_first() =~= path.drop_first().push(index));
        assert(path.push(index)[0] == path[0]);
        if path[0] < symbol.children@.len() {
            lemma_symbol_at_push(symbol.children@[path[0] as int], path.drop_first(), index);
        }
    }
}

/// Every movement of a selection that names a symbol succeeds and gives a selection that names
/// a symbol. Descending goes to the first child of the selected symbol and, from a symbol
/// without children, leaves the selection as it is; ascending goes to the parent, or stays at
/// the root; moving to the next or previous sibling stays among the siblings.
pub proof fn lemma_selection_stays_on_symbols(root: Symbol, selection: Seq<usize>, movement: SelectionMovement)
    requires
        symbol_at(root, selection) is Some,
    ensures
        moved_selection(root, selection, movement).1,
        symbol_at(root, moved_selection(root, selection, movement).0) is Some,
        movement == SelectionMovement::Descend ==> ({
            let selected = symbol_at(root, selection)->Some_0;
            if selected.children@.len() == 0 {
                moved_selection(root, selection, movement).0 == selection
            } else {
                moved_selection(root, selection, movement).0 == selection.push(0)
                    && symbol_at(root, moved_selection(root, selection, movement).0) == Some(
                    selected.children@[0],
                )
            }
        }),
        movement == SelectionMovement::Ascend ==> moved_selection(root, selection, movement).0 == if selection.len() > 0 {
            selection.drop_last()
        } else {
            selection
        },
        (movement == SelectionMovement::Increment || movement == SelectionMovement::Decrement)
            ==> moved_selection(root, selection, movement).0.len() == selection.len() && (selection.len()
            > 0 ==> moved_selection(root, selection, movement).0.drop_last() == selection.drop_last()),
        (movement == SelectionMovement::Increment || movement == SelectionMovement::Decrement)
            && selection.len() == 0 ==> moved_selection(root, selection, movement).0 == selection,
        movement == SelectionMovement::Increment && selection.len() > 0 ==> ({
            let siblings = symbol_at(root, selection.drop_last())->Some_0.children@.len();
            moved_selection(root, selection, movement).0.last() as int == if selection.last() + 1
                < siblings {
                selection.last() + 1
            } else {
                selection.last() as int
            }
        }),
        movement == SelectionMovement::Decrement && selection.len() > 0 ==> moved_selection(
            root,
            selection,
            movement,
        ).0.last() as int == if selection.last() > 0 {
            selection.last() - 1
        } else {
            0
        },
{
    if selection.len() > 0 {
        let parent = selection.drop_last();
        let index = selection.last();
        assert(parent.push(index) =~= selection);
        lemma_symbol_at_push(root, parent, index);
        let moved = moved_selection(root, selection, movement).0;
        match movement {
            SelectionMovement::Increment => {
                let siblings = symbol_at(root, parent)->Some_0.children@.len();
                assert(index < siblings);
                assert(siblings == symbol_at(root, parent)->Some_0.children.len());
                let bumped = if index + 1 > usize::MAX { usize::MAX as int } else { index + 1 };
                let last = if siblings >= 1 { siblings - 1 } else { 0 };
                let chosen = if bumped < last { bumped as usize } else { last as usize };
                assert(moved == parent.push(chosen));
                assert(moved.last() == chosen);
                let next = moved.last();
                assert(moved =~= parent.push(next));
                lemma_symbol_at_push(root, parent, next);
                assert(moved.drop_last() =~= parent);
            },
            SelectionMovement::Decrement => {
                let previous = moved.last();
                assert(moved =~= parent.push(previous));
                lemma_symbol_at_push(root, parent, previous);
                assert(moved.drop_last() =~= parent);
            },
            _ => {},
        }
    }
    if movement == SelectionMovement::Descend {
        lemma_symbol_at_push(root, selection, 0);
    }
}

/// Scrolling keeps the first visible row among the rows that may be first: from a row that is
/// at most `max`, scrolling towards any direction gives a row that is at most `max`, and never
/// one before the first row.
pub proof fn lemma_scroll_stays_within(first: int, max: int, direction: ScreenDirection)
    requires
        0 <= first <= max <= u64::MAX,
    ensures
        0 <= scrolled_row(first, max, direction) <= max,
{
}

/// Scrolling down and then up returns to the row that was first, where scrolling down did not
/// stop at the last row that may be first.
pub proof fn lemma_scroll_down_then_up(first: int, max: int)
    requires
        0 <= first,
        first + SCROLL_ROWS <= max <= u64::MAX,
    ensures
        scrolled_row(scrolled_row(first, max, ScreenDirection::Down), max, ScreenDirection::Up) == first,
{
}

/// Scrolling up and then down returns to the row that was first, where scrolling up did not
/// stop at the first row.
pub proof fn lemma_scroll_up_then_down(first: int, max: int)
    requires
        SCROLL_ROWS <= first <= max <= u64::MAX,
    ensures
        scrolled_row(scrolled_row(first, max, ScreenDirection::Up), max, ScreenDirection::Down) == first,
{
}

/// Scrolling sideways leaves the first visible row as it is.
pub proof fn lemma_scroll_sideways_stays(first: int, max: int)
    ensures
        scrolled_row(first, max, ScreenDirection::Left) == first,
        scrolled_row(first, max, ScreenDirection::Right) == first,
{
}

/// The rows of a line cover its text, in order: they start where the line starts and end where
/// it ends, each row starts where the one before it ended, and each holds at most `width` bytes
/// and, where the line is not empty, at least one.
pub proof fn lemma_rows_cover_line(start: int, end: int, width: int)
    requires
        0 <= start <= end,
        width > 0,
    ensures
        row_chunks(start, end, width).len() >= 1,
        row_chunks(start, end, width)[0].0 == start,
        row_chunks(start, end, width).last().1 == end,
        forall|i: int|
            0 <= i < row_chunks(start, end, width).len() - 1 ==> #[trigger] row_chunks(start, end, width)[i].1
                == row_chunks(start, end, width)[i + 1].0,
        forall|i: int|
            0 <= i < row_chunks(start, end, width).len() ==> {
                let row = #[trigger] row_chunks(start, end, width)[i];
                &&& row.0 <= row.1 <= row.0 + width
                &&& start < end ==> row.0 < row.1
            },
    decreases end - start,
{
    if start + width < end {
        lemma_rows_cover_line(start + width, end, width);
        let rest = row_chunks(start + width, end, width);
        let rows = row_chunks(start, end, width);
        assert(rows == seq![(start, start + width)].add(rest));
        assert forall|i: int| 1 <= i < rows.len() implies #[trigger] rows[i] == rest[i - 1] by {}
        assert forall|i: int| 0 <= i < rows.len() - 1 implies #[trigger] rows[i].1 == rows[i + 1].0 by {
            if i > 0 {
                assert(rows[i] == rest[i - 1]);
                assert(rows[i + 1] == rest[i]);
            }
        }
        assert forall|i: int| 0 <= i < rows.len() implies {
            let row = #[trigger] rows[i];
            &&& row.0 <= row.1 <= row.0 + width
            &&& start < end ==> row.0 < row.1
        } by {
            if i > 0 {
                assert(rows[i] == rest[i - 1]);
            }
        }
    }
}

/// Ascending after descending into a symbol that has children gives the selection back.
pub proof fn lemma_ascend_undoes_descend(root: Symbol, selection: Seq<usize>)
    requires
        symbol_at(root, selection) matches Some(symbol) && symbol.children@.len() > 0,
    ensures
        moved_selection(root, moved_selection(root, selection, SelectionMovement::Descend).0, SelectionMovement::Ascend)
            == (selection, true),
{
    assert(selection.push(0).drop_last() =~= selection);
}

/// Decrementing after incrementing the selection gives the selection back, where the selected
/// symbol has a next sibling.
pub proof fn lemma_decrement_undoes_increment(root: Symbol, selection: Seq<usize>)
    requires
        selection.len() > 0,
        selection.last() < usize::MAX,
        symbol_at(root, selection.drop_last()) matches Some(parent) && selection.last() + 1
            < parent.children@.len(),
    ensures
        moved_selection(root, moved_selection(root, selection, SelectionMovement::Increment).0, SelectionMovement::Decrement)
            == (selection, true),
{
    let parent = selection.drop_last();
    let index = selection.last();
    let incremented = parent.push((index + 1) as usize);
    assert(incremented.drop_last() =~= parent);
    assert(parent.push(index) =~= selection);
}

impl Document {
    /// Scrolls `self` towards `direction`.
    pub fn scroll(&mut self, direction: ScreenDirection)
        ensures
            final(self).first_visible_row.0 == scrolled_row(
                old(self).first_visible_row.0 as int,
                old(self).max_visible_row.0 as int,
                direction,
            ),
            final(self).max_visible_row == old(self).max_visible_row,
            final(self).file == old(self).file,
            final(self).lines == old(self).lines,
            final(self).dimensions == old(self).dimensions,
            final(self).version == old(self).version,
            final(self).root_symbol == old(self).root_symbol,
            final(self).selection == old(self).selection,
    {
        if let Some(vertical_direction) = direction.vertical_direction() {
            self.first_visible_row = match vertical_direction {
                AxialDirection::Positive => self.first_visible_row.saturating_add(SCROLL_ROWS),
                AxialDirection::Negative => self.first_visible_row.saturating_sub(SCROLL_ROWS),
            };
            if self.first_visible_row.0 > self.max_visible_row.0 {
                self.first_visible_row = self.max_visible_row;
            }
        }
    }

    /// Returns the selected symbol.
    pub fn selected_symbol(&self) -> (result: Result<&Symbol, OutOfBoundsError>)
        ensures
            match result {
                Ok(symbol) => symbol_at(self.root_symbol, self.selection@) == Some(*symbol),
                Err(_) => symbol_at(self.root_symbol, self.selection@) is None,
            },
    {
        let mut symbol = &self.root_symbol;
        let mut step: usize = 0;
        assert(self.selection@.skip(0) =~= self.selection@);
        while step < self.selection.len()
            invariant
                step <= self.selection@.len(),
                symbol_at(self.root_symbol, self.selection@) == symbol_at(
                    *symbol,
                    self.selection@.skip(step as int),
                ),
            decreases self.selection@.len() - step,
        {
            let index = self.selection[step];
            assert(self.selection@.skip(step as int).drop_first() =~= self.selection@.skip(
                step as int + 1,
            ));
            if index < symbol.children.len() {
                symbol = &symbol.children[index];
            } else {
                return Err(OutOfBoundsError);
            }
            step = step + 1;
        }
        assert(self.selection@.skip(step as int) =~= Seq::<usize>::empty());
        Ok(symbol)
    }

    /// Changes the current selection as specified by `movement`.
    ///
    /// Fails when the selection leads outside of the symbols of `self`; the selection may then
    /// already have been moved up.
    pub fn change_selection(&mut self, movement: &SelectionMovement) -> (result: Result<(), OutOfBoundsError>)
        ensures
            result is Ok <==> moved_selection(old(self).root_symbol, old(self).selection@, *movement).1,
            final(self).selection@ == moved_selection(old(self).root_symbol, old(self).selection@, *movement).0,
            final(self).first_visible_row == old(self).first_visible_row,
            final(self).max_visible_row == old(self).max_visible_row,
            final(self).file == old(self).file,
            final(self).lines == old(self).lines,
            final(self).dimensions == old(self).dimensions,
            final(self).version == old(self).version,
            final(self).root_symbol == old(self).root_symbol,
    {
        match *movement {
            SelectionMovement::Descend => {
                let has_children = match self.selected_symbol() {
                    Ok(symbol) => symbol.children.len() > 0,
                    Err(error) => {
                        return Err(error);
                    },
                };
                if has_children {
                    self.selection.push(0);
                }
            },
            SelectionMovement::Ascend => {
                if self.selection.pop().is_none() {
                    // The selection is already at the root symbol.
                }
            },
            SelectionMovement::Increment => {
                if let Some(index) = self.selection.pop() {
                    let child_count = match self.selected_symbol() {
                        Ok(symbol) => symbol.children.len(),
                        Err(error) => {
                            return Err(error);
                        },
                    };
                    let next = index.saturating_add(1);
                    let last = child_count.saturating_sub(1);
                    self.selection.push(if next < last { next } else { last });
                }
            },
            SelectionMovement::Decrement => {
                if let Some(index) = self.selection.pop() {
                    self.selection.push(index.saturating_sub(1));
                }
            },
        }
        Ok(())
    }
}

} // verus!

verus! {

// ---------------------------------------------------------------------------------------------
// Scopes and the rows shown to the user
// ---------------------------------------------------------------------------------------------

/// All addresses between two addresses.
#[derive(Clone, Copy, Debug, PartialEq, Eq, Structural)]
pub struct Scope {
    /// The start [`Address`].
    pub start: Address,
    /// The end.
    pub end: Address,
}

/// An address within a [`Document`].
#[derive(Clone, Copy, Debug, PartialEq, Eq, Structural)]
pub struct Address {
    /// The row.
    pub row: Row,
    /// The column.
    pub column: usize,
}

/// The [`Address`] of the `character`-th byte of a line relative to the first byte of the line
/// when rows are `width` bytes wide.
pub open spec fn relative_address(character: int, width: int) -> Address {
    Address { row: Row((character / width) as u64), column: (character % width) as usize }
}

/// The [`Address`] of `position` in `lines` when rows are `width` bytes wide.
pub open spec fn address_of(lines: Seq<Line>, position: Position, width: int) -> Result<Address, ScopeFromRangeError> {
    if position.line >= lines.len() {
        Err(ScopeFromRangeError::OutOfBounds(OutOfBoundsError))
    } else if lines[position.line as int].first_row.0 + (position.character as int) / width > u64::MAX {
        Err(ScopeFromRangeError::Overflow(OverflowError))
    } else {
        Ok(Address {
            row: Row((lines[position.line as int].first_row.0 + (position.character as int) / width) as u64),
            column: ((position.character as int) % width) as usize,
        })
    }
}

/// The [`Scope`] that `range` covers in `lines` when rows are `width` bytes wide.
pub open spec fn scope_of(lines: Seq<Line>, range: Range, width: int) -> Result<Scope, ScopeFromRangeError> {
    if width == 0 {
        Err(ScopeFromRangeError::DivideByZero(DivideByZeroError))
    } else {
        match address_of(lines, range.start, width) {
            Err(error) => Err(error),
            Ok(start) => match address_of(lines, range.end, width) {
                Err(error) => Err(error),
                Ok(end) => Ok(Scope { start, end }),
            },
        }
    }
}

/// The bytes of `bytes` from `start` to `end`, or none where that slice of the text is not
/// valid: the range is reversed, reaches past the end or cuts a character.
pub open spec fn slice_or_empty(bytes: Seq<u8>, start: int, end: int) -> Seq<u8> {
    if start <= end && is_char_boundary(bytes, start) && is_char_boundary(bytes, end) {
        bytes.subrange(start, end)
    } else {
        Seq::empty()
    }
}

/// Returns the text of `text` from byte `start` to byte `end`, or `None` where the range is
/// reversed, reaches past the end of `text` or cuts a character; this is `str::get`.
#[verifier::external_body]
pub(crate) fn str_get(text: &str, start: usize, end: usize) -> (result: Option<&str>)
    ensures
        result is Some <==> (start <= end && is_char_boundary(bytes_of(text@), start as int)
            && is_char_boundary(bytes_of(text@), end as int)),
        result matches Some(part) ==> bytes_of(part@) == bytes_of(text@).subrange(
            start as int,
            end as int,
        ),
{
    text.get(start..end)
}

/// Returns the text of `text` from byte `start` to byte `end`, or an empty text where that
/// slice of the text is not valid.
fn slice_to_string(text: &str, start: usize, end: usize) -> (result: String)
    ensures
        bytes_of(result@) == slice_or_empty(bytes_of(text@), start as int, end as int),
{
    match str_get(text, start, end) {
        Some(part) => part.to_owned(),
        None => {
            let empty = String::new();
            assert(empty@ =~= Seq::<char>::empty());
            assert(bytes_of(empty@) =~= Seq::<u8>::empty());
            empty
        },
    }
}

/// The texts and styles that make up the row at `index` whose text is `text`, where `scope` is
/// selected: the part of the row within the scope has the selection style.
pub open spec fn row_pieces(text: Seq<u8>, index: int, scope: Scope) -> Seq<(Seq<u8>, Style)> {
    if index < scope.start.row.0 || index > scope.end.row.0 {
        seq![(text, Style::Default)]
    } else {
        let starts_here = index == scope.start.row.0;
        let ends_here = index == scope.end.row.0;
        let from = if starts_here { scope.start.column as int } else { 0 };
        let to = if ends_here { scope.end.column as int } else { text.len() as int };
        let before = if starts_here && scope.start.column > 0 {
            seq![(slice_or_empty(text, 0, scope.start.column as int), Style::Default)]
        } else {
            Seq::empty()
        };
        let after = if ends_here && scope.end.column < text.len() {
            seq![(slice_or_empty(text, scope.end.column as int, text.len() as int), Style::Default)]
        } else {
            Seq::empty()
        };
        before + seq![(slice_or_empty(text, from, to), Style::Selection)] + after
    }
}

/// The bytes of the texts of `pieces`, one after the other.
pub open spec fn piece_bytes(pieces: Seq<(Seq<u8>, Style)>) -> Seq<u8>
    decreases pieces.len(),
{
    if pieces.len() == 0 {
        Seq::empty()
    } else {
        pieces[0].0 + piece_bytes(pieces.drop_first())
    }
}

/// The selected symbol is highlighted: a row outside of the scope of the selection is one piece
/// in the default style; a row within it holds exactly one piece in the selection style, the
/// bytes from the column where the scope starts (or the start of the row) to the column where it
/// ends (or the end of the row), and every other piece is in the default style. Where those
/// columns do not cut a character, the pieces make up the row.
pub proof fn lemma_selection_is_highlighted(text: Seq<u8>, index: int, scope: Scope)
    ensures
        (index < scope.start.row.0 || index > scope.end.row.0) ==> row_pieces(text, index, scope)
            == seq![(text, Style::Default)],
        scope.start.row.0 <= index <= scope.end.row.0 ==> ({
            let pieces = row_pieces(text, index, scope);
            let from = if index == scope.start.row.0 { scope.start.column as int } else { 0 };
            let to = if index == scope.end.row.0 { scope.end.column as int } else { text.len() as int };
            &&& exists|i: int|
                0 <= i < pieces.len() && pieces[i] == (slice_or_empty(text, from, to), Style::Selection)
            &&& forall|i: int, j: int|
                0 <= i < pieces.len() && 0 <= j < pieces.len() && pieces[i].1 == Style::Selection
                    && pieces[j].1 == Style::Selection ==> i == j
            &&& forall|i: int|
                0 <= i < pieces.len() && pieces[i].1 != Style::Selection ==> pieces[i].1 == Style::Default
            &&& (vstd::utf8::valid_utf8(text) && 0 <= from <= to <= text.len() && is_char_boundary(
                text,
                from,
            ) && is_char_boundary(text, to) && is_char_boundary(text, text.len() as int))
                ==> piece_bytes(pieces) == text
        }),
{
    reveal_with_fuel(piece_bytes, 4);
    if scope.start.row.0 <= index <= scope.end.row.0 {
        let pieces = row_pieces(text, index, scope);
        let starts_here = index == scope.start.row.0;
        let ends_here = index == scope.end.row.0;
        let from = if starts_here { scope.start.column as int } else { 0 };
        let to = if ends_here { scope.end.column as int } else { text.len() as int };
        let has_before = starts_here && scope.start.column > 0;
        let has_after = ends_here && scope.end.column < text.len();
        let middle = seq![(slice_or_empty(text, from, to), Style::Selection)];
        let before: Seq<(Seq<u8>, Style)> = if has_before {
            seq![(slice_or_empty(text, 0, scope.start.column as int), Style::Default)]
        } else {
            Seq::empty()
        };
        let after: Seq<(Seq<u8>, Style)> = if has_after {
            seq![(slice_or_empty(text, scope.end.column as int, text.len() as int), Style::Default)]
        } else {
            Seq::empty()
        };
        assert(pieces == before + middle + after);
        let at = if has_before { 1int } else { 0int };
        assert(pieces[at] == middle[0]);
        assert forall|i: int| 0 <= i < pieces.len() && i != at implies pieces[i].1 == Style::Default by {
            if has_before && i == 0 {
                assert(pieces[i] == before[0]);
            } else {
                assert(pieces[i] == after[i - at - 1]);
            }
        }
        if vstd::utf8::valid_utf8(text) && 0 <= from <= to <= text.len() && is_char_boundary(text, from)
            && is_char_boundary(text, to) && is_char_boundary(text, text.len() as int) {
            assert(is_char_boundary(text, 0));
            let head = text.subrange(0, from);
            let body = text.subrange(from, to);
            let tail = text.subrange(to, text.len() as int);
            assert(head + body + tail =~= text);
            if has_before {
                if has_after {
                    assert(pieces =~= seq![(head, Style::Default), (body, Style::Selection), (tail, Style::Default)]);
                    assert(piece_bytes(pieces) == head + (body + (tail + Seq::<u8>::empty())));
                    assert(head + (body + (tail + Seq::<u8>::empty())) =~= text);
                } else {
                    assert(tail =~= Seq::<u8>::empty());
                    assert(pieces =~= seq![(head, Style::Default), (body, Style::Selection)]);
                    assert(piece_bytes(pieces) == head + (body + Seq::<u8>::empty()));
                    assert(head + (body + Seq::<u8>::empty()) =~= text);
                }
            } else {
                assert(head =~= Seq::<u8>::empty());
                if has_after {
                    assert(pieces =~= seq![(body, Style::Selection), (tail, Style::Default)]);
                    assert(piece_bytes(pieces) == body + (tail + Seq::<u8>::empty()));
                    assert(body + (tail + Seq::<u8>::empty()) =~= text);
                } else {
                    assert(tail =~= Seq::<u8>::empty());
                    assert(pieces =~= seq![(body, Style::Selection)]);
                    assert(piece_bytes(pieces) == body + Seq::<u8>::empty());
                    assert(body + Seq::<u8>::empty() =~= text);
                }
            }
        }
    }
}

/// If `row` is made of `pieces`.
pub open spec fn is_row_text(row: RowText, pieces: Seq<(Seq<u8>, Style)>) -> bool {
    &&& row.texts@.len() == pieces.len()
    &&& forall|i: int|
        0 <= i < pieces.len() ==> {
            &&& bytes_of(#[trigger] row.texts@[i].text@) == pieces[i].0
            &&& row.texts@[i].style == pieces[i].1
        }
}

/// The rows of all `lines`, one after the other.
pub open spec fn flat_rows(lines: Seq<Line>) -> Seq<(usize, usize)>
    decreases lines.len(),
{
    if lines.len() == 0 {
        Seq::empty()
    } else {
        flat_rows(lines.drop_last()) + lines.last().rows@
    }
}

/// The number of rows shown when `count` rows follow the first shown row `first` and `height`
/// rows fit on the screen.
pub open spec fn shown_count(count: int, first: int, height: int) -> int {
    if first >= count {
        0
    } else if count - first < height {
        count - first
    } else {
        height
    }
}

/// If `rows` are the rows of `doc` that are visible on its screen with the `scope` selected.
pub open spec fn shows_rows(doc: Document, rows: Seq<RowText>, scope: Scope) -> bool {
    let all = flat_rows(doc.lines.vec@);
    let first = doc.first_visible_row.0 as int;
    let bytes = bytes_of(doc.file.text@);
    &&& rows.len() == shown_count(all.len() as int, first, doc.dimensions.height.0 as int)
    &&& forall|j: int|
        0 <= j < rows.len() ==> {
            let (start, end) = all[first + j];
            is_row_text(
                #[trigger] rows[j],
                row_pieces(slice_or_empty(bytes, start as int, end as int), first + j, scope),
            )
        }
}

/// The outcome of computing the rows of `doc` that are shown: the error of selecting the
/// symbol, converting its range or indexing the first row, or the scope that is selected.
pub open spec fn rows_outcome(doc: Document) -> Result<Scope, ScopeFromRangeError> {
    match symbol_at(doc.root_symbol, doc.selection@) {
        None => Err(ScopeFromRangeError::OutOfBounds(OutOfBoundsError)),
        Some(symbol) => match scope_of(doc.lines.vec@, symbol.range, doc.dimensions.width.0 as int) {
            Err(error) => Err(error),
            Ok(scope) => if doc.first_visible_row.0 > usize::MAX {
                Err(ScopeFromRangeError::Overflow(OverflowError))
            } else {
                Ok(scope)
            },
        },
    }
}

/// If `result` is what [`Document::rows`] returns for `doc`.
pub open spec fn is_rows_result(doc: Document, result: Result<Vec<RowText>, ScopeFromRangeError>) -> bool {
    match rows_outcome(doc) {
        Err(error) => result == Err::<Vec<RowText>, ScopeFromRangeError>(error),
        Ok(scope) => result matches Ok(rows) && shows_rows(doc, rows@, scope),
    }
}

proof fn lemma_flat_rows_step(lines: Seq<Line>, k: int)
    requires
        0 <= k < lines.len(),
    ensures
        flat_rows(lines.take(k + 1)) == flat_rows(lines.take(k)) + lines[k].rows@,
{
    assert(lines.take(k + 1).drop_last() =~= lines.take(k));
}

impl Document {
    /// Converts `character` into an [`Address`] relative to the first character of the line.
    pub fn relative_address_from_character(&self, character: Character) -> (result: Result<Address, DivideByZeroError>)
        ensures
            result is Ok <==> self.dimensions.width.0 != 0,
            result matches Ok(address) ==> address == relative_address(
                character.0 as int,
                self.dimensions.width.0 as int,
            ),
    {
        let row = match character.try_div(self.dimensions.width) {
            Ok(row) => row,
            Err(error) => {
                return Err(error);
            },
        };
        let column = match character.try_rem(self.dimensions.width) {
            Ok(column) => column,
            Err(error) => {
                return Err(error);
            },
        };
        Ok(Address { row, column: usize::from(column) })
    }

    /// Converts `range` into a [`Scope`].
    pub fn scope_from_range(&self, range: &Range) -> (result: Result<Scope, ScopeFromRangeError>)
        ensures
            result == scope_of(self.lines.vec@, *range, self.dimensions.width.0 as int),
    {
        let start_relative = match self.relative_address_from_character(Character::from(range.start.character)) {
            Ok(address) => address,
            Err(error) => {
                return Err(ScopeFromRangeError::from(error));
            },
        };
        let end_relative = match self.relative_address_from_character(Character::from(range.end.character)) {
            Ok(address) => address,
            Err(error) => {
                return Err(ScopeFromRangeError::from(error));
            },
        };
        let start_line = match self.lines.get(range.start.line) {
            Ok(line) => line,
            Err(error) => {
                return Err(ScopeFromRangeError::from(error));
            },
        };
        let start_row = match start_line.first_row.try_add(start_relative.row) {
            Ok(row) => row,
            Err(error) => {
                return Err(ScopeFromRangeError::from(error));
            },
        };
        let end_line = match self.lines.get(range.end.line) {
            Ok(line) => line,
            Err(error) => {
                return Err(ScopeFromRangeError::from(error));
            },
        };
        let end_row = match end_line.first_row.try_add(end_relative.row) {
            Ok(row) => row,
            Err(error) => {
                return Err(ScopeFromRangeError::from(error));
            },
        };
        Ok(
            Scope {
                start: Address { row: start_row, column: start_relative.column },
                end: Address { row: end_row, column: end_relative.column },
            },
        )
    }

    /// Returns the [`RowText`] of the row at `index` whose text is `text`.
    fn row_text(text: &str, index: u128, scope: &Scope) -> (result: RowText)
        ensures
            is_row_text(result, row_pieces(bytes_of(text@), index as int, *scope)),
    {
        let ghost bytes = bytes_of(text@);
        let length = text.as_bytes().len();
        let mut styled_texts: Vec<StyledText> = Vec::new();
        if index < scope.start.row.0 as u128 || index > scope.end.row.0 as u128 {
            styled_texts.push(StyledText::new(text.to_owned(), Style::Default));
        } else {
            let starts_here = index == scope.start.row.0 as u128;
            let ends_here = index == scope.end.row.0 as u128;
            if starts_here && scope.start.column > 0 {
                styled_texts.push(
                    StyledText::new(slice_to_string(text, 0, scope.start.column), Style::Default),
                );
            }
            let from = if starts_here {
                scope.start.column
            } else {
                0
            };
            let to = if ends_here {
                scope.end.column
            } else {
                length
            };
            styled_texts.push(StyledText::new(slice_to_string(text, from, to), Style::Selection));
            if ends_here && scope.end.column < length {
                styled_texts.push(
                    StyledText::new(slice_to_string(text, scope.end.column, length), Style::Default),
                );
            }
        }
        let result = RowText::new(styled_texts);
        assert(is_row_text(result, row_pieces(bytes, index as int, *scope)));
        result
    }

    /// Returns a [`Vec`] of the rows of `self` that are visible, with the selected symbol
    /// highlighted.
    pub fn rows(&self) -> (result: Result<Vec<RowText>, ScopeFromRangeError>)
        ensures
            is_rows_result(*self, result),
    {
        let symbol = match self.selected_symbol() {
            Ok(symbol) => symbol,
            Err(error) => {
                return Err(ScopeFromRangeError::from(error));
            },
        };
        let selection_scope = match self.scope_from_range(&symbol.range) {
            Ok(scope) => scope,
            Err(error) => {
                return Err(error);
            },
        };
        let first = match usize::try_from(self.first_visible_row) {
            Ok(first) => first,
            Err(error) => {
                return Err(ScopeFromRangeError::from(error));
            },
        };
        let height = usize::from(self.dimensions.height);
        let text = self.file.text.as_str();
        let ghost bytes = bytes_of(self.file.text@);
        let ghost lines = self.lines.vec@;
        let ghost scope = selection_scope;
        assert(rows_outcome(*self) == Ok::<Scope, ScopeFromRangeError>(scope));
        let mut rows: Vec<RowText> = Vec::new();
        let mut position: u128 = 0;
        let mut k: usize = 0;
        let line_count = self.lines.len();
        assert(lines.take(0) =~= Seq::<Line>::empty());
        while k < line_count
            invariant
                k <= line_count == lines.len(),
                lines == self.lines.vec@,
                first == self.first_visible_row.0,
                height == self.dimensions.height.0,
                bytes == bytes_of(text@),
                text@ == self.file.text@,
                scope == selection_scope,
                position == flat_rows(lines.take(k as int)).len(),
                position <= k * (usize::MAX as int),
                rows@.len() == shown_count(position as int, first as int, height as int),
                forall|j: int|
                    0 <= j < rows@.len() ==> {
                        let (start, end) = flat_rows(lines.take(k as int))[first + j];
                        is_row_text(
                            #[trigger] rows@[j],
                            row_pieces(slice_or_empty(bytes, start as int, end as int), first + j, scope),
                        )
                    },
            decreases line_count - k,
        {
            let line = &self.lines.vec[k];
            let ghost before = flat_rows(lines.take(k as int));
            let row_count = line.rows.len();
            proof {
                lemma_flat_rows_step(lines, k as int);
                assert((k as int + 1) * (usize::MAX as int) <= (usize::MAX as int) * (usize::MAX as int)) by (nonlinear_arith)
                    requires
                        k < usize::MAX,
                ;
                assert((usize::MAX as int) * (usize::MAX as int) < u128::MAX) by (nonlinear_arith)
                    requires
                        usize::MAX <= u64::MAX,
                ;
                assert(k * (usize::MAX as int) + (usize::MAX as int) == (k as int + 1) * (usize::MAX as int)) by (nonlinear_arith);
            }
            let mut j: usize = 0;
            while j < row_count
                invariant
                    j <= line.rows@.len(),
                    *line == lines[k as int],
                    k < lines.len(),
                    lines == self.lines.vec@,
                    first == self.first_visible_row.0,
                    height == self.dimensions.height.0,
                    bytes == bytes_of(text@),
                    scope == selection_scope,
                    before == flat_rows(lines.take(k as int)),
                    flat_rows(lines.take(k as int + 1)) == before + line.rows@,
                    before.len() <= k * (usize::MAX as int),
                    (k as int + 1) * (usize::MAX as int) <= (usize::MAX as int) * (usize::MAX as int),
                    (usize::MAX as int) * (usize::MAX as int) < u128::MAX,
                    k * (usize::MAX as int) + (usize::MAX as int) == (k as int + 1) * (usize::MAX as int),
                    row_count == line.rows@.len(),
                    position == before.len() + j,
                    rows@.len() == shown_count(position as int, first as int, height as int),
                    forall|i: int|
                        0 <= i < rows@.len() ==> {
                            let (start, end) = (before + line.rows@)[first + i];
                            is_row_text(
                                #[trigger] rows@[i],
                                row_pieces(slice_or_empty(bytes, start as int, end as int), first + i, scope),
                            )
                        },
                decreases line.rows@.len() - j,
            {
                let (start, end) = line.rows[j];
                assert((before + line.rows@)[position as int] == line.rows@[j as int]);
                if position >= first as u128 && position - (first as u128) < height as u128 {
                    let row_string = slice_to_string(text, start, end);
                    rows.push(Self::row_text(row_string.as_str(), position, &selection_scope));
                }
                position = position + 1;
                j = j + 1;
            }
            k = k + 1;
        }
        assert(lines.take(line_count as int) =~= lines);
        Ok(rows)
    }
}

} // verus!

verus! {

// ---------------------------------------------------------------------------------------------
// Outputs of a document
// ---------------------------------------------------------------------------------------------

/// If `item` describes `doc` to a language server.
pub open spec fn is_document_item(item: TextDocumentItem, doc: Document) -> bool {
    &&& item.uri == doc.file.url
    &&& item.language_id@ == match crate::io::fs::language_of(doc.file.url@) {
        Some(language) => crate::io::fs::language_id(language),
        None => Seq::<char>::empty(),
    }
    &&& item.version == doc.version
    &&& item.text == doc.file.text
}

/// If `output` shows the rows of `doc` that are visible.
pub open spec fn shows_view(doc: Document, output: Output) -> bool {
    match output {
        Output::UpdateView { rows } => is_rows_result(doc, Ok(rows)),
        _ => false,
    }
}

/// If `output` closes `doc`.
pub open spec fn closes(doc: Document, output: Output) -> bool {
    output == Output::CloseDoc { doc: TextDocumentIdentifier { uri: doc.file.url } }
}

impl Document {
    /// Returns the URL of `self`.
    pub fn url(&self) -> (result: &String)
        ensures
            *result == self.file.url,
    {
        self.file.url()
    }

    /// Returns the [`TextDocumentItem`] that describes `self`.
    pub fn item(&self) -> (result: TextDocumentItem)
        ensures
            is_document_item(result, *self),
    {
        let language_id = match self.file.language() {
            Some(language) => language.id(),
            None => String::new(),
        };
        TextDocumentItem::new(self.url().clone(), language_id, self.version, self.file.text().clone())
    }

    /// Returns the [`Output`] for opening `self`.
    pub fn open_output(&self) -> (result: Result<Output, ScopeFromRangeError>)
        ensures
            result matches Ok(output) && output matches Output::OpenDoc { doc } && is_document_item(doc, *self),
    {
        Ok(Output::OpenDoc { doc: self.item() })
    }

    /// Returns the [`Output`] for changing `self`.
    pub fn change_output(&mut self) -> (result: Result<Output, ScopeFromRangeError>)
        ensures
            *final(self) == *old(self),
            match rows_outcome(*old(self)) {
                Err(error) => result == Err::<Output, ScopeFromRangeError>(error),
                Ok(_) => result matches Ok(output) && shows_view(*old(self), output),
            },
    {
        match self.rows() {
            Ok(rows) => Ok(Output::UpdateView { rows }),
            Err(error) => Err(error),
        }
    }

    /// Returns the output to close `self`.
    pub fn close(self) -> (result: Output)
        ensures
            closes(self, result),
    {
        Output::CloseDoc { doc: TextDocumentIdentifier::new(self.file.url) }
    }
}

impl From<Document> for TextDocumentItem {
    fn from(value: Document) -> (result: Self)
        ensures
            is_document_item(result, value),
    {
        value.item()
    }
}

impl vstd::std_specs::convert::FromSpecImpl<Document> for TextDocumentItem {
    /// The item holds `String`s, which have no value in specifications: the `ensures` of
    /// `from` states the result instead.
    open spec fn obeys_from_spec() -> bool {
        false
    }

    open spec fn from_spec(value: Document) -> Self {
        arbitrary()
    }
}

impl From<Document> for TextDocumentIdentifier {
    fn from(value: Document) -> (result: Self)
        ensures
            result.uri == value.file.url,
    {
        Self::new(value.file.url)
    }
}

impl vstd::std_specs::convert::FromSpecImpl<Document> for TextDocumentIdentifier {
    open spec fn obeys_from_spec() -> bool {
        true
    }

    open spec fn from_spec(value: Document) -> Self {
        TextDocumentIdentifier { uri: value.file.url }
    }
}

} // verus!

verus! {

// ---------------------------------------------------------------------------------------------
// Panes
// ---------------------------------------------------------------------------------------------

/// A view of the document.
#[derive(Debug)]
pub struct Pane {
    /// The document in the pane.
    pub doc: Option<Document>,
    /// The [`Dimensions`] of the pane.
    pub size: Dimensions,
}

/// `doc` shown on a screen of `dimensions`.
pub open spec fn resized(doc: Document, dimensions: Dimensions) -> Document {
    Document { dimensions, ..doc }
}

/// `doc` scrolled towards `direction`.
pub open spec fn scrolled(doc: Document, direction: ScreenDirection) -> Document {
    Document {
        first_visible_row: Row(
            scrolled_row(doc.first_visible_row.0 as int, doc.max_visible_row.0 as int, direction) as u64,
        ),
        ..doc
    }
}

/// If `moved` is `doc` with its selection moved as `movement` describes.
pub open spec fn is_reselected(moved: Document, doc: Document, movement: SelectionMovement) -> bool {
    &&& moved == Document { selection: moved.selection, ..doc }
    &&& moved.selection@ == moved_selection(doc.root_symbol, doc.selection@, movement).0
}

/// If `outputs` follow `before` with the view of `doc`, as `result` reports them; or `result`
/// is the error of computing that view.
pub open spec fn viewed(doc: Document, before: Seq<Output>, result: Result<Seq<Output>, ScopeFromRangeError>) -> bool {
    match rows_outcome(doc) {
        Err(error) => result == Err::<Seq<Output>, ScopeFromRangeError>(error),
        Ok(_) => result matches Ok(outputs) && outputs.len() == before.len() + 1
            && outputs.take(before.len() as int) == before && shows_view(doc, outputs[before.len() as int]),
    }
}

/// The outputs of a result.
pub open spec fn outputs_of(result: Result<Vec<Output>, ScopeFromRangeError>) -> Result<Seq<Output>, ScopeFromRangeError> {
    match result {
        Ok(outputs) => Ok(outputs@),
        Err(error) => Err(error),
    }
}

impl Pane {
    /// Creates a [`Pane`] without a document.
    pub fn new() -> (result: Self)
        ensures
            result.doc is None,
            result.size == (Dimensions { height: Unit(0), width: Unit(0) }),
    {
        Self { doc: None, size: Dimensions { height: Unit(0), width: Unit(0) } }
    }

    /// Adds the view of the document of `self`, if there is one, to `outputs`.
    pub fn update(&mut self, outputs: &mut Vec<Output>) -> (result: Result<(), ScopeFromRangeError>)
        ensures
            final(self).doc == old(self).doc,
            final(self).size == old(self).size,
            match old(self).doc {
                None => result is Ok && final(outputs)@ == old(outputs)@,
                Some(doc) => viewed(
                    doc,
                    old(outputs)@,
                    match result {
                        Ok(_) => Ok(final(outputs)@),
                        Err(error) => Err(error),
                    },
                ) && (result is Err ==> final(outputs)@ == old(outputs)@),
            },
    {
        if let Some(doc) = self.doc.as_mut() {
            let output = match doc.change_output() {
                Ok(output) => output,
                Err(error) => {
                    return Err(error);
                },
            };
            let ghost before = outputs@;
            outputs.push(output);
            assert(outputs@.take(before.len() as int) =~= before);
        }
        Ok(())
    }

    /// Updates the size of `self` to match `dimensions`, adding the new view of the document of
    /// `self`, if there is one, to `outputs`.
    ///
    /// The rows of the lines of the document are kept as they were laid out.
    pub fn update_size(&mut self, dimensions: Dimensions, outputs: &mut Vec<Output>) -> (result: Result<(), ScopeFromRangeError>)
        ensures
            final(self).size == dimensions,
            match old(self).doc {
                None => result is Ok && final(outputs)@ == old(outputs)@ && final(self).doc is None,
                Some(doc) => final(self).doc == Some(resized(doc, dimensions)) && viewed(
                    resized(doc, dimensions),
                    old(outputs)@,
                    match result {
                        Ok(_) => Ok(final(outputs)@),
                        Err(error) => Err(error),
                    },
                ) && (result is Err ==> final(outputs)@ == old(outputs)@),
            },
    {
        self.size = dimensions;
        if let Some(doc) = self.doc.as_mut() {
            doc.dimensions = dimensions;
            let output = match doc.change_output() {
                Ok(output) => output,
                Err(error) => {
                    return Err(error);
                },
            };
            let ghost before = outputs@;
            outputs.push(output);
            assert(outputs@.take(before.len() as int) =~= before);
        }
        Ok(())
    }

    /// Opens `file` as the document of `self`, returning the outputs that close the previous
    /// document, open the new one and show it.
    ///
    /// Where creating the document or computing its view fails, `self` is left as it was.
    pub fn create_doc(&mut self, file: File) -> (result: Result<Vec<Output>, ScopeFromRangeError>)
        requires
            layout_terminates(bytes_of(file.text@), old(self).size.width.0 as int),
        ensures
            final(self).size == old(self).size,
            document_overflows(bytes_of(file.text@)) ==> result == Err::<Vec<Output>, ScopeFromRangeError>(
                ScopeFromRangeError::Overflow(OverflowError),
            ),
            result is Err ==> final(self).doc == old(self).doc,
            result is Err && !document_overflows(bytes_of(file.text@)) ==> exists|doc: Document|
                is_new_document(doc, file, old(self).size) && #[trigger] rows_outcome(doc) == Err::<Scope, ScopeFromRangeError>(
                    result->Err_0,
                ),
            result matches Ok(outputs) ==> final(self).doc matches Some(doc) && is_new_document(doc, file, old(self).size)
                && {
                let closing = match old(self).doc {
                    Some(old_doc) => seq![Output::CloseDoc { doc: TextDocumentIdentifier { uri: old_doc.file.url } }],
                    None => Seq::<Output>::empty(),
                };
                &&& outputs@.len() == closing.len() + 2
                &&& outputs@.take(closing.len() as int) == closing
                &&& outputs@[closing.len() as int] matches Output::OpenDoc { doc: item } && is_document_item(item, doc)
                &&& shows_view(doc, outputs@[closing.len() as int + 1])
            },
    {
        let mut outputs: Vec<Output> = Vec::new();
        let mut doc = match Document::new(file, self.size) {
            Ok(doc) => doc,
            Err(error) => {
                return Err(ScopeFromRangeError::from(error));
            },
        };
        let ghost created = doc;
        let open_output = match doc.open_output() {
            Ok(output) => output,
            Err(error) => {
                return Err(error);
            },
        };
        let view_output = match doc.change_output() {
            Ok(output) => output,
            Err(error) => {
                assert(rows_outcome(created) == Err::<Scope, ScopeFromRangeError>(error));
                return Err(error);
            },
        };
        if let Some(old_doc) = self.doc.take() {
            outputs.push(old_doc.close());
        }
        self.doc = Some(doc);
        outputs.push(open_output);
        outputs.push(view_output);
        Ok(outputs)
    }

    /// Change selection of `self` as described by `movement`, returning the new view.
    pub fn change_selection(&mut self, movement: &SelectionMovement) -> (result: Result<Option<Output>, ScopeFromRangeError>)
        ensures
            final(self).size == old(self).size,
            match old(self).doc {
                None => result == Ok::<Option<Output>, ScopeFromRangeError>(None) && final(self).doc is None,
                Some(doc) => final(self).doc matches Some(moved) && {
                    &&& is_reselected(moved, doc, *movement)
                    &&& if !moved_selection(doc.root_symbol, doc.selection@, *movement).1 {
                        result == Err::<Option<Output>, ScopeFromRangeError>(ScopeFromRangeError::OutOfBounds(OutOfBoundsError))
                    } else {
                        match rows_outcome(moved) {
                            Err(error) => result == Err::<Option<Output>, ScopeFromRangeError>(error),
                            Ok(_) => result matches Ok(Some(output)) && shows_view(moved, output),
                        }
                    }
                },
            },
    {
        match self.doc.as_mut() {
            Some(doc) => {
                if let Err(error) = doc.change_selection(movement) {
                    assert(doc.selection@ =~= moved_selection(old(self).doc->0.root_symbol, old(self).doc->0.selection@, *movement).0);
                    return Err(ScopeFromRangeError::from(error));
                }
                assert(doc.selection@ =~= moved_selection(old(self).doc->0.root_symbol, old(self).doc->0.selection@, *movement).0);
                match doc.rows() {
                    Ok(rows) => Ok(Some(Output::UpdateView { rows })),
                    Err(error) => Err(error),
                }
            },
            None => Ok(None),
        }
    }

    /// Returns the [`Output`] to close the [`Document`] of `self`.
    pub fn close_doc(&mut self) -> (result: Option<Output>)
        ensures
            final(self).doc is None,
            final(self).size == old(self).size,
            match old(self).doc {
                None => result is None,
                Some(doc) => result matches Some(output) && closes(doc, output),
            },
    {
        match self.doc.take() {
            Some(doc) => Some(doc.close()),
            None => None,
        }
    }

    /// Scrolls `self` towards `direction`, returning the new view.
    pub fn scroll(&mut self, direction: ScreenDirection) -> (result: Result<Option<Output>, ScopeFromRangeError>)
        ensures
            final(self).size == old(self).size,
            match old(self).doc {
                None => result == Ok::<Option<Output>, ScopeFromRangeError>(None) && final(self).doc is None,
                Some(doc) => {
                    let moved = scrolled(doc, direction);
                    &&& final(self).doc == Some(moved)
                    &&& match rows_outcome(moved) {
                        Err(error) => result == Err::<Option<Output>, ScopeFromRangeError>(error),
                        Ok(_) => result matches Ok(Some(output)) && shows_view(moved, output),
                    }
                },
            },
    {
        match self.doc.as_mut() {
            Some(doc) => {
                doc.scroll(direction);
                match doc.rows() {
                    Ok(rows) => Ok(Some(Output::UpdateView { rows })),
                    Err(error) => Err(error),
                }
            },
            None => Ok(None),
        }
    }
}

} // verus!

verus! {

// ---------------------------------------------------------------------------------------------
// The processor
// ---------------------------------------------------------------------------------------------

/// The processor of the application.
#[derive(Debug)]
pub struct Processor {
    /// The currently visible pane.
    pub pane: Pane,
    /// The current command.
    pub command: String,
    /// Translates input into operations.
    pub interpreter: Interpreter,
}

/// The prefix of the command that opens a file.
pub open spec fn open_prefix() -> Seq<char> {
    ":open "@
}

/// If `result` holds `outputs` followed by the update of the header.
pub open spec fn ends_with_header(result: Result<Vec<Output>, ScopeFromRangeError>, outputs: Seq<Output>) -> bool {
    result matches Ok(all) && all@ == outputs.push(Output::UpdateHeader)
}

/// If `result` holds the view of `doc` followed by the update of the header, or is the error of
/// computing that view.
pub open spec fn views_with_header(doc: Document, result: Result<Vec<Output>, ScopeFromRangeError>) -> bool {
    match rows_outcome(doc) {
        Err(error) => result == Err::<Vec<Output>, ScopeFromRangeError>(error),
        Ok(_) => result matches Ok(all) && all@.len() == 2 && shows_view(doc, all@[0]) && all@[1]
            == Output::UpdateHeader,
    }
}

/// If `result` holds a view of the document of `old` after it changed into `new`, as
/// [`Processor::operate`] reports it: only the header update where there is no document.
pub open spec fn views_document(old: Option<Document>, new: Option<Document>, result: Result<Vec<Output>, ScopeFromRangeError>) -> bool {
    match old {
        None => new is None && ends_with_header(result, Seq::empty()),
        Some(_) => new matches Some(doc) && views_with_header(doc, result),
    }
}

/// If `output` asks the user to confirm that the application shall quit.
pub open spec fn asks_to_quit(output: Output) -> bool {
    output matches Output::Question { request } && request.typ == crate::lsp::MessageType::Info
        && request.message@ == quit_question() && request.actions is None
}

/// If `output` reads the file at `path`.
pub open spec fn reads_file(output: Output, path: Seq<char>) -> bool {
    output matches Output::ReadFile { path: read } && read@ == path
}

/// If the processor state `new` and the `result` follow from performing `operation` on `old`.
pub open spec fn operated(old: Processor, new: Processor, operation: Operation, result: Result<Vec<Output>, ScopeFromRangeError>) -> bool {
    &&& new.interpreter == old.interpreter
    &&& match operation {
        Operation::Resize { dimensions } => {
            &&& new.command == old.command
            &&& new.pane.size == dimensions
            &&& match old.pane.doc {
                None => new.pane.doc is None && ends_with_header(result, Seq::empty()),
                Some(doc) => new.pane.doc == Some(resized(doc, dimensions)) && views_with_header(
                    resized(doc, dimensions),
                    result,
                ),
            }
        },
        Operation::Confirm(_) => {
            &&& new.command == old.command
            &&& new.pane == old.pane
            &&& result matches Ok(all) && all@.len() == 2 && asks_to_quit(all@[0]) && all@[1] == Output::UpdateHeader
        },
        Operation::Reset => {
            &&& new.command@ == Seq::<char>::empty()
            &&& new.pane == old.pane
            &&& views_document(old.pane.doc, new.pane.doc, result)
        },
        Operation::StartCommand(_) => {
            &&& new.command@ == ":"@
            &&& new.pane == old.pane
            &&& ends_with_header(result, seq![Output::Command { command: new.command }])
        },
        Operation::Collect(c) => {
            &&& new.command@ == old.command@.push(c)
            &&& new.pane == old.pane
            &&& ends_with_header(result, seq![Output::Command { command: new.command }])
        },
        Operation::Execute => {
            &&& new.command == old.command
            &&& new.pane == old.pane
            &&& if open_prefix().is_prefix_of(old.command@) {
                result matches Ok(all) && all@.len() == 2 && reads_file(all@[0], old.command@.skip(open_prefix().len() as int))
                    && all@[1] == Output::UpdateHeader
            } else {
                ends_with_header(result, Seq::empty())
            }
        },
        Operation::Quit => {
            &&& new.command == old.command
            &&& new.pane.doc is None
            &&& new.pane.size == old.pane.size
            &&& match old.pane.doc {
                None => ends_with_header(result, seq![Output::Quit]),
                Some(doc) => result matches Ok(all) && all@.len() == 3 && closes(doc, all@[0]) && all@[1]
                    == Output::Quit && all@[2] == Output::UpdateHeader,
            }
        },
        Operation::CreateDoc(file) => {
            &&& new.command == old.command
            &&& new.pane.size == old.pane.size
            &&& (result is Err ==> new.pane.doc == old.pane.doc)
            &&& (document_overflows(bytes_of(file.text@)) ==> result == Err::<Vec<Output>, ScopeFromRangeError>(
                ScopeFromRangeError::Overflow(OverflowError),
            ))
            &&& (result is Err && !document_overflows(bytes_of(file.text@)) ==> exists|doc: Document|
                is_new_document(doc, file, old.pane.size) && #[trigger] rows_outcome(doc) == Err::<Scope, ScopeFromRangeError>(
                    result->Err_0,
                ))
            &&& (result matches Ok(all) ==> new.pane.doc matches Some(doc) && is_new_document(doc, file, old.pane.size)
                && {
                let closing = match old.pane.doc {
                    Some(old_doc) => seq![Output::CloseDoc { doc: TextDocumentIdentifier { uri: old_doc.file.url } }],
                    None => Seq::<Output>::empty(),
                };
                &&& all@.len() == closing.len() + 3
                &&& all@.take(closing.len() as int) == closing
                &&& all@[closing.len() as int] matches Output::OpenDoc { doc: item } && is_document_item(item, doc)
                &&& shows_view(doc, all@[closing.len() as int + 1])
                &&& all@[closing.len() as int + 2] == Output::UpdateHeader
            })
        },
        Operation::Scroll(direction) => {
            &&& new.command == old.command
            &&& new.pane.size == old.pane.size
            &&& match old.pane.doc {
                None => new.pane.doc is None && ends_with_header(result, Seq::empty()),
                Some(doc) => new.pane.doc == Some(scrolled(doc, direction)) && views_with_header(
                    scrolled(doc, direction),
                    result,
                ),
            }
        },
        Operation::ChangeSelection(movement) => {
            &&& new.command == old.command
            &&& new.pane.size == old.pane.size
            &&& match old.pane.doc {
                None => new.pane.doc is None && ends_with_header(result, Seq::empty()),
                Some(doc) => new.pane.doc matches Some(moved) && is_reselected(moved, doc, movement) && if !moved_selection(
                    doc.root_symbol,
                    doc.selection@,
                    movement,
                ).1 {
                    result == Err::<Vec<Output>, ScopeFromRangeError>(ScopeFromRangeError::OutOfBounds(OutOfBoundsError))
                } else {
                    views_with_header(moved, result)
                },
            }
        },
        // The processor does not act upon settings, alerts and document operations.
        Operation::UpdateSetting(_) | Operation::Alert(_) | Operation::Document(_) => {
            &&& new.command == old.command
            &&& new.pane == old.pane
            &&& ends_with_header(result, Seq::empty())
        },
    }
}

/// Returns the text of `command` after the prefix `:open `, or `None` where `command` does not
/// start with it.
fn strip_open_prefix(command: &str) -> (result: Option<String>)
    ensures
        match result {
            Some(path) => open_prefix().is_prefix_of(command@) && path@ == command@.skip(
                open_prefix().len() as int,
            ),
            None => !open_prefix().is_prefix_of(command@),
        },
{
    let prefix = ":open ";
    proof {
        reveal_strlit(":open ");
    }
    let prefix_len = prefix.unicode_len();
    let len = command.unicode_len();
    if len < prefix_len {
        return None;
    }
    let mut index: usize = 0;
    while index < prefix_len
        invariant
            prefix_len == prefix@.len() == open_prefix().len(),
            prefix@ == open_prefix(),
            prefix_len <= len == command@.len(),
            index <= prefix_len,
            forall|i: int| 0 <= i < index ==> command@[i] == prefix@[i],
        decreases prefix_len - index,
    {
        if command.get_char(index) != prefix.get_char(index) {
            return None;
        }
        index = index + 1;
    }
    assert(open_prefix().is_prefix_of(command@)) by {
        assert(command@.subrange(0, prefix_len as int) =~= prefix@);
    }
    let rest = command.substring_char(prefix_len, len);
    assert(rest@ =~= command@.skip(open_prefix().len() as int));
    Some(rest.to_owned())
}

/// Returns a copy of `text` with `c` added to its end; this is `String::push`.
#[verifier::external_body]
pub(crate) fn string_push(text: &mut String, c: char)
    ensures
        final(text)@ == old(text)@.push(c),
{
    text.push(c);
}

impl Processor {
    /// Creates a new [`Processor`], without a document and in the mode that views it.
    pub fn new() -> (result: Self)
        ensures
            result.pane.doc is None,
            result.pane.size == (Dimensions { height: Unit(0), width: Unit(0) }),
            result.command@ == Seq::<char>::empty(),
            result.interpreter.mode == translate::Mode::View,
    {
        Self { pane: Pane::new(), command: String::new(), interpreter: Interpreter::default() }
    }

    /// Processes `input` and generates [`Output`]s.
    pub fn process(&mut self, input: Input) -> (result: Result<Vec<Output>, ScopeFromRangeError>)
        requires
            old(self).interpreter.mode == translate::Mode::View ==> (input matches Input::File { text, .. }
                ==> layout_terminates(bytes_of(text@), old(self).pane.size.width.0 as int)),
        ensures
            exists|output: translate::Output|
                {
                    &&& translate::is_mode_output(old(self).interpreter.mode, input, output)
                    &&& final(self).interpreter.mode == translate::next_mode(old(self).interpreter.mode, output.new_mode)
                    &&& match output.operation {
                        None => (result matches Ok(outputs) && outputs@.len() == 0) && final(self).pane == old(self).pane
                            && final(self).command == old(self).command,
                        Some(operation) => operated(
                            Processor { interpreter: final(self).interpreter, ..*old(self) },
                            *final(self),
                            operation,
                            result,
                        ),
                    }
                },
    {
        match self.interpreter.translate(input) {
            Some(operation) => self.operate(operation),
            None => Ok(Vec::new()),
        }
    }

    /// Performs `operation`, returning the [`Output`]s that it calls for; the last of them
    /// updates the header.
    pub fn operate(&mut self, operation: Operation) -> (result: Result<Vec<Output>, ScopeFromRangeError>)
        requires
            operation matches Operation::CreateDoc(file) ==> layout_terminates(
                bytes_of(file.text@),
                old(self).pane.size.width.0 as int,
            ),
        ensures
            operated(*old(self), *final(self), operation, result),
    {
        let mut outputs: Vec<Output> = Vec::new();
        match operation {
            Operation::Resize { dimensions } => {
                if let Err(error) = self.pane.update_size(dimensions, &mut outputs) {
                    return Err(error);
                }
            },
            Operation::Confirm(action) => {
                outputs.push(Output::Question { request: ShowMessageRequestParams::from(action) });
            },
            Operation::Reset => {
                self.command = String::new();
                if let Err(error) = self.pane.update(&mut outputs) {
                    return Err(error);
                }
            },
            Operation::StartCommand(_) => {
                let start = ":";
                proof {
                    reveal_strlit(":");
                }
                self.command = String::from_str(start);
                outputs.push(Output::Command { command: self.command.clone() });
            },
            Operation::Collect(c) => {
                string_push(&mut self.command, c);
                outputs.push(Output::Command { command: self.command.clone() });
            },
            Operation::Execute => {
                if let Some(path) = strip_open_prefix(self.command.as_str()) {
                    outputs.push(Output::ReadFile { path });
                }
            },
            Operation::Quit => {
                if let Some(output) = self.pane.close_doc() {
                    outputs.push(output);
                }
                outputs.push(Output::Quit);
            },
            Operation::CreateDoc(file) => {
                match self.pane.create_doc(file) {
                    Ok(mut created) => {
                        let ghost before = created@;
                        created.push(Output::UpdateHeader);
                        assert(created@.take(0) =~= before.take(0));
                        assert(created@.take(1) =~= before.take(1));
                        return Ok(created);
                    },
                    Err(error) => {
                        return Err(error);
                    },
                }
            },
            Operation::Scroll(direction) => {
                match self.pane.scroll(direction) {
                    Ok(Some(output)) => outputs.push(output),
                    Ok(None) => {},
                    Err(error) => {
                        return Err(error);
                    },
                }
            },
            Operation::ChangeSelection(movement) => {
                match self.pane.change_selection(&movement) {
                    Ok(Some(output)) => outputs.push(output),
                    Ok(None) => {},
                    Err(error) => {
                        return Err(error);
                    },
                }
            },
            Operation::UpdateSetting(_) | Operation::Alert(_) | Operation::Document(_) => {},
        }
        outputs.push(Output::UpdateHeader);
        Ok(outputs)
    }
}

/// Each operation that succeeds reports, last, the update of the header.
pub proof fn lemma_header_is_last(before: Processor, after: Processor, operation: Operation, outputs: Vec<Output>)
    requires
        operated(before, after, operation, Ok(outputs)),
    ensures
        outputs@.len() >= 1,
        outputs@.last() == Output::UpdateHeader,
{
}

/// If the `i`-th operation of a run that starts a command collects the `i`-th character of
/// `text`, where `states` are the processors of the run and `results` its results.
pub open spec fn collects_char(
    states: Seq<Processor>,
    results: Seq<Result<Vec<Output>, ScopeFromRangeError>>,
    text: Seq<char>,
    i: int,
) -> bool {
    operated(states[i + 1], states[i + 2], Operation::Collect(text[i]), results[i + 1])
}

proof fn lemma_collected_command(
    states: Seq<Processor>,
    results: Seq<Result<Vec<Output>, ScopeFromRangeError>>,
    text: Seq<char>,
    k: int,
)
    requires
        0 <= k <= text.len(),
        states.len() >= text.len() + 2,
        results.len() >= text.len() + 1,
        states[1].command@ == ":"@,
        forall|i: int| 0 <= i < text.len() ==> #[trigger] collects_char(states, results, text, i),
    ensures
        states[k + 1].command@ == ":"@ + text.take(k),
    decreases k,
{
    if k == 0 {
        assert(":"@ + text.take(0) =~= ":"@);
    } else {
        lemma_collected_command(states, results, text, k - 1);
        assert(collects_char(states, results, text, k - 1));
        assert(":"@ + text.take(k) =~= (":"@ + text.take(k - 1)).push(text[k - 1]));
    }
}

/// The number of characters of the command that opens the file at `path`, without its leading
/// colon.
pub open spec fn open_length(path: Seq<char>) -> int {
    ("open "@ + path).len() as int
}

/// Opening a file by command: starting a command, collecting the characters of `open `
/// followed by `path` one at a time, and executing the command reads the file at `path`, and
/// then updates the header.
///
/// `states` are the processors of the run, one before each operation and one after the last,
/// and `results` are the results of the operations.
pub proof fn lemma_open_command_reads_file(
    states: Seq<Processor>,
    results: Seq<Result<Vec<Output>, ScopeFromRangeError>>,
    path: Seq<char>,
)
    requires
        states.len() == open_length(path) + 3,
        results.len() == open_length(path) + 2,
        operated(states[0], states[1], Operation::StartCommand(Command::Open), results[0]),
        forall|i: int|
            0 <= i < open_length(path) ==> #[trigger] collects_char(states, results, "open "@ + path, i),
        operated(
            states[open_length(path) + 1],
            states[open_length(path) + 2],
            Operation::Execute,
            results[open_length(path) + 1],
        ),
    ensures
        results[open_length(path) + 1] matches Ok(outputs) && outputs@.len() == 2 && reads_file(outputs@[0], path)
            && outputs@[1] == Output::UpdateHeader,
{
    let text = "open "@ + path;
    let n = text.len() as int;
    lemma_collected_command(states, results, text, n);
    reveal_strlit(":");
    reveal_strlit("open ");
    reveal_strlit(":open ");
    let command = states[n + 1].command@;
    assert(text.take(n) =~= text);
    assert(command =~= open_prefix() + path);
    assert(open_prefix().is_prefix_of(command)) by {
        assert(command.subrange(0, open_prefix().len() as int) =~= open_prefix());
    }
    assert(command.skip(open_prefix().len() as int) =~= path);
}

} // verus!
