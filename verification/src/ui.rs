//! Implements the computation of what the terminal shows to the user: the rows of a text, the
//! lines of the grid, the lines that follow the cursor, and the settings of the configuration.
pub mod base;

use crate::app::{all_lines, closed_lines, int_pairs, line_bounds, open_line_start, text_lines, CARRIAGE_RETURN, LINE_FEED};
use crate::io::ui::Size;
use crate::lsp::{MessageType, Range, ShowMessageParams, ShowMessageRequestParams};
use vstd::prelude::*;
use vstd::utf8::{
    encode_utf8, is_char_boundary, is_continuation_byte, length_of_first_scalar, pop_first_scalar,
    valid_utf8,
};

verus! {

broadcast use {
    vstd::utf8::encode_utf8_valid_utf8,
    vstd::utf8::is_char_boundary_start_end_of_seq,
    vstd::utf8::is_char_boundary_iff_not_is_continuation_byte,
};

/// The index of the first line feed of `bytes`, or the length of `bytes` where it holds none.
pub open spec fn first_line_feed(bytes: Seq<u8>) -> int
    decreases bytes.len(),
{
    if bytes.len() == 0 || bytes[0] == LINE_FEED {
        0
    } else {
        1 + first_line_feed(bytes.drop_first())
    }
}

/// The length of the first line of `bytes` and the number of bytes that end it: a line feed,
/// with the carriage return before it where there is one; none for the last line.
pub open spec fn line_split(bytes: Seq<u8>) -> (int, int) {
    let feed = first_line_feed(bytes);
    if feed < bytes.len() {
        if feed >= 1 && bytes[feed - 1] == CARRIAGE_RETURN {
            (feed - 1, 2)
        } else {
            (feed, 1)
        }
    } else {
        (bytes.len() as int, 0)
    }
}

/// The length of the first row of `bytes`, when a row holds at most `max_len` bytes, and the
/// number of bytes that end its line where the row reaches the end of its line, else 0.
pub open spec fn row_split(bytes: Seq<u8>, max_len: int) -> (int, int) {
    let (line_len, extra) = line_split(bytes);
    if line_len > max_len {
        (max_len, 0)
    } else {
        (line_len, extra)
    }
}

/// If the first row of `bytes` ends between two characters: a row that is cut from a longer
/// line must not cut a character.
pub open spec fn row_cut_is_boundary(bytes: Seq<u8>, max_len: int) -> bool {
    line_split(bytes).0 > max_len ==> is_char_boundary(bytes, max_len)
}

proof fn lemma_first_line_feed(bytes: Seq<u8>, k: int)
    requires
        0 <= k <= bytes.len(),
        forall|j: int| 0 <= j < k ==> bytes[j] != LINE_FEED,
        k == bytes.len() || bytes[k] == LINE_FEED,
    ensures
        first_line_feed(bytes) == k,
    decreases k,
{
    if k > 0 {
        let rest = bytes.drop_first();
        assert forall|j: int| 0 <= j < k - 1 implies rest[j] != LINE_FEED by {
            assert(rest[j] == bytes[j + 1]);
        }
        if k < bytes.len() {
            assert(rest[k - 1] == bytes[k]);
        }
        lemma_first_line_feed(rest, k - 1);
    }
}

/// In valid UTF-8, the byte after a character of a single byte starts a character.
proof fn lemma_boundary_after_single_byte(bytes: Seq<u8>, i: int)
    requires
        valid_utf8(bytes),
        0 <= i < bytes.len(),
        is_char_boundary(bytes, i),
        bytes[i] < 0x80,
    ensures
        is_char_boundary(bytes, i + 1),
    decreases bytes.len(),
{
    reveal_with_fuel(is_char_boundary, 2);
    let rest = pop_first_scalar(bytes);
    let first = length_of_first_scalar(bytes);
    assert(rest =~= bytes.subrange(first, bytes.len() as int));
    if i == 0 {
        assert(first == 1);
        assert(is_char_boundary(rest, 0));
    } else {
        assert(is_char_boundary(rest, i - first));
        assert(0 <= i - first);
        assert(rest[i - first] == bytes[i]);
        lemma_boundary_after_single_byte(rest, i - first);
    }
}

/// The bytes of `bytes` without their line ends: each line feed is left out, and so is a
/// carriage return just before a line feed.
pub open spec fn without_line_ends(bytes: Seq<u8>) -> Seq<u8>
    decreases bytes.len(),
{
    if bytes.len() == 0 {
        Seq::empty()
    } else if bytes.len() >= 2 && bytes[0] == CARRIAGE_RETURN && bytes[1] == LINE_FEED {
        without_line_ends(bytes.skip(2))
    } else if bytes[0] == LINE_FEED {
        without_line_ends(bytes.skip(1))
    } else {
        seq![bytes[0]] + without_line_ends(bytes.skip(1))
    }
}

/// The line after `line` where a row ends its line (`end_len` is not 0), saturating at the
/// largest `u64`; else `line`.
pub open spec fn next_line(line: int, end_len: int) -> int {
    if end_len != 0 && line < u64::MAX {
        line + 1
    } else {
        line
    }
}

/// The rows, each a line index and the bytes of its text, that [`Rows`] yields for the text
/// `bytes` when a row holds at most `max_len` bytes and the first line is `line`.
pub open spec fn rows_of(bytes: Seq<u8>, max_len: int, line: int) -> Seq<(int, Seq<u8>)>
    decreases bytes.len(),
{
    if bytes.len() == 0 || max_len < 1 {
        Seq::empty()
    } else {
        let (row_len, end_len) = row_split(bytes, max_len);
        proof {
            lemma_row_split_bounds(bytes, max_len);
        }
        seq![(line, bytes.take(row_len))] + rows_of(bytes.skip(row_len + end_len), max_len, next_line(line, end_len))
    }
}

/// The texts of `rows` one after the other.
pub open spec fn joined(rows: Seq<(int, Seq<u8>)>) -> Seq<u8>
    decreases rows.len(),
{
    if rows.len() == 0 {
        Seq::empty()
    } else {
        rows[0].1 + joined(rows.drop_first())
    }
}

/// The first line feed of `bytes` is where [`first_line_feed`] says.
pub proof fn lemma_first_line_feed_bounds(bytes: Seq<u8>)
    ensures
        0 <= first_line_feed(bytes) <= bytes.len(),
        first_line_feed(bytes) < bytes.len() ==> bytes[first_line_feed(bytes)] == LINE_FEED,
        forall|i: int| 0 <= i < first_line_feed(bytes) ==> bytes[i] != LINE_FEED,
    decreases bytes.len(),
{
    if bytes.len() > 0 && bytes[0] != LINE_FEED {
        let rest = bytes.drop_first();
        lemma_first_line_feed_bounds(rest);
        assert forall|i: int| 0 <= i < first_line_feed(bytes) implies bytes[i] != LINE_FEED by {
            if i > 0 {
                assert(bytes[i] == rest[i - 1]);
            }
        }
    }
}

/// A row of a text that is not empty holds at most `max_len` bytes and no line feed, and it
/// moves the text on by at least one byte.
pub proof fn lemma_row_split_bounds(bytes: Seq<u8>, max_len: int)
    requires
        bytes.len() > 0,
        max_len >= 1,
    ensures
        0 <= row_split(bytes, max_len).0 <= max_len,
        1 <= row_split(bytes, max_len).0 + row_split(bytes, max_len).1 <= bytes.len(),
        forall|i: int| 0 <= i < row_split(bytes, max_len).0 ==> bytes[i] != LINE_FEED,
{
    lemma_first_line_feed_bounds(bytes);
}

/// Leaving out the line ends of a text that holds no line feed, and whose last byte does not
/// make a line end with the first byte of `rest`, keeps it whole.
proof fn lemma_without_line_ends_prefix(text: Seq<u8>, rest: Seq<u8>)
    requires
        forall|i: int| 0 <= i < text.len() ==> text[i] != LINE_FEED,
        !(text.len() > 0 && text.last() == CARRIAGE_RETURN && rest.len() > 0 && rest[0] == LINE_FEED),
    ensures
        without_line_ends(text + rest) == text + without_line_ends(rest),
    decreases text.len(),
{
    if text.len() > 0 {
        let all = text + rest;
        let tail = text.drop_first();
        assert(all.skip(1) =~= tail + rest);
        assert(all[0] == text[0]);
        if text.len() >= 2 {
            assert(all[1] == text[1]);
        } else if rest.len() > 0 {
            assert(all[1] == rest[0]);
        }
        lemma_without_line_ends_prefix(tail, rest);
        assert(text + without_line_ends(rest) =~= seq![text[0]] + (tail + without_line_ends(rest)));
    } else {
        assert(text + rest =~= rest);
        assert(text + without_line_ends(rest) =~= without_line_ends(rest));
    }
}

/// The number of line feeds in `bytes`.
pub open spec fn feed_count(bytes: Seq<u8>) -> int
    decreases bytes.len(),
{
    if bytes.len() == 0 {
        0
    } else {
        (if bytes[0] == LINE_FEED {
            1int
        } else {
            0int
        }) + feed_count(bytes.skip(1))
    }
}

/// The number of line ends in `bytes` before its last line: every line feed but a final one.
pub open spec fn line_breaks(bytes: Seq<u8>) -> int {
    feed_count(bytes) - if bytes.len() > 0 && bytes.last() == LINE_FEED {
        1int
    } else {
        0int
    }
}

/// The line `breaks` lines after `line`, saturating at the largest `u64`.
pub open spec fn line_after(line: int, breaks: int) -> int {
    if line + breaks <= u64::MAX {
        line + breaks
    } else {
        u64::MAX as int
    }
}

/// Counting the line feeds of two texts one after the other is adding their counts.
proof fn lemma_feed_count_concat(a: Seq<u8>, b: Seq<u8>)
    ensures
        feed_count(a + b) == feed_count(a) + feed_count(b),
    decreases a.len(),
{
    if a.len() > 0 {
        assert((a + b).skip(1) =~= a.skip(1) + b);
        assert((a + b)[0] == a[0]);
        lemma_feed_count_concat(a.skip(1), b);
    } else {
        assert(a + b =~= b);
    }
}

/// A text holds no line feed exactly where it counts none, and one that ends in a line feed
/// counts at least one.
proof fn lemma_feed_count_bounds(bytes: Seq<u8>)
    ensures
        feed_count(bytes) >= 0,
        (forall|i: int| 0 <= i < bytes.len() ==> bytes[i] != LINE_FEED) ==> feed_count(bytes) == 0,
        bytes.len() > 0 && bytes.last() == LINE_FEED ==> feed_count(bytes) >= 1,
    decreases bytes.len(),
{
    if bytes.len() > 0 {
        let tail = bytes.skip(1);
        lemma_feed_count_bounds(tail);
        if forall|i: int| 0 <= i < bytes.len() ==> bytes[i] != LINE_FEED {
            assert forall|i: int| 0 <= i < tail.len() implies tail[i] != LINE_FEED by {
                assert(tail[i] == bytes[i + 1]);
            }
        }
        if bytes.len() > 1 {
            assert(tail.last() == bytes.last());
        }
    }
}

/// The last row that [`Rows`] yields for `bytes`, from line `line`, is on the line that the
/// line ends of `bytes` before its last line lead to.
pub proof fn lemma_rows_end_on_last_line(bytes: Seq<u8>, max_len: int, line: int)
    requires
        max_len >= 1,
        0 <= line <= u64::MAX,
        bytes.len() > 0,
    ensures
        rows_of(bytes, max_len, line).len() > 0,
        rows_of(bytes, max_len, line).last().0 == line_after(line, line_breaks(bytes)),
    decreases bytes.len(),
{
    let (row_len, end_len) = row_split(bytes, max_len);
    lemma_row_split_bounds(bytes, max_len);
    lemma_first_line_feed_bounds(bytes);
    let rest_bytes = bytes.skip(row_len + end_len);
    let next = next_line(line, end_len);
    let rows = rows_of(bytes, max_len, line);
    let rest = rows_of(rest_bytes, max_len, next);
    let row = bytes.take(row_len);
    let piece = bytes.take(row_len + end_len);
    assert(rows == seq![(line, row)] + rest);
    assert(bytes =~= piece + rest_bytes);
    lemma_feed_count_concat(piece, rest_bytes);
    // The piece holds one line feed, at its end, where it ends the line, and none otherwise.
    assert(piece =~= row + bytes.subrange(row_len, row_len + end_len));
    lemma_feed_count_concat(row, bytes.subrange(row_len, row_len + end_len));
    assert forall|i: int| 0 <= i < row.len() implies row[i] != LINE_FEED by {
        assert(row[i] == bytes[i]);
    }
    lemma_feed_count_bounds(row);
    let end = bytes.subrange(row_len, row_len + end_len);
    let ends = if end_len != 0 {
        1int
    } else {
        0int
    };
    if end_len == 1 {
        assert(end[0] == LINE_FEED);
        assert(end.skip(1) =~= Seq::<u8>::empty());
        assert(feed_count(end.skip(1)) == 0);
        assert(feed_count(end) == 1);
    } else if end_len == 2 {
        assert(end[0] == CARRIAGE_RETURN && end[1] == LINE_FEED);
        assert(end.skip(1).skip(1) =~= Seq::<u8>::empty());
        assert(end.skip(1)[0] == LINE_FEED);
        assert(feed_count(end.skip(1).skip(1)) == 0);
        assert(feed_count(end.skip(1)) == 1);
        assert(feed_count(end) == 1);
    } else {
        assert(end =~= Seq::<u8>::empty());
        assert(feed_count(end) == 0);
    }
    assert(feed_count(piece) == ends);
    assert(feed_count(bytes) == ends + feed_count(rest_bytes));
    if rest_bytes.len() == 0 {
        assert(feed_count(rest_bytes) == 0);
        assert(rows.len() == 1);
        assert(rows.last().0 == line);
        if end_len == 0 {
            assert(line_split(bytes).0 <= max_len);
            assert(row_len == bytes.len());
            assert(bytes.last() != LINE_FEED) by {
                assert(bytes.last() == bytes[bytes.len() - 1]);
                assert(bytes[row_len - 1] == row[row_len - 1]);
            }
        } else {
            assert(bytes.last() == piece.last());
            assert(piece.last() == end.last());
            assert(bytes.last() == LINE_FEED);
        }
        assert(line_breaks(bytes) == 0);
    } else {
        lemma_rows_end_on_last_line(rest_bytes, max_len, next);
        assert(rows.last() == rest.last());
        assert(bytes.last() == rest_bytes.last());
        lemma_feed_count_bounds(rest_bytes);
        assert(line_breaks(bytes) == ends + line_breaks(rest_bytes));
        assert(line_breaks(rest_bytes) >= 0);
    }
}

/// The rows that [`Rows`] yields make up the text without its line ends, in order: each
/// holds at most `max_len` bytes and no line feed, the first is on `line`, and each is on the
/// line of the row before it or on the next line.
pub proof fn lemma_rows_make_up_text(bytes: Seq<u8>, max_len: int, line: int)
    requires
        max_len >= 1,
    ensures
        joined(rows_of(bytes, max_len, line)) == without_line_ends(bytes),
        forall|i: int|
            0 <= i < rows_of(bytes, max_len, line).len() ==> {
                let row = #[trigger] rows_of(bytes, max_len, line)[i];
                &&& row.1.len() <= max_len
                &&& forall|j: int| 0 <= j < row.1.len() ==> row.1[j] != LINE_FEED
            },
        rows_of(bytes, max_len, line).len() > 0 ==> rows_of(bytes, max_len, line)[0].0 == line,
        forall|i: int|
            0 <= i < rows_of(bytes, max_len, line).len() - 1 ==> {
                let next = #[trigger] rows_of(bytes, max_len, line)[i + 1].0;
                next == rows_of(bytes, max_len, line)[i].0 || next == rows_of(bytes, max_len, line)[i].0 + 1
            },
    decreases bytes.len(),
{
    if bytes.len() > 0 {
        let (row_len, end_len) = row_split(bytes, max_len);
        lemma_row_split_bounds(bytes, max_len);
        lemma_first_line_feed_bounds(bytes);
        let rest_bytes = bytes.skip(row_len + end_len);
        let next = next_line(line, end_len);
        lemma_rows_make_up_text(rest_bytes, max_len, next);
        let rows = rows_of(bytes, max_len, line);
        let rest = rows_of(rest_bytes, max_len, next);
        let row = bytes.take(row_len);
        assert(rows == seq![(line, row)] + rest);
        assert(rows.drop_first() =~= rest);
        assert forall|i: int| 1 <= i < rows.len() implies #[trigger] rows[i] == rest[i - 1] by {}
        assert forall|i: int| 0 <= i < rows.len() - 1 implies {
            let n = #[trigger] rows[i + 1].0;
            n == rows[i].0 || n == rows[i].0 + 1
        } by {
            assert(rows[i + 1] == rest[i]);
            if i > 0 {
                assert(rows[i] == rest[i - 1]);
            }
        }
        // The bytes of the text are the row, its line end and the rest.
        let feed = first_line_feed(bytes);
        assert(bytes =~= row + bytes.skip(row_len));
        lemma_without_line_ends_prefix(row, bytes.skip(row_len));
        let after = bytes.skip(row_len);
        if end_len == 1 {
            assert(after[0] == LINE_FEED);
            assert(after.skip(1) =~= rest_bytes);
        } else if end_len == 2 {
            assert(after[0] == CARRIAGE_RETURN && after[1] == LINE_FEED);
            assert(after.skip(2) =~= rest_bytes);
        } else {
            assert(after =~= rest_bytes);
        }
    }
}

/// Represents a row in the user interface: a text and the index of the line it belongs to.
#[derive(Clone, Copy, Debug)]
pub struct Row<'a> {
    /// The line of the row.
    line: u64,
    /// The text of the row.
    text: &'a str,
}

impl<'a> View for Row<'a> {
    /// The line and the text.
    type V = (u64, Seq<char>);

    closed spec fn view(&self) -> (u64, Seq<char>) {
        (self.line, self.text@)
    }
}

impl<'a> Row<'a> {
    /// Creates the row of `text` in `line`.
    pub fn new(line: u64, text: &'a str) -> (result: Self)
        ensures
            result@ == (line, text@),
    {
        Row { line, text }
    }

    /// Returns the line of `self`.
    pub fn line(&self) -> (result: u64)
        ensures
            result == self@.0,
    {
        self.line
    }

    /// Returns the text of `self`.
    pub fn text(&self) -> (result: &'a str)
        ensures
            result@ == self@.1,
    {
        self.text
    }
}

/// An iterator over the rows of a text.
#[derive(Clone, Debug)]
pub struct Rows<'a> {
    /// The text that is left.
    s: &'a str,
    /// The maximum number of bytes of a row.
    max_len: usize,
    /// The index of the current line of the iterator.
    current_line: u64,
}

impl<'a> View for Rows<'a> {
    /// The bytes of the text that is left, the maximum length of a row and the current line.
    type V = (Seq<u8>, usize, u64);

    closed spec fn view(&self) -> (Seq<u8>, usize, u64) {
        (encode_utf8(self.s@), self.max_len, self.current_line)
    }
}

impl<'a> Rows<'a> {
    /// The rows that are left to yield, each a line index and the bytes of its text.
    pub open spec fn remaining_rows(self) -> Seq<(int, Seq<u8>)> {
        rows_of(self@.0, self@.1 as int, self@.2 as int)
    }

    /// Creates a new iterator over the rows of `s`, each holding at most `max_len` bytes, or
    /// the whole line where there is no `max_len`.
    pub fn new(s: &'a str, max_len: Option<usize>) -> (result: Self)
        ensures
            result@ == (encode_utf8(s@), match max_len {
                Some(len) => len,
                None => usize::MAX,
            }, 0u64),
            result.remaining_rows() == rows_of(encode_utf8(s@), result@.1 as int, 0),
    {
        Rows {
            s,
            max_len: match max_len {
                Some(len) => len,
                None => usize::MAX,
            },
            current_line: 0,
        }
    }

    /// Returns the next row, or `None` where the text is used up.
    ///
    /// A row ends at the end of its line, which it does not hold, or after `max_len` bytes; a
    /// row that reaches the end of its line moves on to the next line.
    pub fn next(&mut self) -> (result: Option<Row<'a>>)
        requires
            row_cut_is_boundary(old(self)@.0, old(self)@.1 as int),
        ensures
            old(self)@.0.len() == 0 ==> result is None && final(self)@ == old(self)@,
            old(self)@.0.len() > 0 ==> {
                let (row_len, end_len) = row_split(old(self)@.0, old(self)@.1 as int);
                &&& result matches Some(row) && row@.0 == old(self)@.2 && encode_utf8(row@.1)
                    == old(self)@.0.take(row_len)
                &&& final(self)@.0 == old(self)@.0.skip(row_len + end_len)
                &&& final(self)@.1 == old(self)@.1
                &&& final(self)@.2 == if end_len != 0 && old(self)@.2 < u64::MAX {
                    (old(self)@.2 + 1) as u64
                } else {
                    old(self)@.2
                }
            },
            old(self)@.1 >= 1 ==> (result is None <==> old(self).remaining_rows().len() == 0),
            old(self)@.1 >= 1 ==> (result matches Some(row) ==> {
                &&& old(self).remaining_rows()[0] == (row@.0 as int, encode_utf8(row@.1))
                &&& final(self).remaining_rows() == old(self).remaining_rows().drop_first()
            }),
    {
        let bytes = self.s.as_bytes();
        let ghost b = encode_utf8(self.s@);
        let len = bytes.len();
        assert(bytes@ == b);
        if len == 0 {
            return None;
        }
        let mut feed: usize = 0;
        while feed < len && bytes[feed] != LINE_FEED
            invariant
                len == bytes@.len(),
                feed <= len,
                forall|j: int| 0 <= j < feed ==> bytes@[j] != LINE_FEED,
            decreases len - feed,
        {
            feed = feed + 1;
        }
        proof {
            lemma_first_line_feed(b, feed as int);
        }
        let (line_len, extra_len) = if feed < len {
            if feed >= 1 && bytes[feed - 1] == CARRIAGE_RETURN {
                (feed - 1, 2)
            } else {
                (feed, 1)
            }
        } else {
            (len, 0)
        };
        let (row_len, rm_len) = if line_len > self.max_len {
            (self.max_len, 0)
        } else {
            (line_len, extra_len)
        };
        proof {
            assert(valid_utf8(b));
            if rm_len != 0 {
                assert(is_char_boundary(b, feed as int)) by {
                    assert(!is_continuation_byte(b[feed as int]));
                }
                lemma_boundary_after_single_byte(b, feed as int);
                if rm_len == 2 {
                    assert(!is_continuation_byte(b[line_len as int]));
                }
            } else if row_len == line_len && line_len < len {
                assert(!is_continuation_byte(b[line_len as int]));
            }
        }
        let (row_text, _) = self.s.split_at(row_len);
        let (_, new_s) = self.s.split_at(row_len + rm_len);
        let row = Row { text: row_text, line: self.current_line };
        if rm_len != 0 {
            self.current_line = self.current_line.saturating_add(1);
        }
        self.s = new_s;
        proof {
            assert(b.take(row_len as int) =~= b.subrange(0, row_len as int));
            assert(b.skip(row_len + rm_len) =~= b.subrange((row_len + rm_len) as int, b.len() as int));
            if old(self)@.1 >= 1 {
                let rows = old(self).remaining_rows();
                let rest = rows_of(
                    b.skip(row_len + rm_len),
                    old(self)@.1 as int,
                    next_line(old(self)@.2 as int, rm_len as int),
                );
                assert(rows == seq![(old(self)@.2 as int, b.take(row_len as int))] + rest);
                assert(rows.drop_first() =~= rest);
            }
        }
        Some(row)
    }
}

/// The indices of the first `n` elements of `lines` that are at least `top`, in order.
pub open spec fn indices_from(lines: Seq<u64>, top: int, n: int) -> Seq<int>
    decreases n,
{
    if n <= 0 {
        Seq::empty()
    } else {
        let before = indices_from(lines, top, n - 1);
        if lines[n - 1] >= top {
            before.push(n - 1)
        } else {
            before
        }
    }
}

/// The elements of `lines` that are at least `top`, in order.
pub open spec fn lines_from(lines: Seq<u64>, top: int) -> Seq<u64> {
    indices_from(lines, top, lines.len() as int).map_values(|j: int| lines[j])
}

/// `lines` without its leading elements that are `value`.
pub open spec fn skip_run(lines: Seq<u64>, value: u64) -> Seq<u64>
    decreases lines.len(),
{
    if lines.len() > 0 && lines[0] == value {
        skip_run(lines.drop_first(), value)
    } else {
        lines
    }
}

/// The visible lines `visible` without the rows of their first line.
pub open spec fn drop_line(visible: Seq<u64>) -> Seq<u64> {
    skip_run(visible.drop_first(), visible[0])
}

/// The line where the cursor ends, where it ends at column `end_character` of line
/// `end_line`: a cursor that ends at the start of a line ends on the line before.
pub open spec fn cursor_end_line(end_line: u64, end_character: u64) -> int {
    if end_character == 0 {
        if end_line >= 1 { end_line - 1 } else { 0 }
    } else {
        end_line as int
    }
}

/// The first line that is shown, scrolled down from `top` one line at a time while the line
/// of the row just below the `height` rows of the grid is at most `end`, where `visible` are the
/// lines of the rows that are shown from `top`.
pub open spec fn settled_top(visible: Seq<u64>, top: int, height: int, end: int) -> int
    decreases visible.len(),
{
    if 0 <= height < visible.len() && visible[height] <= end {
        proof {
            lemma_drop_line_shorter(visible);
        }
        settled_top(drop_line(visible), if top < u64::MAX { top + 1 } else { top }, height, end)
    } else {
        top
    }
}

proof fn lemma_indices_from_bounds(lines: Seq<u64>, top: int, n: int)
    requires
        0 <= n <= lines.len(),
    ensures
        indices_from(lines, top, n).len() <= n,
        forall|k: int|
            0 <= k < indices_from(lines, top, n).len() ==> {
                let j = #[trigger] indices_from(lines, top, n)[k];
                0 <= j < n && lines[j] >= top
            },
    decreases n,
{
    if n > 0 {
        lemma_indices_from_bounds(lines, top, n - 1);
    }
}

/// Dropping the rows of the first visible line leaves fewer rows.
pub proof fn lemma_drop_line_shorter(visible: Seq<u64>)
    requires
        visible.len() > 0,
    ensures
        drop_line(visible).len() < visible.len(),
{
    lemma_skip_run_shorter(visible.drop_first(), visible[0]);
}

/// Skipping a run of equal lines never leaves more lines.
pub proof fn lemma_skip_run_shorter(lines: Seq<u64>, value: u64)
    ensures
        skip_run(lines, value).len() <= lines.len(),
    decreases lines.len(),
{
    if lines.len() > 0 && lines[0] == value {
        lemma_skip_run_shorter(lines.drop_first(), value);
    }
}

/// Decides which rows the terminal shows after the text changed, so that the cursor stays in
/// view: returns the first line that is shown, and for each row of the grid, from the top, the
/// index in `lines` of the row that it shows and if that row is on the line where the cursor
/// ends.
///
/// `lines` are the lines of the rows of the text, the cursor spans from line `start_line` to
/// column `end_character` of line `end_line`, `top_line` is the first line that was shown,
/// the grid has `grid_height` rows and the terminal `screen_rows`, one of which holds the
/// header.
pub fn follow_cursor(
    lines: &Vec<u64>,
    start_line: u64,
    end_line: u64,
    end_character: u64,
    top_line: u64,
    grid_height: u16,
    screen_rows: u16,
) -> (result: (u64, Vec<(usize, bool)>))
    ensures
        ({
            let first = if start_line < top_line { start_line as int } else { top_line as int };
            let end = cursor_end_line(end_line, end_character);
            let top = settled_top(lines_from(lines@, first), first, grid_height as int, end);
            let shown = indices_from(lines@, top, lines@.len() as int);
            let limit = if screen_rows >= 1 { screen_rows - 1 } else { 0 };
            &&& result.0 == top
            &&& result.1@.len() == if shown.len() < limit { shown.len() as int } else { limit as int }
            &&& forall|k: int|
                0 <= k < result.1@.len() ==> #[trigger] result.1@[k] == (shown[k] as usize, lines@[shown[k]] == end)
        }),
{
    let n = lines.len();
    let mut top: u64 = if start_line < top_line { start_line } else { top_line };
    let end: u64 = if end_character == 0 { end_line.saturating_sub(1) } else { end_line };
    let ghost first = top as int;
    let mut visible: Vec<u64> = Vec::new();
    let mut j: usize = 0;
    while j < n
        invariant
            n == lines@.len(),
            j <= n,
            visible@ == indices_from(lines@, top as int, j as int).map_values(|i: int| lines@[i]),
        decreases n - j,
    {
        if lines[j] >= top {
            visible.push(lines[j]);
        }
        proof {
            let before = indices_from(lines@, top as int, j as int);
            if lines@[j as int] >= top {
                assert(before.push(j as int).map_values(|i: int| lines@[i]) =~= before.map_values(
                    |i: int| lines@[i],
                ).push(lines@[j as int]));
            }
        }
        j = j + 1;
    }
    let height = grid_height as usize;
    let mut offset: usize = 0;
    assert(visible@.skip(0) =~= visible@);
    while offset < visible.len() && height < visible.len() - offset && visible[offset + height] <= end
        invariant
            offset <= visible@.len(),
            settled_top(visible@.skip(offset as int), top as int, height as int, end as int) == settled_top(
                lines_from(lines@, first),
                first,
                grid_height as int,
                cursor_end_line(end_line, end_character),
            ),
            height == grid_height,
        decreases visible@.len() - offset,
    {
        let ghost rest = visible@.skip(offset as int);
        let ghost start = offset;
        let line = visible[offset];
        offset = offset + 1;
        assert(visible@.skip(offset as int) =~= rest.drop_first());
        while offset < visible.len() && visible[offset] == line
            invariant
                offset <= visible@.len(),
                skip_run(visible@.skip(offset as int), line) == drop_line(rest),
                rest.len() > 0,
                line == rest[0],
                start < offset,
            decreases visible@.len() - offset,
        {
            let ghost current = visible@.skip(offset as int);
            offset = offset + 1;
            assert(visible@.skip(offset as int) =~= current.drop_first());
        }
        top = top.saturating_add(1);
    }
    let limit = screen_rows.saturating_sub(1) as usize;
    let mut shown: Vec<(usize, bool)> = Vec::new();
    let mut j: usize = 0;
    proof {
        lemma_indices_from_bounds(lines@, top as int, n as int);
    }
    while j < n && shown.len() < limit
        invariant
            n == lines@.len(),
            j <= n,
            shown@.len() <= limit,
            ({
                let before = indices_from(lines@, top as int, j as int);
                &&& shown@.len() == before.len()
                &&& forall|k: int|
                    0 <= k < shown@.len() ==> #[trigger] shown@[k] == (before[k] as usize, lines@[before[k]] == end)
            }),
        decreases n - j,
    {
        proof {
            lemma_indices_from_bounds(lines@, top as int, j as int);
        }
        if lines[j] >= top {
            shown.push((j, lines[j] == end));
        }
        j = j + 1;
    }
    proof {
        let all = indices_from(lines@, top as int, n as int);
        let before = indices_from(lines@, top as int, j as int);
        lemma_indices_prefix(lines@, top as int, j as int, n as int);
        if j < n {
            assert(shown@.len() == limit);
        }
    }
    (top, shown)
}

/// The indices of a prefix of `lines` start the indices of a longer prefix.
proof fn lemma_indices_prefix(lines: Seq<u64>, top: int, j: int, n: int)
    requires
        0 <= j <= n <= lines.len(),
    ensures
        indices_from(lines, top, j).len() <= indices_from(lines, top, n).len(),
        forall|k: int|
            0 <= k < indices_from(lines, top, j).len() ==> #[trigger] indices_from(lines, top, j)[k] == indices_from(
                lines,
                top,
                n,
            )[k],
    decreases n - j,
{
    if j < n {
        lemma_indices_prefix(lines, top, j, n - 1);
    }
}

/// The text of the line at `row` of `lines`, or the empty text where there is none.
pub open spec fn line_or_empty(lines: Seq<String>, row: int) -> Seq<char> {
    if 0 <= row < lines.len() {
        lines[row]@
    } else {
        Seq::empty()
    }
}

/// `value` increased by `count`, saturating at the largest `u16`.
pub open spec fn sat_u16(value: int) -> int {
    if value > u16::MAX {
        u16::MAX as int
    } else {
        value
    }
}

/// Signifies the primary output of the terminal: the lines it shows, and the boxes over them.
#[derive(Debug)]
pub struct Grid {
    /// The lines that represent the primary output of the grid.
    pub lines: Vec<String>,
    /// The number of lines currently covered by an alert.
    pub alert_line_count: u16,
    /// If the input box is currently shown.
    pub is_showing_input: bool,
    /// The number of rows in the grid.
    pub height: u16,
}

impl Grid {
    /// Creates an empty grid.
    pub fn new() -> (result: Self)
        ensures
            result.lines@.len() == 0,
            result.alert_line_count == 0,
            !result.is_showing_input,
            result.height == 0,
    {
        Grid { lines: Vec::new(), alert_line_count: 0, is_showing_input: false, height: 0 }
    }

    /// Resizes the grid to have `height` rows, adding an empty line for each row that it
    /// gains.
    pub fn resize(&mut self, height: u16)
        ensures
            final(self).height == height,
            final(self).alert_line_count == old(self).alert_line_count,
            final(self).is_showing_input == old(self).is_showing_input,
            final(self).lines@.len() == old(self).lines@.len() + if height > old(self).height {
                height - old(self).height
            } else {
                0
            },
            forall|k: int| 0 <= k < old(self).lines@.len() ==> #[trigger] final(self).lines@[k] == old(self).lines@[k],
            forall|k: int|
                old(self).lines@.len() <= k < final(self).lines@.len() ==> (#[trigger] final(self).lines@[k])@
                    == Seq::<char>::empty(),
    {
        let ghost before = self.lines@;
        let mut row = self.height;
        while row < height
            invariant
                old(self).height <= row,
                row <= height || row == old(self).height,
                self.lines@.len() == before.len() + (row - old(self).height),
                before == old(self).lines@,
                forall|k: int| 0 <= k < before.len() ==> #[trigger] self.lines@[k] == before[k],
                forall|k: int| before.len() <= k < self.lines@.len() ==> (#[trigger] self.lines@[k])@ == Seq::<
                    char,
                >::empty(),
                self.alert_line_count == old(self).alert_line_count,
                self.is_showing_input == old(self).is_showing_input,
            decreases height - row,
        {
            self.lines.push(String::new());
            row = row + 1;
        }
        self.height = height;
    }

    /// Replaces the line at `index` with `new_line`, where there is one, and returns the row of
    /// the grid where `new_line` is printed.
    pub fn replace_line(&mut self, index: usize, new_line: &str) -> (result: u16)
        ensures
            result == sat_u16(index as int),
            final(self).height == old(self).height,
            final(self).alert_line_count == old(self).alert_line_count,
            final(self).is_showing_input == old(self).is_showing_input,
            final(self).lines@.len() == old(self).lines@.len(),
            forall|k: int|
                0 <= k < old(self).lines@.len() && k != index ==> #[trigger] final(self).lines@[k] == old(
                    self,
                ).lines@[k],
            index < old(self).lines@.len() ==> final(self).lines@[index as int]@ == new_line@,
    {
        if index < self.lines.len() {
            self.lines.set(index, new_line.to_owned());
        }
        if index > u16::MAX as usize {
            u16::MAX
        } else {
            index as u16
        }
    }

    /// Adds an alert of `message` over the grid: returns, for each line of the message, the row
    /// where it is printed and the start and end of its bytes in `message`.
    pub fn add_alert(&mut self, message: &str) -> (result: Vec<(u16, usize, usize)>)
        ensures
            ({
                let lines = text_lines(encode_utf8(message@));
                &&& result@.len() == lines.len()
                &&& forall|k: int|
                    0 <= k < lines.len() ==> #[trigger] result@[k] == (
                        sat_u16(old(self).alert_line_count + k) as u16,
                        lines[k].0 as usize,
                        lines[k].1 as usize,
                    )
                &&& final(self).alert_line_count == sat_u16(old(self).alert_line_count + lines.len())
            }),
            final(self).lines == old(self).lines,
            final(self).height == old(self).height,
            final(self).is_showing_input == old(self).is_showing_input,
    {
        let bytes = message.as_bytes();
        let bounds = line_bounds(bytes);
        let ghost all = all_lines(bytes@);
        proof {
            crate::app::lemma_all_lines_bounds(bytes@);
        }
        let mut count = bounds.len();
        let last = bounds[count - 1];
        proof {
            assert(all == closed_lines(bytes@).push((open_line_start(bytes@), bytes@.len() as int)));
            assert(int_pairs(bounds@)[count - 1] == (last.0 as int, last.1 as int));
            assert(all[all.len() - 1] == (open_line_start(bytes@), bytes@.len() as int));
        }
        if last.0 >= last.1 {
            count = count - 1;
        }
        proof {
            assert(bytes@ == encode_utf8(message@));
            if open_line_start(bytes@) < bytes@.len() {
                assert(text_lines(bytes@) == all);
            } else {
                assert(all == closed_lines(bytes@).push((open_line_start(bytes@), bytes@.len() as int)));
                assert(text_lines(bytes@) =~= all.drop_last());
            }
        }
        let mut rows: Vec<(u16, usize, usize)> = Vec::new();
        let mut k: usize = 0;
        while k < count
            invariant
                count <= bounds@.len(),
                int_pairs(bounds@) == all,
                count == text_lines(bytes@).len(),
                forall|i: int| 0 <= i < count ==> #[trigger] text_lines(bytes@)[i] == all[i],
                k <= count,
                rows@.len() == k,
                self.alert_line_count == sat_u16(old(self).alert_line_count + k),
                forall|i: int|
                    0 <= i < k ==> #[trigger] rows@[i] == (
                        sat_u16(old(self).alert_line_count + i) as u16,
                        all[i].0 as usize,
                        all[i].1 as usize,
                    ),
                self.lines == old(self).lines,
                self.height == old(self).height,
                self.is_showing_input == old(self).is_showing_input,
            decreases count - k,
        {
            let (start, end) = bounds[k];
            assert(int_pairs(bounds@)[k as int] == (start as int, end as int));
            rows.push((self.alert_line_count, start, end));
            self.alert_line_count = self.alert_line_count.saturating_add(1);
            k = k + 1;
        }
        rows
    }

    /// Adds an input box beginning with `prompt`: returns the row where it is printed and its
    /// text.
    pub fn add_input(&mut self, prompt: String) -> (result: (u16, String))
        ensures
            result.0 == if old(self).height >= 1 { old(self).height - 1 } else { 0 },
            result.1@ == prompt@ + ": "@,
            final(self).is_showing_input,
            final(self).lines == old(self).lines,
            final(self).height == old(self).height,
            final(self).alert_line_count == old(self).alert_line_count,
    {
        let mut prompt = prompt;
        prompt.append(": ");
        self.is_showing_input = true;
        (self.height.saturating_sub(1), prompt)
    }

    /// Removes all temporary boxes: returns, for each row they covered, the row and the text of
    /// the grid that is printed there again.
    pub fn reset(&mut self) -> (result: Vec<(u16, String)>)
        ensures
            ({
                let alerts = old(self).alert_line_count as int;
                let input = if old(self).is_showing_input { 1int } else { 0int };
                let input_row = if old(self).height >= 1 { old(self).height - 1 } else { 0 };
                &&& result@.len() == alerts + input
                &&& forall|k: int|
                    0 <= k < alerts ==> #[trigger] result@[k].0 == k && result@[k].1@ == line_or_empty(
                        old(self).lines@,
                        k,
                    )
                &&& old(self).is_showing_input ==> result@[alerts].0 == input_row && result@[alerts].1@
                    == line_or_empty(old(self).lines@, input_row)
            }),
            final(self).alert_line_count == 0,
            !final(self).is_showing_input,
            final(self).lines == old(self).lines,
            final(self).height == old(self).height,
    {
        let mut reprints: Vec<(u16, String)> = Vec::new();
        let mut row: u16 = 0;
        while row < self.alert_line_count
            invariant
                row <= self.alert_line_count,
                self.alert_line_count == old(self).alert_line_count,
                self.is_showing_input == old(self).is_showing_input,
                self.lines == old(self).lines,
                self.height == old(self).height,
                reprints@.len() == row,
                forall|k: int|
                    0 <= k < row ==> #[trigger] reprints@[k].0 == k && reprints@[k].1@ == line_or_empty(
                        old(self).lines@,
                        k,
                    ),
            decreases self.alert_line_count - row,
        {
            reprints.push((row, self.line_text(row as usize)));
            row = row + 1;
        }
        self.alert_line_count = 0;
        if self.is_showing_input {
            let input_row = self.height.saturating_sub(1);
            reprints.push((input_row, self.line_text(input_row as usize)));
            self.is_showing_input = false;
        }
        reprints
    }

    /// Returns the text of the line at `row`, or the empty text where there is none.
    fn line_text(&self, row: usize) -> (result: String)
        ensures
            result@ == line_or_empty(self.lines@, row as int),
    {
        if row < self.lines.len() {
            self.lines[row].clone()
        } else {
            String::new()
        }
    }
}

/// The level at which the records of a library are logged.
#[derive(Clone, Copy, Debug, PartialEq, Eq, Structural)]
pub enum LogLevel {
    /// Nothing is logged.
    Off,
    /// Only errors are logged.
    Errors,
    /// Warnings and errors are logged.
    Warn,
    /// Information, warnings and errors are logged.
    Info,
    /// Everything but traces is logged.
    Debug,
    /// Everything is logged.
    Trace,
}

/// Signifies a setting of the user interface.
#[derive(Clone, Debug, PartialEq)]
pub enum Setting {
    /// The file path of the document.
    File(String),
    /// If the document shall wrap long text.
    Wrap(bool),
    /// The size of the terminal.
    Size(Size),
    /// The level at which starship records shall be logged.
    StarshipLog(LogLevel),
}

/// Signifies any configurable parameter of the application.
#[derive(Clone, Copy, Debug, PartialEq, Eq, Structural)]
pub struct Config {
    /// If the application wraps long lines.
    pub wrap: bool,
    /// The level at which the starship library is logged.
    pub starship_log: LogLevel,
}

impl Default for Config {
    fn default() -> (result: Self)
        ensures
            result == (Config { wrap: false, starship_log: LogLevel::Off }),
    {
        Config { wrap: false, starship_log: LogLevel::Off }
    }
}

/// The settings that change when the configuration `old_config` becomes `new_config`.
pub open spec fn changed_settings(old_config: Config, new_config: Config) -> Seq<Setting> {
    let wrap: Seq<Setting> = if old_config.wrap != new_config.wrap {
        seq![Setting::Wrap(new_config.wrap)]
    } else {
        Seq::empty()
    };
    let starship: Seq<Setting> = if old_config.starship_log != new_config.starship_log {
        seq![Setting::StarshipLog(new_config.starship_log)]
    } else {
        Seq::empty()
    };
    wrap + starship
}

impl Config {
    /// Updates `self` to match `config`, which was read from the config file, returning the
    /// settings that changed.
    pub fn update(&mut self, config: Config) -> (result: Vec<Setting>)
        ensures
            *final(self) == config,
            result@ == changed_settings(*old(self), config),
    {
        let mut settings = Vec::new();
        if self.wrap != config.wrap {
            self.wrap = config.wrap;
            settings.push(Setting::Wrap(self.wrap));
        }
        if self.starship_log != config.starship_log {
            self.starship_log = config.starship_log;
            settings.push(Setting::StarshipLog(self.starship_log));
        }
        assert(settings@ =~= changed_settings(*old(self), config));
        settings
    }
}

/// Updating a configuration to the same configuration again changes no setting.
pub proof fn lemma_update_is_idempotent(config: Config)
    ensures
        changed_settings(config, config) == Seq::<Setting>::empty(),
{
    assert(changed_settings(config, config) =~= Seq::<Setting>::empty());
}

/// Signifies a potential modification to the output of the user interface.
#[derive(Clone, Debug)]
pub enum Change<'a> {
    /// Text of the current document or how it was displayed was modified.
    Text {
        /// The rows of the current document.
        rows: Vec<Row<'a>>,
        /// The cursor.
        cursor: Range,
    },
    /// Message will be displayed to the user.
    Message(ShowMessageParams),
    /// Message will ask question to user and get a response.
    Question(ShowMessageRequestParams),
    /// Message will be cleared.
    Reset,
    /// Open an input box with the given prompt.
    Input(String),
    /// Change the size of the terminal.
    Size(Size),
    /// Add a char to the input box.
    InputChar(char),
}

/// An update to the user interface: a change and the new header.
#[derive(Clone, Debug)]
pub struct Update<'a> {
    /// The header of the user interface.
    pub header: String,
    /// The change of the update.
    pub change: Change<'a>,
}

impl<'a> Update<'a> {
    /// Creates a new [`Update`].
    pub fn new(header: String, change: Change<'a>) -> (result: Self)
        ensures
            result.header == header,
            result.change == change,
    {
        Self { header, change }
    }
}

/// A command that draws on the terminal.
#[derive(Clone, Debug, PartialEq)]
pub enum Draw {
    /// Prints `text` over the row `row` of the grid, highlighted where it is on the line of the
    /// cursor.
    Line {
        /// The row of the grid.
        row: u16,
        /// The text.
        text: String,
        /// If the text is on the line of the cursor.
        highlighted: bool,
    },
    /// Clears the terminal below the last row that was printed.
    ClearBelow,
    /// Prints the part from `start` to `end` of the bytes of the alert message over the row
    /// `row`, in the color of `typ`.
    Alert {
        /// The row of the grid.
        row: u16,
        /// The start of the bytes of the part.
        start: usize,
        /// The end of the bytes of the part.
        end: usize,
        /// The kind of the message.
        typ: MessageType,
    },
    /// Prints the character where the cursor of the terminal is.
    Char(char),
    /// Prints the header at the top of the terminal.
    Header(String),
}

/// The user interface provided by a terminal, as the application sees it: what it shows, not
/// how it writes it.
#[derive(Debug)]
pub struct Screen {
    /// The current configuration of the application.
    pub config: Config,
    /// The size of the terminal.
    pub size: Size,
    /// The index of the first line of the document that may be displayed.
    pub top_line: u64,
    /// The grid of the terminal.
    pub grid: Grid,
}

/// If `draw` prints `text` over the row `row` of the grid, highlighted as `highlighted` says.
pub open spec fn draws_line(draw: Draw, row: int, text: Seq<char>, highlighted: bool) -> bool {
    draw matches Draw::Line { row: r, text: t, highlighted: h } && r == row && t@ == text && h == highlighted
}

/// If `draws` print the alert of `message` with the kind `typ`, one row per line, from the
/// row `first`.
pub open spec fn draws_alert(draws: Seq<Draw>, message: Seq<char>, typ: MessageType, first: int) -> bool {
    let lines = text_lines(encode_utf8(message));
    &&& draws.len() == lines.len()
    &&& forall|k: int|
        0 <= k < lines.len() ==> #[trigger] draws[k] == Draw::Alert {
            row: sat_u16(first + k) as u16,
            start: lines[k].0 as usize,
            end: lines[k].1 as usize,
            typ,
        }
}

impl Screen {
    /// Creates the screen of a terminal of `size`, showing nothing yet.
    pub fn new(size: Size) -> (result: Self)
        ensures
            result.size == size,
            result.top_line == 0,
            result.config == (Config { wrap: false, starship_log: LogLevel::Off }),
            result.grid.lines@.len() == 0,
            result.grid.height == 0,
            result.grid.alert_line_count == 0,
            !result.grid.is_showing_input,
    {
        Screen { config: Config::default(), size, top_line: 0, grid: Grid::new() }
    }

    /// Applies `update`, returning what the terminal draws for it; the header comes last.
    pub fn apply(&mut self, update: Update) -> (result: Vec<Draw>)
        ensures
            result@.len() >= 1,
            result@.last() == Draw::Header(update.header),
            final(self).config == old(self).config,
            match update.change {
                Change::Text { rows, cursor } => {
                    let lines = rows@.map_values(|row: Row| row@.0);
                    let first = if (cursor.start.line as u64) < old(self).top_line {
                        cursor.start.line as int
                    } else {
                        old(self).top_line as int
                    };
                    let end = cursor_end_line(cursor.end.line as u64, cursor.end.character as u64);
                    let top = settled_top(lines_from(lines, first), first, old(self).grid.height as int, end);
                    let shown = indices_from(lines, top, lines.len() as int);
                    let limit = if old(self).size.rows >= 1 { old(self).size.rows - 1 } else { 0 };
                    let count = if shown.len() < limit { shown.len() as int } else { limit as int };
                    &&& final(self).top_line == top
                    &&& final(self).size == old(self).size
                    &&& result@.len() == count + 2
                    &&& forall|k: int|
                        0 <= k < count ==> draws_line(#[trigger] result@[k], sat_u16(k), rows@[shown[k]]@.1, lines[shown[k]] == end)
                    &&& result@[count] == Draw::ClearBelow
                },
                Change::Message(alert) => {
                    &&& draws_alert(result@.drop_last(), alert.message@, alert.typ, old(self).grid.alert_line_count as int)
                    &&& final(self).grid.alert_line_count == sat_u16(
                        old(self).grid.alert_line_count + text_lines(encode_utf8(alert.message@)).len(),
                    )
                    &&& final(self).top_line == old(self).top_line
                    &&& final(self).size == old(self).size
                },
                Change::Question(question) => {
                    &&& draws_alert(
                        result@.drop_last(),
                        question.message@,
                        question.typ,
                        old(self).grid.alert_line_count as int,
                    )
                    &&& final(self).grid.alert_line_count == sat_u16(
                        old(self).grid.alert_line_count + text_lines(encode_utf8(question.message@)).len(),
                    )
                    &&& final(self).top_line == old(self).top_line
                    &&& final(self).size == old(self).size
                },
                Change::Reset => {
                    &&& final(self).grid.alert_line_count == 0
                    &&& !final(self).grid.is_showing_input
                    &&& final(self).grid.lines == old(self).grid.lines
                    &&& result@.len() == old(self).grid.alert_line_count + (if old(self).grid.is_showing_input {
                        1int
                    } else {
                        0int
                    }) + 1
                    &&& forall|k: int|
                        0 <= k < old(self).grid.alert_line_count ==> draws_line(
                            #[trigger] result@[k],
                            k,
                            line_or_empty(old(self).grid.lines@, k),
                            false,
                        )
                    &&& old(self).grid.is_showing_input ==> {
                        let input_row = if old(self).grid.height >= 1 { old(self).grid.height - 1 } else { 0 };
                        draws_line(
                            result@[old(self).grid.alert_line_count as int],
                            input_row,
                            line_or_empty(old(self).grid.lines@, input_row),
                            false,
                        )
                    }
                    &&& final(self).top_line == old(self).top_line
                    &&& final(self).size == old(self).size
                },
                Change::Input(title) => {
                    &&& final(self).grid.is_showing_input
                    &&& result@.len() == 2
                    &&& result@[0] matches Draw::Line { row, text, highlighted } && row == (if old(self).grid.height
                        >= 1 {
                        old(self).grid.height - 1
                    } else {
                        0
                    }) && text@ == title@ + ": "@ && !highlighted
                    &&& final(self).top_line == old(self).top_line
                    &&& final(self).size == old(self).size
                },
                Change::Size(size) => {
                    &&& final(self).size == size
                    &&& final(self).grid.height == (if size.rows >= 1 { size.rows - 1 } else { 0 })
                    &&& final(self).grid.lines@.len() == old(self).grid.lines@.len() + if final(self).grid.height
                        > old(self).grid.height {
                        final(self).grid.height - old(self).grid.height
                    } else {
                        0
                    }
                    &&& result@.len() == 1
                    &&& final(self).top_line == old(self).top_line
                },
                Change::InputChar(c) => {
                    &&& result@ == seq![Draw::Char(c), Draw::Header(update.header)]
                    &&& final(self).top_line == old(self).top_line
                    &&& final(self).size == old(self).size
                    &&& final(self).grid == old(self).grid
                },
            },
    {
        let header = update.header;
        let mut draws: Vec<Draw> = Vec::new();
        match update.change {
            Change::Text { rows, cursor } => {
                let mut lines: Vec<u64> = Vec::new();
                let mut j: usize = 0;
                while j < rows.len()
                    invariant
                        j <= rows@.len(),
                        lines@ == rows@.take(j as int).map_values(|row: Row| row@.0),
                    decreases rows@.len() - j,
                {
                    lines.push(rows[j].line());
                    assert(rows@.take(j as int + 1).map_values(|row: Row| row@.0) =~= rows@.take(j as int).map_values(
                        |row: Row| row@.0,
                    ).push(rows@[j as int]@.0));
                    j = j + 1;
                }
                assert(rows@.take(rows@.len() as int) =~= rows@);
                let (top, shown) = follow_cursor(
                    &lines,
                    cursor.start.line as u64,
                    cursor.end.line as u64,
                    cursor.end.character as u64,
                    self.top_line,
                    self.grid.height,
                    self.size.rows,
                );
                self.top_line = top;
                let ghost all = indices_from(lines@, top as int, lines@.len() as int);
                proof {
                    lemma_indices_from_bounds(lines@, top as int, lines@.len() as int);
                }
                let mut k: usize = 0;
                while k < shown.len()
                    invariant
                        k <= shown@.len(),
                        draws@.len() == k,
                        lines@.len() == rows@.len(),
                        forall|i: int| 0 <= i < shown@.len() ==> #[trigger] shown@[i] == (all[i] as usize, lines@[all[i]] == cursor_end_line(cursor.end.line as u64, cursor.end.character as u64)),
                        shown@.len() <= all.len(),
                        forall|i: int| 0 <= i < all.len() ==> 0 <= #[trigger] all[i] < lines@.len(),
                        forall|i: int|
                            0 <= i < k ==> draws_line(#[trigger] draws@[i], sat_u16(i), rows@[all[i]]@.1, lines@[all[i]] == cursor_end_line(cursor.end.line as u64, cursor.end.character as u64)),
                        self.config == old(self).config,
                        self.top_line == top,
                        self.size == old(self).size,
                    decreases shown@.len() - k,
                {
                    let (index, highlighted) = shown[k];
                    let text = rows[index].text();
                    let row = self.grid.replace_line(k, text);
                    draws.push(Draw::Line { row, text: text.to_owned(), highlighted });
                    k = k + 1;
                }
                draws.push(Draw::ClearBelow);
            },
            Change::Message(alert) => {
                let placed = self.grid.add_alert(alert.message.as_str());
                draws = self.alert_draws(&placed, alert.typ);
            },
            Change::Question(question) => {
                let placed = self.grid.add_alert(question.message.as_str());
                draws = self.alert_draws(&placed, question.typ);
            },
            Change::Reset => {
                let reprints = self.grid.reset();
                let mut k: usize = 0;
                while k < reprints.len()
                    invariant
                        k <= reprints@.len(),
                        draws@.len() == k,
                        forall|i: int|
                            0 <= i < k ==> draws_line(#[trigger] draws@[i], reprints@[i].0 as int, reprints@[i].1@, false),
                    decreases reprints@.len() - k,
                {
                    let row = reprints[k].0;
                    let text = reprints[k].1.clone();
                    draws.push(Draw::Line { row, text, highlighted: false });
                    k = k + 1;
                }
            },
            Change::Input(title) => {
                let (row, text) = self.grid.add_input(title);
                draws.push(Draw::Line { row, text, highlighted: false });
            },
            Change::Size(size) => {
                self.size = size;
                // One row holds the header.
                self.grid.resize(self.size.rows.saturating_sub(1));
            },
            Change::InputChar(c) => {
                draws.push(Draw::Char(c));
            },
        }
        let ghost before = draws@;
        draws.push(Draw::Header(header));
        assert(draws@.drop_last() =~= before);
        draws
    }

    /// Returns the commands that print the lines of an alert of the kind `typ`, placed as
    /// `placed` gives them.
    fn alert_draws(&self, placed: &Vec<(u16, usize, usize)>, typ: MessageType) -> (result: Vec<Draw>)
        ensures
            result@.len() == placed@.len(),
            forall|k: int|
                0 <= k < placed@.len() ==> #[trigger] result@[k] == (Draw::Alert {
                    row: placed@[k].0,
                    start: placed@[k].1,
                    end: placed@[k].2,
                    typ,
                }),
    {
        let mut draws: Vec<Draw> = Vec::new();
        let mut k: usize = 0;
        while k < placed.len()
            invariant
                k <= placed@.len(),
                draws@.len() == k,
                forall|i: int|
                    0 <= i < k ==> #[trigger] draws@[i] == (Draw::Alert {
                        row: placed@[i].0,
                        start: placed@[i].1,
                        end: placed@[i].2,
                        typ,
                    }),
            decreases placed@.len() - k,
        {
            let (row, start, end) = placed[k];
            draws.push(Draw::Alert { row, start, end, typ });
            k = k + 1;
        }
        draws
    }
}

} // verus!
