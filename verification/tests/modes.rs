use core::convert::TryFrom;
use paper::canvas::{CHAR_BACKSPACE, CHAR_ENTER};
use paper::lsp::{Position, Range};
use paper::mode::{Address, Change, Color, Flag, Initiation, LineNumber, Name, Operation, Pane, Span};
use paper::storage::LspError;
use paper::ui::base::{Index, IntRangeError, Length, LengthEndError};

#[test]
fn line_numbers_start_at_one() {
    assert_eq!(LineNumber::new(0), Err(IntRangeError::Underflow));
    assert_eq!(LineNumber::new(5).unwrap().row(), 4);
    assert_eq!(LineNumber::try_from(0usize).unwrap(), LineNumber::default());
    assert_eq!(LineNumber::new(1usize << 33), Err(IntRangeError::Overflow));
}

#[test]
fn moving_line_numbers() {
    let five = LineNumber::new(5).unwrap();
    assert_eq!(five + 3, LineNumber::new(8).unwrap());
    assert_eq!(five + -10, LineNumber::default());
    assert_eq!(five + i128::from(u64::max_value()), LineNumber::new(u32::max_value() as usize).unwrap());
    assert_eq!(five - LineNumber::new(7).unwrap(), -2);
    assert_eq!(five.text(), "5".to_string());
    let mut numbers = five.into_iter();
    assert_eq!(numbers.next(), Some(five));
    assert_eq!(numbers.next(), Some(LineNumber::new(6).unwrap()));
}

#[test]
fn mode_names() {
    assert_eq!(Name::default(), Name::Display);
    assert_eq!(Name::Filter.text(), "Filter");
    let op = Operation::display_file("a.txt");
    assert_eq!(op.mode, Some(Name::Display));
    assert_eq!(op.initiation, Some(Initiation::OpenDoc("a.txt".to_string())));
    assert_eq!(Operation::maintain().mode, None);
}

#[test]
fn flags_describe_themselves() {
    assert_eq!(Flag::User.message(), "User Error".to_string());
    assert_eq!(Flag::Quit.message(), "Quit".to_string());
    assert_eq!(Flag::from(LspError::Io).message(), "IO Error".to_string());
    assert_eq!(
        LspError::SerdeJson { line: 3, column: 14 }.message(),
        "Serde Json Error at (3, 14)".to_string()
    );
}

#[test]
fn indices_and_lengths() {
    assert_eq!(Index::try_from(-1i32), Err(IntRangeError::Underflow));
    assert_eq!(Index::try_from(3i64).map(i32::from), Ok(3));
    assert_eq!(Index::try_from((1u64 as usize) << 40), Err(IntRangeError::Overflow));
    assert!(matches!(Index::try_from(Length::end()), Err(LengthEndError)));
    assert_eq!(Length::end().text(), "END".to_string());
    assert_eq!(Length::from(12u16).text(), "12".to_string());
    assert_eq!(Index::from(7u8).add(3).get(), 10);
}

fn row(row: usize, text: &str) -> Change {
    Change::Text(
        Span {
            first: Address { row, column: 0 },
            last: Address { row, column: usize::MAX },
        },
        text.to_string(),
    )
}

fn at(row: usize, first: usize, last: usize, text: &str) -> Change {
    Change::Text(
        Span {
            first: Address { row, column: first },
            last: Address { row, column: last },
        },
        text.to_string(),
    )
}

#[test]
fn panes_add_and_remove_characters() {
    let mut pane = Pane::new(3);
    let mut nowhere = Position::new(0, 0);
    assert!(matches!(pane.add(&mut nowhere, 'a'), Ok(None)));
    assert_eq!(pane.changes(), vec![at(0, 1, 1, "a")]);
    pane.open("ab\ncd".to_string());
    let mut position = Position::new(1, 1);
    let change = pane.add(&mut position, 'x').ok().flatten().unwrap();
    assert_eq!(change, (Range::new(Position::new(1, 1), Position::new(1, 1)), "x".to_string()));
    assert_eq!(pane.text(), Some("ab\ncxd"));
    assert_eq!(position, Position::new(1, 2));
    assert!(!pane.will_wipe());
    assert_eq!(pane.changes(), vec![at(1, 3, 3, "x")]);
    assert!(pane.changes().is_empty());
    let change = pane.add(&mut position, CHAR_BACKSPACE).ok().flatten().unwrap();
    assert_eq!(change, (Range::new(Position::new(1, 1), Position::new(1, 2)), String::new()));
    assert_eq!(pane.text(), Some("ab\ncd"));
    assert_eq!(position, Position::new(1, 1));
    assert_eq!(pane.changes(), vec![at(1, 3, 4, "")]);
    let mut first = Position::new(0, 0);
    assert!(pane.add(&mut first, CHAR_ENTER).is_ok());
    assert_eq!(pane.text(), Some("\nab\ncd"));
    assert_eq!(first, Position::new(0, 1));
    assert!(pane.will_wipe());
    assert_eq!(
        pane.changes(),
        vec![Change::Clear, row(0, "1 "), row(1, "2 ab"), row(2, "3 cd")]
    );
    assert!(!pane.will_wipe());
    let mut beyond = Position::new(7, 0);
    assert!(pane.add(&mut beyond, 'y').is_ok());
    assert_eq!(pane.text(), Some("\nab\ncd"));
    assert_eq!(beyond, Position::new(7, 0));
    assert_eq!(pane.changes(), vec![at(7, 2, 2, "y")]);
}

#[test]
fn filters_color_rows_and_ranges() {
    let mut pane = Pane::new(2);
    let noise = Range::new(Position::new(0, 0), Position::new(0, 1));
    let signal = Range::new(Position::new(1, 0), Position::new(1, 2));
    pane.apply_filter(&[noise], &[signal]);
    let whole = |row: usize| Span {
        first: Address { row, column: 0 },
        last: Address { row, column: usize::MAX },
    };
    let part = |row: usize, first: usize, last: usize| Span {
        first: Address { row, column: first },
        last: Address { row, column: last },
    };
    assert_eq!(
        pane.changes(),
        vec![
            Change::Format(whole(0), Color::Default),
            Change::Format(whole(1), Color::Default),
            Change::Format(part(0, 1, 2), Color::Blue),
            Change::Format(part(1, 1, 3), Color::Red),
        ]
    );
}

#[test]
fn panes_scroll_by_a_quarter_of_their_height() {
    let mut pane = Pane::new(4);
    pane.open("a\nb\nc\nd\ne".to_string());
    assert!(!pane.will_wipe());
    pane.scroll_down();
    assert!(pane.will_wipe());
    assert_eq!(
        pane.changes(),
        vec![Change::Clear, row(0, "2 b"), row(1, "3 c"), row(2, "4 d"), row(3, "5 e")]
    );
    pane.scroll_up();
    assert_eq!(
        pane.changes(),
        vec![Change::Clear, row(0, "1 a"), row(1, "2 b"), row(2, "3 c"), row(3, "4 d")]
    );
    pane.scroll_up();
    assert!(!pane.will_wipe());
    assert!(pane.changes().is_empty());
}
