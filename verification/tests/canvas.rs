use paper::canvas::{
    Crash, Document, Issue, Location, OldSelection, Pane, Selection, SheetError, CHAR_BACKSPACE,
    CHAR_ENTER,
};
use paper::control::{Ability, Command, Edge, ParseAbilityError};
use std::str::FromStr;
use paper::mode::{Address, Change, Color, Span};
use paper::rec::{Atom, Pattern};

#[test]
fn locations_move() {
    let mut location = Location::new(2, 3);
    location.move_left();
    assert_eq!(location.shift(), 2);
    location.move_right();
    location.move_right();
    assert_eq!(location.shift(), 4);
    location.move_up();
    assert_eq!(location.string(), 1);
    assert!(!location.is_first_string());
    assert_eq!(location.string_diff(3), None);
    assert_eq!(location.string_diff(1), Some(0));
    location.move_to_end();
    assert_eq!(location.shift_add(1), usize::max_value());
}

#[test]
fn selections_collapse_to_an_edge() {
    let mut selection = OldSelection::new(Location::new(1, 0), Location::new(4, 2));
    assert!(selection.starts_at_first_shift());
    assert!(!selection.starts_at_first_string());
    selection.select_edge(Edge::Start);
    assert_eq!(selection, OldSelection::new(Location::new(1, 0), Location::new(1, 0)));
    let mut line = OldSelection::entire_line(3);
    line.select_edge(Edge::End);
    assert_eq!(
        line,
        OldSelection::new(Location::new(3, usize::max_value()), Location::new(3, usize::max_value()))
    );
    assert_eq!(Selection::with_len(2, 3), Selection::new(2, 5));
}

#[test]
fn sheet_errors_describe_themselves() {
    assert_eq!(
        SheetError::from(Issue::InvalidPath).message(),
        "Issue: Provided path is invalid".to_string()
    );
    assert_eq!(Edge::End.name(), "End".to_string());
}

#[test]
fn documents_drop_returns_and_count_lines() {
    let doc = Document::from_text("ab\r\ncd\nef");
    assert_eq!(doc.text(), Some("ab\ncd\nef"));
    assert_eq!(doc.string_count(), 3);
    assert_eq!(Document::from_text("ab\n").string_count(), 1);
    assert_eq!(Document::from_text("").string_count(), 0);
    assert_eq!(Document::empty().text(), None);
}

#[test]
fn locations_index_lines_that_end_in_a_line_feed() {
    let doc = Document::from_text("ab\ncd\nef");
    assert_eq!(doc.index_of(&Location::new(0, 1)).ok(), Some(1));
    assert_eq!(doc.index_of(&Location::new(1, 2)).ok(), Some(5));
    assert!(matches!(
        doc.index_of(&Location::new(2, 0)),
        Err(SheetError::Crash(Crash::Unexpected))
    ));
    assert!(matches!(
        doc.index_of(&Location::new(1, usize::MAX)),
        Err(SheetError::Crash(Crash::Unexpected))
    ));
    assert_eq!(Document::empty().index_of(&Location::new(4, 4)).ok(), Some(0));
}

#[test]
fn editing_inserts_and_removes_characters() {
    let mut doc = Document::from_text("ab\ncd\n");
    let mut selection = OldSelection::new(Location::new(1, 1), Location::new(1, 1));
    assert!(doc.edit(&mut selection, 'x').is_ok());
    assert_eq!(doc.text(), Some("ab\ncxd\n"));
    assert_eq!(selection, OldSelection::new(Location::new(1, 2), Location::new(1, 2)));
    let mut start = OldSelection::new(Location::new(1, 0), Location::new(1, 0));
    assert!(doc.edit(&mut start, CHAR_BACKSPACE).is_ok());
    assert_eq!(doc.text(), Some("ab\nxd\n"));
    assert_eq!(doc.string_count(), 1);
    assert_eq!(start, OldSelection::new(Location::new(0, usize::MAX), Location::new(1, 0)));
    let mut enter = OldSelection::new(Location::new(0, 0), Location::new(0, 0));
    assert!(doc.edit(&mut enter, CHAR_ENTER).is_ok());
    assert_eq!(doc.string_count(), 2);
    assert_eq!(doc.text(), Some("ab\nxd\n"));
    let mut outside = OldSelection::new(Location::new(5, 0), Location::new(5, 0));
    assert!(matches!(
        doc.edit(&mut outside, 'y'),
        Err(SheetError::Crash(Crash::Unexpected))
    ));
    assert_eq!(doc.text(), Some("ab\nxd\n"));
}

fn write_at(row: usize, first: usize, last: usize, text: &str) -> Change {
    Change::Text(
        Span {
            first: Address { row, column: first },
            last: Address { row, column: last },
        },
        text.to_string(),
    )
}

fn row_text(row: usize, text: &str) -> Change {
    Change::Text(
        Span {
            first: Address { row, column: 0 },
            last: Address { row, column: usize::MAX },
        },
        text.to_string(),
    )
}

fn black_row(row: usize) -> Change {
    Change::Format(
        Span {
            first: Address { row, column: 0 },
            last: Address { row, column: usize::MAX },
        },
        Color::Black,
    )
}

fn blue_at(row: usize, first: usize, last: usize) -> Change {
    Change::Format(
        Span {
            first: Address { row, column: first },
            last: Address { row, column: last },
        },
        Color::Blue,
    )
}

#[test]
fn writing_edits_at_each_selection() {
    let doc = Document::from_text("ab\ncd\n");
    let selections = vec![
        OldSelection::new(Location::new(0, 0), Location::new(0, 0)),
        OldSelection::new(Location::new(1, 1), Location::new(1, 1)),
    ];
    let mut pane = Pane::new(doc, selections, 3);
    let shown = pane.write('z').ok().unwrap();
    assert_eq!(
        shown,
        vec![write_at(0, 3, 3, "z"), black_row(0), black_row(1), black_row(2), blue_at(0, 4, 4)]
    );
    assert_eq!(pane.doc().text(), Some("zab\nczd\n"));
    assert_eq!(
        pane.selections().clone(),
        vec![
            OldSelection::new(Location::new(0, 1), Location::new(0, 1)),
            OldSelection::new(Location::new(1, 2), Location::new(1, 2)),
        ]
    );
    assert_eq!(
        pane.write(CHAR_ENTER).ok().unwrap(),
        vec![
            Change::Clear,
            row_text(0, "1 zab"),
            row_text(1, "2 czd"),
            black_row(0),
            black_row(1),
            black_row(2),
            blue_at(0, 4, 4)
        ]
    );
    assert_eq!(pane.doc().string_count(), 4);
    let shown = pane.write(CHAR_BACKSPACE).ok().unwrap();
    assert_eq!(
        shown,
        vec![write_at(0, 3, 4, ""), black_row(0), black_row(1), black_row(2), blue_at(0, 3, 4)]
    );
    assert_eq!(pane.doc().text(), Some("ab\ncd\n"));
    assert_eq!(
        pane.selections().clone(),
        vec![
            OldSelection::new(Location::new(0, 0), Location::new(0, 1)),
            OldSelection::new(Location::new(1, 1), Location::new(1, 2)),
        ]
    );
    assert_eq!(
        pane.select_edge(Edge::End),
        vec![black_row(0), black_row(1), black_row(2), blue_at(0, 4, 4)]
    );
    assert_eq!(
        pane.selections().clone(),
        vec![
            OldSelection::new(Location::new(0, 1), Location::new(0, 1)),
            OldSelection::new(Location::new(1, 2), Location::new(1, 2)),
        ]
    );
}

#[test]
fn documents_give_their_lines() {
    let doc = Document::from_text("ab\ncde\n");
    assert_eq!(doc.line(0), Some("ab"));
    assert_eq!(doc.line(1), Some("cde"));
    assert_eq!(doc.line(2), None);
    assert_eq!(Document::empty().line(0), None);
}

#[test]
fn abilities_select_lines_and_matches() {
    let doc = Document::from_text("ab\ncde\n");
    let selections = vec![
        OldSelection::new(Location::new(0, 0), Location::new(0, 0)),
        OldSelection::new(Location::new(1, 1), Location::new(1, 1)),
    ];
    let mut pane = Pane::new(doc, selections.clone(), 3);
    pane.process_ability(&Ability::default());
    assert_eq!(
        pane.line_selections().clone(),
        vec![Selection::new(0, 2), Selection::new(3, 6)]
    );
    assert_eq!(pane.selections().clone(), selections);
    let pattern = Pattern::try_define("d".rec()).unwrap();
    pane.process_ability(&Ability::Pattern(Some(pattern)));
    assert_eq!(
        pane.selections().clone(),
        vec![OldSelection::new(Location::new(1, 0), Location::new(1, 1))]
    );
}

#[test]
fn abilities_parse_commands_and_filters() {
    assert!(matches!(
        Ability::from_str(".see foo.txt"),
        Ok(Ability::Command(Some(Command::See(ref path)))) if path == "foo.txt"
    ));
    assert!(matches!(
        Ability::from_str(".see"),
        Ok(Ability::Command(Some(Command::See(ref path)))) if path.is_empty()
    ));
    assert!(matches!(Ability::from_str(".put"), Ok(Ability::Command(Some(Command::Put)))));
    assert!(matches!(Ability::from_str(".end"), Ok(Ability::Command(Some(Command::End)))));
    assert!(matches!(
        Ability::from_str(".go on"),
        Ok(Ability::Command(Some(Command::Unknown(ref name)))) if name == "go"
    ));
    assert!(matches!(Ability::from_str("."), Ok(Ability::Command(None))));
    assert!(matches!(Ability::from_str("/ab"), Ok(Ability::Pattern(Some(_)))));
    assert!(matches!(Ability::from_str("/"), Ok(Ability::Pattern(None))));
    assert!(matches!(Ability::from_str("/("), Ok(Ability::Pattern(None))));
    assert_eq!(
        Ability::from_str("x").err(),
        Some(ParseAbilityError::Ability(Some('x')))
    );
    assert_eq!(Ability::from_str("").err(), Some(ParseAbilityError::Ability(None)));
}

#[test]
fn scrolling_draws_the_pane_again() {
    let doc = Document::from_text("a\nb\nc\nd\ne\n");
    let mut pane = Pane::new(doc, Vec::new(), 4);
    let rows = |texts: [&str; 4]| {
        let mut changes = vec![Change::Clear];
        for (row, text) in texts.iter().enumerate() {
            changes.push(row_text(row, text));
        }
        for row in 0..4 {
            changes.push(black_row(row));
        }
        changes
    };
    assert_eq!(pane.scroll_down(), rows(["2 b", "3 c", "4 d", "5 e"]));
    assert_eq!(pane.scroll_up(), rows(["1 a", "2 b", "3 c", "4 d"]));
    assert!(pane.jump_to(0).is_empty());
    assert!(pane.scroll_up().is_empty());
}
