use paper::app::translate::{Command, ConfirmAction, Operation, SelectionMovement};
use paper::app::{Document, Processor, Row, Symbol};
use paper::lsp::{DocumentSymbol, Position, Range};
use paper::io::ui::{Dimensions, Unit};
use paper::io::{File, Output};
use paper::orient::ScreenDirection;

fn text_of(doc: &Document) -> Vec<String> {
    doc.rows()
        .unwrap()
        .iter()
        .map(|row| row.texts.iter().map(|t| t.text.clone()).collect::<String>())
        .collect()
}

fn sized(height: u16, width: u16) -> Dimensions {
    Dimensions {
        height: Unit(height),
        width: Unit(width),
    }
}

#[test]
fn document_shows_first_rows() {
    let doc = Document::new(
        File::new("file:///a.txt".to_string(), "a\nb\nc".to_string()),
        sized(2, 80),
    )
    .unwrap();
    assert_eq!(doc.lines.len(), 3);
    assert_eq!(text_of(&doc), vec!["a".to_string(), "b".to_string()]);
}

#[test]
fn long_lines_are_cut_into_rows() {
    let doc = Document::new(
        File::new("file:///a.txt".to_string(), "abcde\nf".to_string()),
        sized(10, 2),
    )
    .unwrap();
    assert_eq!(
        text_of(&doc),
        vec![
            "ab".to_string(),
            "cd".to_string(),
            "e".to_string(),
            "f".to_string()
        ]
    );
}

#[test]
fn scroll_stops_at_last_row() {
    let text = (0..20).map(|i| i.to_string()).collect::<Vec<_>>().join("\n");
    let mut doc = Document::new(File::new("file:///n.txt".to_string(), text), sized(4, 80)).unwrap();
    assert_eq!(doc.max_visible_row, Row(16));
    doc.scroll(ScreenDirection::Down);
    assert_eq!(doc.first_visible_row, Row(5));
    doc.scroll(ScreenDirection::Down);
    doc.scroll(ScreenDirection::Down);
    doc.scroll(ScreenDirection::Down);
    assert_eq!(doc.first_visible_row, Row(16));
    assert_eq!(text_of(&doc)[0], "16".to_string());
    doc.scroll(ScreenDirection::Up);
    assert_eq!(doc.first_visible_row, Row(11));
    doc.scroll(ScreenDirection::Left);
    assert_eq!(doc.first_visible_row, Row(11));
}

#[test]
fn scroll_up_stops_at_first_row() {
    let mut doc = Document::new(
        File::new("file:///a.txt".to_string(), "a\nb".to_string()),
        sized(1, 80),
    )
    .unwrap();
    doc.scroll(ScreenDirection::Up);
    assert_eq!(doc.first_visible_row, Row(0));
    assert_eq!(text_of(&doc), vec!["a".to_string()]);
}

#[test]
fn open_command_reads_the_file() {
    let mut processor = Processor::new();
    let outputs = processor.operate(Operation::StartCommand(Command::Open)).unwrap();
    assert_eq!(
        outputs,
        vec![
            Output::Command {
                command: ":".to_string()
            },
            Output::UpdateHeader
        ]
    );
    for c in "open src/lib.rs".chars() {
        let outputs = processor.operate(Operation::Collect(c)).unwrap();
        assert_eq!(outputs.last(), Some(&Output::UpdateHeader));
    }
    assert_eq!(processor.command, ":open src/lib.rs".to_string());
    let outputs = processor.operate(Operation::Execute).unwrap();
    assert_eq!(
        outputs,
        vec![
            Output::ReadFile {
                path: "src/lib.rs".to_string()
            },
            Output::UpdateHeader
        ]
    );
}

#[test]
fn execute_without_open_only_updates_header() {
    let mut processor = Processor::new();
    processor.operate(Operation::StartCommand(Command::Open)).unwrap();
    processor.operate(Operation::Collect('x')).unwrap();
    assert_eq!(
        processor.operate(Operation::Execute).unwrap(),
        vec![Output::UpdateHeader]
    );
}

#[test]
fn reset_clears_the_command() {
    let mut processor = Processor::new();
    processor.operate(Operation::StartCommand(Command::Open)).unwrap();
    assert_eq!(
        processor.operate(Operation::Reset).unwrap(),
        vec![Output::UpdateHeader]
    );
    assert_eq!(processor.command, String::new());
}

#[test]
fn confirm_asks_to_quit() {
    let mut processor = Processor::new();
    let outputs = processor
        .operate(Operation::Confirm(ConfirmAction::Quit))
        .unwrap();
    assert_eq!(outputs.len(), 2);
    match &outputs[0] {
        Output::Question { request } => assert!(request.message.contains("pressing `y`")),
        other => panic!("unexpected output {:?}", other),
    }
}

#[test]
fn creating_and_quitting_a_document() {
    let mut processor = Processor::new();
    processor
        .operate(Operation::Resize {
            dimensions: sized(3, 10),
        })
        .unwrap();
    let outputs = processor
        .operate(Operation::CreateDoc(File::new(
            "file:///x.rs".to_string(),
            "fn main() {}\n".to_string(),
        )))
        .unwrap();
    assert_eq!(outputs.len(), 3);
    assert!(matches!(outputs[0], Output::OpenDoc { .. }));
    assert!(matches!(outputs[1], Output::UpdateView { .. }));
    assert_eq!(outputs[2], Output::UpdateHeader);
    if let Output::OpenDoc { doc } = &outputs[0] {
        assert_eq!(doc.language_id, "rust".to_string());
        assert_eq!(doc.uri, "file:///x.rs".to_string());
    }
    let outputs = processor
        .operate(Operation::ChangeSelection(SelectionMovement::Ascend))
        .unwrap();
    assert_eq!(outputs.last(), Some(&Output::UpdateHeader));
    let outputs = processor.operate(Operation::Quit).unwrap();
    assert_eq!(outputs.len(), 3);
    assert!(matches!(outputs[0], Output::CloseDoc { .. }));
    assert_eq!(outputs[1], Output::Quit);
    assert!(processor.pane.doc.is_none());
}

#[test]
fn quit_without_document() {
    let mut processor = Processor::new();
    assert_eq!(
        processor.operate(Operation::Quit).unwrap(),
        vec![Output::Quit, Output::UpdateHeader]
    );
}

#[test]
fn selection_moves_between_lines() {
    let mut doc = Document::new(
        File::new("file:///a.txt".to_string(), "ab\ncd\nef".to_string()),
        sized(3, 80),
    )
    .unwrap();
    assert!(doc.selection.is_empty());
    doc.change_selection(&SelectionMovement::Descend).unwrap();
    assert_eq!(doc.selection, vec![0]);
    doc.change_selection(&SelectionMovement::Increment).unwrap();
    assert_eq!(doc.selection, vec![1]);
    doc.change_selection(&SelectionMovement::Decrement).unwrap();
    assert_eq!(doc.selection, vec![0]);
    doc.change_selection(&SelectionMovement::Increment).unwrap();
    doc.change_selection(&SelectionMovement::Increment).unwrap();
    doc.change_selection(&SelectionMovement::Increment).unwrap();
    assert_eq!(doc.selection, vec![2]);
    assert_eq!(doc.selected_symbol().unwrap().range.start.line, 2);
    doc.change_selection(&SelectionMovement::Ascend).unwrap();
    assert!(doc.selection.is_empty());
}

#[test]
fn document_symbols_become_symbols_in_reverse() {
    let range = |line: u32| Range::new(Position::new(line, 0), Position::new(line, 1));
    let leaf = |name: &str, line: u32| DocumentSymbol {
        name: name.to_string(),
        range: range(line),
        selection_range: range(line),
        children: None,
    };
    let root = DocumentSymbol {
        name: "root".to_string(),
        range: range(0),
        selection_range: range(0),
        children: Some(vec![leaf("a", 1), leaf("b", 2)]),
    };
    let symbol = Symbol::from(root);
    assert_eq!(symbol.range, range(0));
    assert_eq!(symbol.children.len(), 2);
    assert_eq!(symbol.children[0].range, range(2));
    assert_eq!(symbol.children[1].range, range(1));
    assert!(symbol.children[0].children.is_empty());
}

#[test]
fn scroll_down_then_up_returns() {
    let text = (0..20).map(|i| i.to_string()).collect::<Vec<_>>().join("\n");
    let mut doc = Document::new(File::new("file:///n.txt".to_string(), text), sized(4, 80)).unwrap();
    doc.scroll(ScreenDirection::Down);
    doc.scroll(ScreenDirection::Down);
    assert_eq!(doc.first_visible_row, Row(10));
    doc.scroll(ScreenDirection::Up);
    doc.scroll(ScreenDirection::Down);
    assert_eq!(doc.first_visible_row, Row(10));
    doc.scroll(ScreenDirection::Up);
    doc.scroll(ScreenDirection::Up);
    assert_eq!(doc.first_visible_row, Row(0));
}
