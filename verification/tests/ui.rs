use paper::io::lsp::{
    LspSettings,
    ClientMessage, ClientRequest, ClientResponse, LanguageToolState, ServerMessage,
    ServerResponse,
};
use paper::io::ui::Size;
use paper::lsp::{
    InitializeResult, MessageType, Position, Range, ServerCapabilities, ShowMessageParams,
    TextDocumentSyncCapability, TextDocumentSyncKind, TextDocumentSyncOptions,
};
use paper::ui::{follow_cursor, Change, Config, Draw, Grid, LogLevel, Row, Rows, Screen, Setting, Update};

fn collect_rows(text: &str, max_len: Option<usize>) -> Vec<(u64, String)> {
    let mut rows = Rows::new(text, max_len);
    let mut result = Vec::new();
    while let Some(row) = rows.next() {
        result.push((row.line(), row.text().to_string()));
    }
    result
}

#[test]
fn rows_follow_the_lines() {
    assert_eq!(
        collect_rows("ab\r\ncd\nef", None),
        vec![
            (0, "ab".to_string()),
            (1, "cd".to_string()),
            (2, "ef".to_string())
        ]
    );
    assert!(collect_rows("", None).is_empty());
}

#[test]
fn rows_cut_long_lines() {
    assert_eq!(
        collect_rows("ab\r\ncd", Some(1)),
        vec![
            (0, "a".to_string()),
            (0, "b".to_string()),
            (1, "c".to_string()),
            (1, "d".to_string())
        ]
    );
}

#[test]
fn cursor_stays_in_view() {
    let lines = vec![0, 0, 1, 2, 3, 4];
    let (top, shown) = follow_cursor(&lines, 0, 4, 1, 0, 3, 4);
    assert_eq!(top, 2);
    assert_eq!(shown, vec![(3, false), (4, false), (5, true)]);
    let (top, shown) = follow_cursor(&lines, 1, 1, 0, 3, 3, 3);
    assert_eq!(top, 1);
    assert_eq!(shown, vec![(2, false), (3, false)]);
}

#[test]
fn grid_boxes_come_and_go() {
    let mut grid = Grid::new();
    grid.resize(3);
    assert_eq!(grid.lines, vec![String::new(), String::new(), String::new()]);
    assert_eq!(grid.replace_line(1, "x"), 1);
    assert_eq!(grid.add_alert("a\nbc\n"), vec![(0, 0, 1), (1, 2, 4)]);
    assert_eq!(grid.alert_line_count, 2);
    assert_eq!(grid.add_input("cmd".to_string()), (2, "cmd: ".to_string()));
    assert_eq!(
        grid.reset(),
        vec![(0, String::new()), (1, "x".to_string()), (2, String::new())]
    );
    assert_eq!(grid.alert_line_count, 0);
    assert!(!grid.is_showing_input);
}

#[test]
fn config_updates_report_changes() {
    let mut config = Config::default();
    let new = Config {
        wrap: true,
        starship_log: LogLevel::Info,
    };
    assert_eq!(
        config.update(new),
        vec![Setting::Wrap(true), Setting::StarshipLog(LogLevel::Info)]
    );
    assert_eq!(config.update(new), Vec::new());
}

#[test]
fn language_tool_answers_and_shuts_down() {
    let mut state = LanguageToolState::new();
    assert_eq!(
        state.receive(ServerMessage::Request { id: 3 }),
        Some(ClientMessage::Response {
            id: 3,
            response: ClientResponse::RegisterCapability
        })
    );
    assert_eq!(
        state.receive(ServerMessage::Response(ServerResponse::Initialize)),
        Some(ClientMessage::Request(ClientRequest::Initialized))
    );
    assert!(state.is_running());
    state.request_drop();
    assert_eq!(
        state.shutdown_request(),
        Some(ClientMessage::Request(ClientRequest::Shutdown))
    );
    assert_eq!(state.shutdown_request(), None);
    assert_eq!(
        state.receive(ServerMessage::Response(ServerResponse::Shutdown)),
        None
    );
    assert!(!state.is_running());
    assert_eq!(
        state.exit_request(),
        ClientMessage::Request(ClientRequest::Exit)
    );
}

#[test]
fn screen_follows_the_cursor() {
    let mut screen = Screen::new(Size { rows: 4, columns: 10 });
    assert_eq!(
        screen.apply(Update::new(
            "h".to_string(),
            Change::Size(Size { rows: 4, columns: 10 })
        )),
        vec![Draw::Header("h".to_string())]
    );
    assert_eq!(screen.grid.height, 3);
    let rows = vec![Row::new(0, "a"), Row::new(1, "b"), Row::new(2, "c"), Row::new(3, "d")];
    let cursor = Range::new(Position::new(3, 0), Position::new(3, 1));
    let draws = screen.apply(Update::new("h".to_string(), Change::Text { rows, cursor }));
    assert_eq!(screen.top_line, 1);
    assert_eq!(
        draws,
        vec![
            Draw::Line { row: 0, text: "b".to_string(), highlighted: false },
            Draw::Line { row: 1, text: "c".to_string(), highlighted: false },
            Draw::Line { row: 2, text: "d".to_string(), highlighted: true },
            Draw::ClearBelow,
            Draw::Header("h".to_string()),
        ]
    );
    let draws = screen.apply(Update::new(
        "h".to_string(),
        Change::Message(ShowMessageParams {
            typ: MessageType::Warning,
            message: "x\nyz".to_string(),
        }),
    ));
    assert_eq!(
        draws,
        vec![
            Draw::Alert { row: 0, start: 0, end: 1, typ: MessageType::Warning },
            Draw::Alert { row: 1, start: 2, end: 4, typ: MessageType::Warning },
            Draw::Header("h".to_string()),
        ]
    );
    let draws = screen.apply(Update::new("h".to_string(), Change::Reset));
    assert_eq!(
        draws,
        vec![
            Draw::Line { row: 0, text: "b".to_string(), highlighted: false },
            Draw::Line { row: 1, text: "c".to_string(), highlighted: false },
            Draw::Header("h".to_string()),
        ]
    );
    assert_eq!(
        screen.apply(Update::new("h".to_string(), Change::InputChar('q'))),
        vec![Draw::Char('q'), Draw::Header("h".to_string())]
    );
}

#[test]
fn servers_choose_the_notifications() {
    let result = |sync| InitializeResult {
        capabilities: ServerCapabilities {
            text_document_sync: sync,
        },
    };
    assert_eq!(LspSettings::from(result(None)), LspSettings::default());
    let full = LspSettings::from(result(Some(TextDocumentSyncCapability::Kind(
        TextDocumentSyncKind::Full,
    ))));
    assert!(full.notify_open_close);
    assert_eq!(full.notify_changes_kind, TextDocumentSyncKind::Full);
    assert!(!full.notify_save);
    let no_sync = LspSettings::from(result(Some(TextDocumentSyncCapability::Kind(
        TextDocumentSyncKind::NoSync,
    ))));
    assert_eq!(no_sync, LspSettings::default());
    let options = LspSettings::from(result(Some(TextDocumentSyncCapability::Options(
        TextDocumentSyncOptions {
            open_close: Some(true),
            change: None,
            will_save: Some(true),
        },
    ))));
    assert!(options.notify_open_close);
    assert_eq!(options.notify_changes_kind, TextDocumentSyncKind::NoSync);
    assert!(options.notify_save);
}

#[test]
fn rows_make_up_the_text_without_line_ends() {
    let rows = collect_rows("ab\r\ncd\nef", Some(1));
    let joined: String = rows.iter().map(|(_, text)| text.as_str()).collect();
    assert_eq!(joined, "abcdef".to_string());
    assert_eq!(rows.first().map(|(line, _)| *line), Some(0));
    assert!(rows.windows(2).all(|pair| pair[1].0 - pair[0].0 <= 1));
}

#[test]
fn rows_end_on_the_last_line() {
    let rows = collect_rows("ab\ncd\n\nef\n", Some(1));
    assert_eq!(rows.last().map(|(line, _)| *line), Some(3));
    let rows = collect_rows("ab\ncd", None);
    assert_eq!(rows.last().map(|(line, _)| *line), Some(1));
}
