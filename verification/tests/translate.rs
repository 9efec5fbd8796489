use paper::app::translate::{
    Command, ConfirmAction, Direction, DocOp, Interpreter, Magnitude, Mode, Operation, Vector,
};
use paper::io::ui::{self, Key, Modifiers};
use paper::io::{Glitch, Input, Setting};
use paper::lsp::{MessageType, ShowMessageParams};

fn view_mode() -> Interpreter {
    Interpreter::default()
}

fn confirm_mode() -> Interpreter {
    let mut int = Interpreter::default();
    int.mode = Mode::Confirm;
    int
}

fn collect_mode() -> Interpreter {
    let mut int = Interpreter::default();
    int.mode = Mode::Collect;
    int
}

fn key(key: Key, modifiers: Modifiers) -> Input {
    Input::User(ui::Input::Key { key, modifiers })
}

/// Receiving a glitch shall display the message.
#[test]
fn translate_glitch() {
    let mut int = view_mode();

    assert_eq!(
        int.translate(Input::Glitch(Glitch::WatcherConnection)),
        Some(Operation::Alert(ShowMessageParams {
            typ: MessageType::Error,
            message: "config file watcher disconnected".to_string(),
        }))
    );
    assert_eq!(int.mode, Mode::View);
}

/// A new setting shall be forwarded to the application.
#[test]
fn translate_setting() {
    let mut int = view_mode();

    assert_eq!(
        int.translate(Input::Config(Setting::Wrap(true))),
        Some(Operation::UpdateSetting(Setting::Wrap(true)))
    );
    assert_eq!(int.mode, Mode::View);
}

/// The `Ctrl-w` key shall confirm the user wants to quit.
#[test]
fn translate_quit() {
    let mut int = view_mode();

    assert_eq!(
        int.translate(key(Key::Char('w'), Modifiers::control())),
        Some(Operation::Confirm(ConfirmAction::Quit))
    );
    assert_eq!(int.mode, Mode::Confirm);
}

/// The `Ctrl-o` key shall request the name of the document to be opened.
#[test]
fn translate_open() {
    let mut int = view_mode();

    assert_eq!(
        int.translate(key(Key::Char('o'), Modifiers::control())),
        Some(Operation::StartCommand(Command::Open))
    );
    assert_eq!(int.mode, Mode::Collect);
}

/// The `Ctrl-s` key shall save the document.
#[test]
fn save() {
    let mut int = view_mode();

    assert_eq!(
        int.translate(key(Key::Char('s'), Modifiers::control())),
        Some(Operation::Document(DocOp::Save))
    );
    assert_eq!(int.mode, Mode::View);
}

/// The 'j' key shall move the cursor down.
#[test]
fn translate_move_down() {
    let mut int = view_mode();

    assert_eq!(
        int.translate(key(Key::Char('j'), Modifiers::empty())),
        Some(Operation::Document(DocOp::Move(Vector::new(
            Direction::Down,
            Magnitude::Single
        ))))
    );
    assert_eq!(int.mode, Mode::View);
}

/// The 'k' key shall move the cursor up.
#[test]
fn translate_move_up() {
    let mut int = view_mode();

    assert_eq!(
        int.translate(key(Key::Char('k'), Modifiers::empty())),
        Some(Operation::Document(DocOp::Move(Vector::new(
            Direction::Up,
            Magnitude::Single
        ))))
    );
    assert_eq!(int.mode, Mode::View);
}

/// The 'J' key shall scroll the document down.
#[test]
fn translate_scroll_down() {
    let mut int = view_mode();

    assert_eq!(
        int.translate(key(Key::Char('J'), Modifiers::empty())),
        Some(Operation::Document(DocOp::Move(Vector::new(
            Direction::Down,
            Magnitude::Half
        ))))
    );
    assert_eq!(int.mode, Mode::View);
}

/// The 'K' key shall scroll the document up.
#[test]
fn translate_scroll_up() {
    let mut int = view_mode();

    assert_eq!(
        int.translate(key(Key::Char('K'), Modifiers::empty())),
        Some(Operation::Document(DocOp::Move(Vector::new(
            Direction::Up,
            Magnitude::Half
        ))))
    );
    assert_eq!(int.mode, Mode::View);
}

/// The 'd' key shall delete the current selection.
#[test]
fn translate_delete() {
    let mut int = view_mode();

    assert_eq!(
        int.translate(key(Key::Char('d'), Modifiers::empty())),
        Some(Operation::Document(DocOp::Delete))
    );
    assert_eq!(int.mode, Mode::View);
}

/// The `y` key shall confirm the action.
#[test]
fn translate_confirm() {
    let mut int = confirm_mode();

    assert_eq!(
        int.translate(key(Key::Char('y'), Modifiers::empty())),
        Some(Operation::Quit)
    );
}

/// Any other key shall cancel the action, resetting the application to View mode.
#[test]
fn translate_cancel() {
    let mut int = confirm_mode();

    assert_eq!(
        int.translate(key(Key::Char('n'), Modifiers::empty())),
        Some(Operation::Reset)
    );
    assert_eq!(int.mode, Mode::View);

    int = confirm_mode();

    assert_eq!(
        int.translate(key(Key::Char('1'), Modifiers::empty())),
        Some(Operation::Reset)
    );
    assert_eq!(int.mode, Mode::View);
}

/// The `Esc` key shall return to View mode.
#[test]
fn translate_reset() {
    let mut int = collect_mode();

    assert_eq!(
        int.translate(key(Key::Esc, Modifiers::empty())),
        Some(Operation::Reset)
    );
    assert_eq!(int.mode, Mode::View);
}

/// All char keys shall be collected.
#[test]
fn translate_collect() {
    let mut int = collect_mode();

    assert_eq!(
        int.translate(key(Key::Char('a'), Modifiers::empty())),
        Some(Operation::Collect('a'))
    );
    assert_eq!(int.mode, Mode::Collect);

    int = collect_mode();

    assert_eq!(
        int.translate(key(Key::Char('.'), Modifiers::empty())),
        Some(Operation::Collect('.'))
    );
    assert_eq!(int.mode, Mode::Collect);

    int = collect_mode();

    assert_eq!(
        int.translate(key(Key::Char('1'), Modifiers::empty())),
        Some(Operation::Collect('1'))
    );
    assert_eq!(int.mode, Mode::Collect);
}

/// The `Enter` key shall execute the command.
#[test]
fn translate_execute() {
    let mut int = collect_mode();

    assert_eq!(
        int.translate(key(Key::Enter, Modifiers::empty())),
        Some(Operation::Execute)
    );
    assert_eq!(int.mode, Mode::View);
}

/// Only the user switches modes; outside of View mode, other inputs are ignored.
#[test]
fn non_user_inputs_keep_the_mode() {
    let mut int = confirm_mode();
    assert_eq!(int.translate(Input::Config(Setting::Wrap(false))), None);
    assert_eq!(int.mode, Mode::Confirm);

    let mut int = collect_mode();
    assert_eq!(int.translate(Input::Glitch(Glitch::WatcherConnection)), None);
    assert_eq!(int.mode, Mode::Collect);

    let mut int = view_mode();
    assert_eq!(
        int.translate(Input::Config(Setting::Wrap(true))),
        Some(Operation::UpdateSetting(Setting::Wrap(true)))
    );
    assert_eq!(int.mode, Mode::View);
}

/// Operations and commands have names for the user.
#[test]
fn operations_have_names() {
    assert_eq!(DocOp::Save.text(), "save");
    assert_eq!(DocOp::Delete.text(), "deletion");
    assert_eq!(
        DocOp::Move(Vector::new(Direction::Up, Magnitude::Single)).text(),
        "selection movement"
    );
    assert_eq!(Command::Open.text(), "Open <file>");
}
