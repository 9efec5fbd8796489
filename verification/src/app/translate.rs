//! Implements the functionality of interpreting an [`Input`] into [`Operation`]s.
use crate::io::fs::File;
use crate::io::ui::{self, Dimensions, Key};
use crate::io::{glitch_message, Input, Setting};
use crate::lsp::{MessageType, ShowMessageParams, ShowMessageRequestParams};
use crate::orient::ScreenDirection;
use vstd::prelude::*;

verus! {

/// A movement of the selection between symbols of a document.
#[derive(Clone, Copy, Debug, PartialEq, Eq, Structural)]
pub enum SelectionMovement {
    /// Selects the first child of the selected symbol.
    Descend,
    /// Selects the parent of the selected symbol.
    Ascend,
    /// Selects the next sibling of the selected symbol.
    Increment,
    /// Selects the previous sibling of the selected symbol.
    Decrement,
}

/// Signifies actions that can be performed by the application.
#[derive(Clone, Debug, PartialEq)]
pub enum Operation {
    /// Resizes the user interface to show the document on a page of `dimensions`.
    Resize {
        /// The dimensions of the page.
        dimensions: Dimensions,
    },
    /// Resets the application.
    Reset,
    /// Confirms that the action is desired.
    Confirm(ConfirmAction),
    /// Quits the application.
    Quit,
    /// Updates a setting.
    UpdateSetting(Setting),
    /// Alerts the user with a message.
    Alert(ShowMessageParams),
    /// Open input box for a command.
    StartCommand(Command),
    /// Input to input box.
    Collect(char),
    /// Executes the current command.
    Execute,
    /// An operation to edit the text or selection of the document.
    Document(DocOp),
    /// Opens `File` as the document.
    CreateDoc(File),
    /// Scrolls the document towards a direction.
    Scroll(ScreenDirection),
    /// Moves the selection of the document.
    ChangeSelection(SelectionMovement),
}

/// Signifies actions that require a confirmation prior to their execution.
#[derive(Clone, Copy, Debug, PartialEq, Eq, Structural)]
pub enum ConfirmAction {
    /// Quit the application.
    Quit,
}

/// The question that asks the user to confirm that the application shall quit.
pub open spec fn quit_question() -> Seq<char> {
    "You have input that you want to quit the application.\nPlease confirm this action by pressing `y`. To cancel this action, press any other key."@
}

impl ConfirmAction {
    /// Returns the text that asks the user to confirm `self`.
    pub fn question(&self) -> (result: String)
        ensures
            result@ == quit_question(),
    {
        String::from_str(
            "You have input that you want to quit the application.\nPlease confirm this action by pressing `y`. To cancel this action, press any other key.",
        )
    }
}

impl From<ConfirmAction> for ShowMessageRequestParams {
    fn from(value: ConfirmAction) -> (result: Self)
        ensures
            result.typ == MessageType::Info,
            result.message@ == quit_question(),
            result.actions is None,
    {
        Self { typ: MessageType::Info, message: value.question(), actions: None }
    }
}

impl vstd::std_specs::convert::FromSpecImpl<ConfirmAction> for ShowMessageRequestParams {
    /// The message is a `String`, which has no value in specifications: the `ensures` of `from`
    /// states the result instead.
    open spec fn obeys_from_spec() -> bool {
        false
    }

    open spec fn from_spec(value: ConfirmAction) -> Self {
        arbitrary()
    }
}

/// Signifies a command that a user can give to the application.
#[derive(Clone, Copy, Debug, PartialEq, Eq, Structural)]
pub enum Command {
    /// Opens a given file.
    Open,
}

impl Command {
    /// Returns the text of `self`, as it is shown to the user.
    pub fn text(&self) -> (result: &'static str)
        ensures
            result@ == "Open <file>"@,
    {
        "Open <file>"
    }
}

/// An operation performed on a document.
#[derive(Clone, Copy, Debug, PartialEq, Eq, Structural)]
pub enum DocOp {
    /// Moves the cursor.
    Move(Vector),
    /// Deletes the current selection.
    Delete,
    /// Saves the document.
    Save,
}

/// The name of `op`, as it is shown to the user.
pub open spec fn doc_op_text(op: DocOp) -> Seq<char> {
    match op {
        DocOp::Move(..) => "selection movement"@,
        DocOp::Delete => "deletion"@,
        DocOp::Save => "save"@,
    }
}

impl DocOp {
    /// Returns the name of `self`, as it is shown to the user.
    pub fn text(&self) -> (result: &'static str)
        ensures
            result@ == doc_op_text(*self),
    {
        match self {
            DocOp::Move(..) => "selection movement",
            DocOp::Delete => "deletion",
            DocOp::Save => "save",
        }
    }
}

/// A movement to the cursor.
#[derive(Clone, Copy, Debug, PartialEq, Eq, Structural)]
pub struct Vector {
    /// The direction of the movement.
    pub direction: Direction,
    /// The magnitude of the movement.
    pub magnitude: Magnitude,
}

impl Vector {
    /// Creates a new [`Vector`].
    pub fn new(direction: Direction, magnitude: Magnitude) -> (result: Self)
        ensures
            result == (Vector { direction, magnitude }),
    {
        Self { direction, magnitude }
    }

    /// Returns the direction of `self`.
    pub fn direction(&self) -> (result: &Direction)
        ensures
            *result == self.direction,
    {
        &self.direction
    }

    /// Returns the magnitude of `self`.
    pub fn magnitude(&self) -> (result: &Magnitude)
        ensures
            *result == self.magnitude,
    {
        &self.magnitude
    }
}

/// Describes the direction of a movement.
#[derive(Clone, Copy, Debug, PartialEq, Eq, Structural)]
pub enum Direction {
    /// Towards the bottom.
    Down,
    /// Towards the top.
    Up,
}

/// Describes the magnitude of a movement.
#[derive(Clone, Copy, Debug, PartialEq, Eq, Structural)]
pub enum Magnitude {
    /// Move a single line.
    Single,
    /// Move roughly half of a screen.
    Half,
}

/// Signifies the mode of the application.
#[derive(Clone, Copy, Debug, PartialEq, Eq, Structural)]
pub enum Mode {
    /// Displays the current file.
    View,
    /// Confirms the user's action
    Confirm,
    /// Collects input from the user.
    Collect,
}

impl Default for Mode {
    fn default() -> (result: Self)
        ensures
            result == Mode::View,
    {
        Self::View
    }
}

/// Signifies the data gleaned from user input.
#[derive(Clone, Debug, PartialEq)]
pub struct Output {
    /// The operation to be run.
    pub operation: Option<Operation>,
    /// The mode to switch to.
    ///
    /// If None, interpreter should not switch modes.
    pub new_mode: Option<Mode>,
}

impl Output {
    /// Creates a new `Output`.
    pub fn new() -> (result: Self)
        ensures
            result.operation is None,
            result.new_mode is None,
    {
        Self { operation: None, new_mode: None }
    }

    /// Adds `operation` to `self`.
    pub fn add_op(&mut self, operation: Operation)
        ensures
            final(self).operation == Some(operation),
            final(self).new_mode == old(self).new_mode,
    {
        self.operation = Some(operation);
    }

    /// Sets the mode of `self` to `mode`.
    pub fn set_mode(&mut self, mode: Mode)
        ensures
            final(self).operation == old(self).operation,
            final(self).new_mode == Some(mode),
    {
        self.new_mode = Some(mode);
    }

    /// Modifies to the [`Operation::Reset`].
    pub fn reset(&mut self)
        ensures
            final(self).operation == Some(Operation::Reset),
            final(self).new_mode == Some(Mode::View),
    {
        self.add_op(Operation::Reset);
        self.set_mode(Mode::View);
    }
}

/// An [`Output`] of `operation` that switches to `new_mode`.
pub open spec fn output_of(operation: Option<Operation>, new_mode: Option<Mode>) -> Output {
    Output { operation, new_mode }
}

/// The [`Output`] of pressing `key` in [`Mode::View`].
pub open spec fn view_key_output(key: Key) -> Output {
    match key {
        Key::Esc => output_of(Some(Operation::Reset), None),
        Key::Char('w') => output_of(Some(Operation::Confirm(ConfirmAction::Quit)), Some(Mode::Confirm)),
        Key::Char('s') => output_of(Some(Operation::Document(DocOp::Save)), None),
        Key::Char('o') => output_of(Some(Operation::StartCommand(Command::Open)), Some(Mode::Collect)),
        Key::Char('j') => output_of(
            Some(Operation::Document(DocOp::Move(Vector { direction: Direction::Down, magnitude: Magnitude::Single }))),
            None,
        ),
        Key::Char('k') => output_of(
            Some(Operation::Document(DocOp::Move(Vector { direction: Direction::Up, magnitude: Magnitude::Single }))),
            None,
        ),
        Key::Char('J') => output_of(
            Some(Operation::Document(DocOp::Move(Vector { direction: Direction::Down, magnitude: Magnitude::Half }))),
            None,
        ),
        Key::Char('K') => output_of(
            Some(Operation::Document(DocOp::Move(Vector { direction: Direction::Up, magnitude: Magnitude::Half }))),
            None,
        ),
        Key::Char('d') => output_of(Some(Operation::Document(DocOp::Delete)), None),
        _ => output_of(None, None),
    }
}

/// `output` after the key `key` was decoded into it in [`Mode::View`]: the operation and the
/// mode that the key calls for replace those of `output`.
pub open spec fn key_applied(key: Key, output: Output) -> Output {
    let decoded = view_key_output(key);
    Output {
        operation: if decoded.operation is Some { decoded.operation } else { output.operation },
        new_mode: if decoded.new_mode is Some { decoded.new_mode } else { output.new_mode },
    }
}

/// If `output` is what [`Mode::View`] makes of `input`.
pub open spec fn is_view_output(input: Input, output: Output) -> bool {
    match input {
        Input::User(ui::Input::Key { key, .. }) => output == view_key_output(key),
        Input::User(ui::Input::Resize(size)) => output == output_of(
            Some(Operation::Resize { dimensions: ui::page_dimensions(size) }),
            None,
        ),
        Input::User(ui::Input::Mouse) => output == output_of(None, None),
        Input::File { url, text } => output == output_of(Some(Operation::CreateDoc(File { url, text })), None),
        Input::Glitch(glitch) => output.new_mode is None && match output.operation {
            Some(Operation::Alert(params)) => params.typ == MessageType::Error && params.message@
                == glitch_message(glitch),
            _ => false,
        },
        Input::Config(setting) => output == output_of(Some(Operation::UpdateSetting(setting)), None),
    }
}

/// The [`Output`] that [`Mode::Confirm`] makes of `input`.
pub open spec fn confirm_output(input: Input) -> Output {
    match input {
        Input::User(ui::Input::Key { key: Key::Char('y'), .. }) => output_of(Some(Operation::Quit), None),
        Input::User(_) => output_of(Some(Operation::Reset), Some(Mode::View)),
        _ => output_of(None, None),
    }
}

/// The [`Output`] that [`Mode::Collect`] makes of `input`.
pub open spec fn collect_output(input: Input) -> Output {
    match input {
        Input::User(ui::Input::Key { key: Key::Esc, .. }) => output_of(Some(Operation::Reset), Some(Mode::View)),
        Input::User(ui::Input::Key { key: Key::Enter, .. }) => output_of(Some(Operation::Execute), Some(Mode::View)),
        Input::User(ui::Input::Key { key: Key::Char(c), .. }) => output_of(Some(Operation::Collect(c)), None),
        _ => output_of(None, None),
    }
}

/// If `output` is what the interpreter of `mode` makes of `input`.
pub open spec fn is_mode_output(mode: Mode, input: Input, output: Output) -> bool {
    match mode {
        Mode::View => is_view_output(input, output),
        Mode::Confirm => output == confirm_output(input),
        Mode::Collect => output == collect_output(input),
    }
}

/// The mode after an [`Output`] that switches to `new_mode` was made in `mode`.
pub open spec fn next_mode(mode: Mode, new_mode: Option<Mode>) -> Mode {
    match new_mode {
        Some(switched) => switched,
        None => mode,
    }
}

/// In the mode that confirms an action, every user input but the `y` key cancels the action:
/// the application resets and returns to the mode that views the document.
pub proof fn lemma_confirm_cancels(input: Input, output: Output)
    requires
        input is User,
        !(input matches Input::User(ui::Input::Key { key: Key::Char('y'), .. })),
        is_mode_output(Mode::Confirm, input, output),
    ensures
        output.operation == Some(Operation::Reset),
        next_mode(Mode::Confirm, output.new_mode) == Mode::View,
{
}

/// In the mode that confirms an action, the `y` key quits the application.
pub proof fn lemma_confirm_quits(modifiers: ui::Modifiers, output: Output)
    requires
        is_mode_output(Mode::Confirm, Input::User(ui::Input::Key { key: Key::Char('y'), modifiers }), output),
    ensures
        output.operation == Some(Operation::Quit),
{
}

/// In the mode that collects a command, the escape key drops the command and the enter key
/// executes it; both return to the mode that views the document. Every other character is
/// collected, and the mode stays.
pub proof fn lemma_collect_keys(key: Key, modifiers: ui::Modifiers, output: Output)
    requires
        is_mode_output(Mode::Collect, Input::User(ui::Input::Key { key, modifiers }), output),
    ensures
        key == Key::Esc ==> output.operation == Some(Operation::Reset) && next_mode(Mode::Collect, output.new_mode)
            == Mode::View,
        key == Key::Enter ==> output.operation == Some(Operation::Execute) && next_mode(Mode::Collect, output.new_mode)
            == Mode::View,
        key matches Key::Char(c) ==> output.operation == Some(Operation::Collect(c)) && next_mode(
            Mode::Collect,
            output.new_mode,
        ) == Mode::Collect,
{
}

/// In the mode that views the document, each key, whatever its modifiers, gives its operation:
/// the escape key resets without leaving the mode, `w` asks to confirm quitting, `s` saves, `o`
/// starts the command that opens a file, `j` and `k` move down and up by one, `J` and `K` by
/// half a page, and `d` deletes; every other key gives nothing, and only `w` and `o` switch
/// modes.
pub proof fn lemma_view_keys(key: Key, modifiers: ui::Modifiers, output: Output)
    requires
        is_mode_output(Mode::View, Input::User(ui::Input::Key { key, modifiers }), output),
    ensures
        key == Key::Esc ==> output.operation == Some(Operation::Reset) && output.new_mode is None,
        key == Key::Char('w') ==> output.operation == Some(Operation::Confirm(ConfirmAction::Quit))
            && output.new_mode == Some(Mode::Confirm),
        key == Key::Char('s') ==> output.operation == Some(Operation::Document(DocOp::Save))
            && output.new_mode is None,
        key == Key::Char('o') ==> output.operation == Some(Operation::StartCommand(Command::Open))
            && output.new_mode == Some(Mode::Collect),
        key == Key::Char('j') ==> output.operation == Some(
            Operation::Document(DocOp::Move(Vector { direction: Direction::Down, magnitude: Magnitude::Single })),
        ) && output.new_mode is None,
        key == Key::Char('k') ==> output.operation == Some(
            Operation::Document(DocOp::Move(Vector { direction: Direction::Up, magnitude: Magnitude::Single })),
        ) && output.new_mode is None,
        key == Key::Char('J') ==> output.operation == Some(
            Operation::Document(DocOp::Move(Vector { direction: Direction::Down, magnitude: Magnitude::Half })),
        ) && output.new_mode is None,
        key == Key::Char('K') ==> output.operation == Some(
            Operation::Document(DocOp::Move(Vector { direction: Direction::Up, magnitude: Magnitude::Half })),
        ) && output.new_mode is None,
        key == Key::Char('d') ==> output.operation == Some(Operation::Document(DocOp::Delete))
            && output.new_mode is None,
        !(key == Key::Esc || key == Key::Char('w') || key == Key::Char('s') || key == Key::Char('o')
            || key == Key::Char('j') || key == Key::Char('k') || key == Key::Char('J') || key
            == Key::Char('K') || key == Key::Char('d')) ==> output.operation is None
            && output.new_mode is None,
{
}

/// Decoding a key in the mode that views the document into an output that holds something
/// already: the escape key sets the reset operation and keeps the mode that the output holds,
/// and a key that calls for nothing leaves the output as it is.
pub proof fn lemma_view_key_applied(key: Key, output: Output)
    ensures
        key == Key::Esc ==> key_applied(key, output).operation == Some(Operation::Reset)
            && key_applied(key, output).new_mode == output.new_mode,
        !(key == Key::Esc || key == Key::Char('w') || key == Key::Char('s') || key == Key::Char('o')
            || key == Key::Char('j') || key == Key::Char('k') || key == Key::Char('J') || key
            == Key::Char('K') || key == Key::Char('d')) ==> key_applied(key, output) == output,
        (key == Key::Esc || key == Key::Char('w') || key == Key::Char('s') || key == Key::Char('o')
            || key == Key::Char('j') || key == Key::Char('k') || key == Key::Char('J') || key
            == Key::Char('K') || key == Key::Char('d')) ==> key_applied(key, output).operation
            == view_key_output(key).operation,
        key_applied(key, output_of(None, None)) == view_key_output(key),
        key == Key::Char('w') ==> key_applied(key, output).new_mode == Some(Mode::Confirm),
        key == Key::Char('o') ==> key_applied(key, output).new_mode == Some(Mode::Collect),
        !(key == Key::Char('w') || key == Key::Char('o')) ==> key_applied(key, output).new_mode
            == output.new_mode,
{
}

/// Only the user switches modes: an input that does not come from the user leaves the mode as
/// it is, whatever the mode.
pub proof fn lemma_only_user_switches_mode(mode: Mode, input: Input, output: Output)
    requires
        !(input is User),
        is_mode_output(mode, input, output),
    ensures
        next_mode(mode, output.new_mode) == mode,
{
}

/// Outside of the mode that views the document, inputs that do not come from the user are
/// ignored.
pub proof fn lemma_other_modes_ignore_non_user_input(mode: Mode, input: Input, output: Output)
    requires
        mode != Mode::View,
        !(input is User),
        is_mode_output(mode, input, output),
    ensures
        output.operation is None,
{
}

/// The interpreter of [`Mode::View`].
#[derive(Clone, Copy, Debug)]
pub struct ViewInterpreter {}

impl ViewInterpreter {
    /// Creates a `ViewInterpreter`.
    pub fn new() -> Self {
        Self {}
    }

    /// Converts `output` appropriate to `key`: the operation and the mode that the key calls
    /// for replace those of `output`; a key that calls for none leaves `output` as it was.
    fn decode_key(key: Key, output: &mut Output)
        ensures
            *final(output) == key_applied(key, *old(output)),
    {
        match key {
            Key::Esc => {
                output.add_op(Operation::Reset);
            },
            Key::Char('w') => {
                output.add_op(Operation::Confirm(ConfirmAction::Quit));
                output.set_mode(Mode::Confirm);
            },
            Key::Char('s') => {
                output.add_op(Operation::Document(DocOp::Save));
            },
            Key::Char('o') => {
                output.add_op(Operation::StartCommand(Command::Open));
                output.set_mode(Mode::Collect);
            },
            Key::Char('j') => {
                output.add_op(Operation::Document(DocOp::Move(Vector::new(Direction::Down, Magnitude::Single))));
            },
            Key::Char('k') => {
                output.add_op(Operation::Document(DocOp::Move(Vector::new(Direction::Up, Magnitude::Single))));
            },
            Key::Char('J') => {
                output.add_op(Operation::Document(DocOp::Move(Vector::new(Direction::Down, Magnitude::Half))));
            },
            Key::Char('K') => {
                output.add_op(Operation::Document(DocOp::Move(Vector::new(Direction::Up, Magnitude::Half))));
            },
            Key::Char('d') => {
                output.add_op(Operation::Document(DocOp::Delete));
            },
            Key::Backspace
            | Key::Enter
            | Key::Left
            | Key::Right
            | Key::Up
            | Key::Down
            | Key::Home
            | Key::End
            | Key::PageUp
            | Key::PageDown
            | Key::Tab
            | Key::BackTab
            | Key::Delete
            | Key::Insert
            | Key::F(..)
            | Key::Null
            | Key::Char(..) => {},
        }
    }

    /// Converts `input` to the [`Output`] of [`Mode::View`].
    pub fn decode(&self, input: Input) -> (result: Output)
        ensures
            is_view_output(input, result),
    {
        let mut output = Output::new();
        match input {
            Input::User(user_input) => match user_input {
                ui::Input::Key { key, .. } => {
                    Self::decode_key(key, &mut output);
                },
                ui::Input::Resize(size) => {
                    output.add_op(Operation::Resize { dimensions: Dimensions::from(size) });
                },
                ui::Input::Mouse => {},
            },
            Input::File { url, text } => {
                output.add_op(Operation::CreateDoc(File::new(url, text)));
            },
            Input::Glitch(glitch) => {
                output.add_op(Operation::Alert(ShowMessageParams { typ: MessageType::Error, message: glitch.message() }));
            },
            Input::Config(setting) => {
                output.add_op(Operation::UpdateSetting(setting));
            },
        }
        output
    }
}

/// The interpreter of [`Mode::Confirm`].
#[derive(Clone, Copy, Debug)]
pub struct ConfirmInterpreter {}

impl ConfirmInterpreter {
    /// Creates a new `ConfirmInterpreter`.
    pub fn new() -> Self {
        Self {}
    }

    /// Converts `input` to the [`Output`] of [`Mode::Confirm`].
    pub fn decode(&self, input: Input) -> (result: Output)
        ensures
            result == confirm_output(input),
    {
        let mut output = Output::new();
        match input {
            Input::User(user_input) => match user_input {
                ui::Input::Key { key: Key::Char('y'), .. } => {
                    output.add_op(Operation::Quit);
                },
                ui::Input::Key { .. } | ui::Input::Mouse | ui::Input::Resize(..) => {
                    output.reset();
                },
            },
            Input::File { .. } | Input::Glitch(..) | Input::Config(..) => {},
        }
        output
    }
}

/// The interpreter of [`Mode::Collect`].
#[derive(Clone, Copy, Debug)]
pub struct CollectInterpreter {}

impl CollectInterpreter {
    /// Creates a new `CollectInterpreter`.
    pub fn new() -> Self {
        Self {}
    }

    /// Converts `input` to the [`Output`] of [`Mode::Collect`].
    pub fn decode(&self, input: Input) -> (result: Output)
        ensures
            result == collect_output(input),
    {
        let mut output = Output::new();
        match input {
            Input::User(user_input) => match user_input {
                ui::Input::Key { key: Key::Esc, .. } => {
                    output.reset();
                },
                ui::Input::Key { key: Key::Enter, .. } => {
                    output.add_op(Operation::Execute);
                    output.set_mode(Mode::View);
                },
                ui::Input::Key { key: Key::Char(c), .. } => {
                    output.add_op(Operation::Collect(c));
                },
                ui::Input::Key { .. } | ui::Input::Mouse | ui::Input::Resize(..) => {},
            },
            Input::File { .. } | Input::Glitch(..) | Input::Config(..) => {},
        }
        output
    }
}

/// Manages interpretation for the application.
///
/// How an [`Input`] maps to [`Operation`]s is determined by the [`Mode`] of the
/// [`Interpreter`]; each mode has an interpreter of its own.
#[derive(Clone, Copy, Debug)]
pub struct Interpreter {
    /// Signifies the current [`Mode`] of the [`Interpreter`].
    pub mode: Mode,
    /// The interpreter of [`Mode::View`].
    pub view: ViewInterpreter,
    /// The interpreter of [`Mode::Confirm`].
    pub confirm: ConfirmInterpreter,
    /// The interpreter of [`Mode::Collect`].
    pub collect: CollectInterpreter,
}

impl Interpreter {
    /// Creates an [`Interpreter`] in `mode`.
    pub fn with_mode(mode: Mode) -> (result: Self)
        ensures
            result.mode == mode,
    {
        Self {
            mode,
            view: ViewInterpreter::new(),
            confirm: ConfirmInterpreter::new(),
            collect: CollectInterpreter::new(),
        }
    }

    /// Returns the current [`Mode`] of `self`.
    pub fn mode(&self) -> (result: Mode)
        ensures
            result == self.mode,
    {
        self.mode
    }

    /// Returns the [`Operation`] that maps to `input` given the current [`Mode`], and switches
    /// to the mode that the input leads to.
    pub fn translate(&mut self, input: Input) -> (result: Option<Operation>)
        ensures
            exists|output: Output|
                {
                    &&& is_mode_output(old(self).mode, input, output)
                    &&& result == output.operation
                    &&& final(self).mode == next_mode(old(self).mode, output.new_mode)
                },
    {
        let ghost mode = self.mode;
        let output = match self.mode {
            Mode::View => self.view.decode(input),
            Mode::Confirm => self.confirm.decode(input),
            Mode::Collect => self.collect.decode(input),
        };
        assert(is_mode_output(mode, input, output));
        if let Some(mode) = output.new_mode {
            self.mode = mode;
        }
        assert(self.mode == next_mode(mode, output.new_mode));
        output.operation
    }
}

impl Default for Interpreter {
    fn default() -> (result: Self)
        ensures
            result.mode == Mode::View,
    {
        Self::with_mode(Mode::default())
    }
}

} // verus!
