//! Defines the values that the application exchanges with all external processes.
pub mod config;
pub mod fs;
pub mod logging;
pub mod lsp;
pub mod ui;

use crate::lsp::{ShowMessageRequestParams, TextDocumentIdentifier, TextDocumentItem};
pub use config::Setting;
pub use fs::{File, FileCommand, Language};
use core::convert::TryFrom;
use ui::{DisplayCmd, RowText, Style, StyledText};
use vstd::prelude::*;

verus! {

/// The URL of a file, as text.
pub type PathUrl = String;

/// An error in the user interface that is recoverable.
///
/// Until a glitch is resolved, certain functionality may not be properly completed.
#[derive(Clone, Debug, PartialEq)]
pub enum Glitch {
    /// Config file watcher disconnected.
    WatcherConnection,
    /// Unable to read config file; holds the description of the error.
    ReadConfig(String),
    /// Unable to convert config file to a configuration; holds the description of the error.
    ConfigFormat(String),
}

/// The text describing `glitch` to the user.
pub open spec fn glitch_message(glitch: Glitch) -> Seq<char> {
    match glitch {
        Glitch::WatcherConnection => "config file watcher disconnected"@,
        Glitch::ReadConfig(error) => "unable to read config file: "@ + error@,
        Glitch::ConfigFormat(error) => "config file invalid format: "@ + error@,
    }
}

impl Glitch {
    /// Returns the text describing `self` to the user.
    pub fn message(&self) -> (result: String)
        ensures
            result@ == glitch_message(*self),
    {
        match self {
            Glitch::WatcherConnection => String::from_str("config file watcher disconnected"),
            Glitch::ReadConfig(error) => String::from_str("unable to read config file: ").concat(error.as_str()),
            Glitch::ConfigFormat(error) => String::from_str("config file invalid format: ").concat(error.as_str()),
        }
    }
}

/// An input.
#[derive(Clone, Debug, PartialEq)]
pub enum Input {
    /// An input from the user.
    User(ui::Input),
    /// A file to be opened.
    File {
        /// The URL of the file.
        url: PathUrl,
        /// The text of the file.
        text: String,
    },
    /// An error that is recoverable.
    Glitch(Glitch),
    /// A changed setting.
    Config(Setting),
}

} // verus!

verus! {

/// An output.
#[derive(Clone, Debug, PartialEq)]
pub enum Output {
    /// Retrieves the URL and text of a file.
    ReadFile {
        /// The relative path of the file.
        path: String,
    },
    /// Closes a document.
    CloseDoc {
        /// The document.
        doc: TextDocumentIdentifier,
    },
    /// Opens a document.
    OpenDoc {
        /// The document.
        doc: TextDocumentItem,
    },
    /// Updates the area of the document that is shown.
    UpdateView {
        /// The rows of the document to be shown.
        rows: Vec<RowText>,
    },
    /// Sets the header of the application.
    UpdateHeader,
    /// Asks the user a question.
    Question {
        /// The request to be answered.
        request: ShowMessageRequestParams,
    },
    /// Adds an intake box.
    Command {
        /// The prompt of the intake box.
        command: String,
    },
    /// Quit the application.
    Quit,
    /// Requests the symbols of a document.
    GetDocSymbol {
        /// The document.
        doc: TextDocumentIdentifier,
    },
    /// Shuts down the language servers.
    Shutdown,
}

} // verus!

verus! {

impl TryFrom<Output> for FileCommand {
    type Error = Output;

    fn try_from(value: Output) -> (result: Result<Self, Self::Error>)
        ensures
            match value {
                Output::ReadFile { path } => result == Ok::<FileCommand, Output>(FileCommand::Read { path }),
                _ => result == Err::<FileCommand, Output>(value),
            },
    {
        match value {
            Output::ReadFile { path } => Ok(Self::Read { path }),
            Output::Command { .. }
            | Output::OpenDoc { .. }
            | Output::UpdateHeader
            | Output::UpdateView { .. }
            | Output::Question { .. }
            | Output::CloseDoc { .. }
            | Output::GetDocSymbol { .. }
            | Output::Shutdown
            | Output::Quit => Err(value),
        }
    }
}

impl vstd::std_specs::convert::TryFromSpecImpl<Output> for FileCommand {
    open spec fn obeys_try_from_spec() -> bool {
        true
    }

    open spec fn try_from_spec(value: Output) -> Result<Self, Self::Error> {
        match value {
            Output::ReadFile { path } => Ok(FileCommand::Read { path }),
            _ => Err(value),
        }
    }
}

impl From<FileCommand> for Output {
    fn from(file_cmd: FileCommand) -> (result: Self)
        ensures
            match file_cmd {
                FileCommand::Read { path } => result == Output::ReadFile { path },
            },
    {
        match file_cmd {
            FileCommand::Read { path } => Output::ReadFile { path },
        }
    }
}

impl vstd::std_specs::convert::FromSpecImpl<FileCommand> for Output {
    open spec fn obeys_from_spec() -> bool {
        true
    }

    open spec fn from_spec(file_cmd: FileCommand) -> Self {
        match file_cmd {
            FileCommand::Read { path } => Output::ReadFile { path },
        }
    }
}

/// If `rows` shows the text `message` on a single row, in the default style.
pub open spec fn shows_message(rows: Seq<RowText>, message: String) -> bool {
    &&& rows.len() == 1
    &&& rows[0].texts@ == seq![StyledText { text: message, style: Style::Default }]
}

/// If `result` is the command to the user interface that shows `value`, where `header` is the
/// text of the header; or is `value` where the user interface does not show it.
pub open spec fn is_display_cmd(value: Output, header: String, result: Result<DisplayCmd, Output>) -> bool {
    match value {
        Output::UpdateView { rows } => result == Ok::<DisplayCmd, Output>(DisplayCmd::Rows { rows }),
        Output::Question { request } => result matches Ok(DisplayCmd::Rows { rows }) && shows_message(rows@, request.message),
        Output::Command { command } => result == Ok::<DisplayCmd, Output>(DisplayCmd::Command { command }),
        Output::UpdateHeader => result == Ok::<DisplayCmd, Output>(DisplayCmd::Header { header }),
        _ => result == Err::<DisplayCmd, Output>(value),
    }
}

impl DisplayCmd {
    /// Converts `value` into the command that shows it to the user, where `header` is the
    /// current text of the header; returns `value` where the user interface does not show it.
    pub fn try_from_output(value: Output, header: String) -> (result: Result<Self, Output>)
        ensures
            is_display_cmd(value, header, result),
    {
        match value {
            Output::UpdateView { rows } => Ok(Self::Rows { rows }),
            Output::Question { request } => {
                let mut texts = Vec::new();
                texts.push(StyledText::new(request.message, Style::Default));
                let mut rows = Vec::new();
                rows.push(RowText::new(texts));
                Ok(Self::Rows { rows })
            },
            Output::Command { command } => Ok(Self::Command { command }),
            Output::UpdateHeader => Ok(Self::Header { header }),
            Output::OpenDoc { .. }
            | Output::GetDocSymbol { .. }
            | Output::Shutdown
            | Output::CloseDoc { .. }
            | Output::ReadFile { .. }
            | Output::Quit => Err(value),
        }
    }
}

impl From<DisplayCmd> for Output {
    fn from(display_cmd: DisplayCmd) -> (result: Self)
        ensures
            match display_cmd {
                DisplayCmd::Rows { rows } => result == Output::UpdateView { rows },
                DisplayCmd::Command { command } => result == Output::Command { command },
                DisplayCmd::Header { .. } => result == Output::UpdateHeader,
            },
    {
        match display_cmd {
            DisplayCmd::Rows { rows } => Self::UpdateView { rows },
            DisplayCmd::Command { command } => Self::Command { command },
            DisplayCmd::Header { .. } => Self::UpdateHeader,
        }
    }
}

impl vstd::std_specs::convert::FromSpecImpl<DisplayCmd> for Output {
    open spec fn obeys_from_spec() -> bool {
        true
    }

    open spec fn from_spec(display_cmd: DisplayCmd) -> Self {
        match display_cmd {
            DisplayCmd::Rows { rows } => Output::UpdateView { rows },
            DisplayCmd::Command { command } => Output::Command { command },
            DisplayCmd::Header { .. } => Output::UpdateHeader,
        }
    }
}

impl TryFrom<Output> for () {
    type Error = Output;

    fn try_from(output: Output) -> (result: Result<Self, Self::Error>)
        ensures
            output == Output::Quit ==> result is Ok,
            output != Output::Quit ==> result == Err::<(), Output>(output),
    {
        if let Output::Quit = output {
            Ok(())
        } else {
            Err(output)
        }
    }
}

impl vstd::std_specs::convert::TryFromSpecImpl<Output> for () {
    open spec fn obeys_try_from_spec() -> bool {
        true
    }

    open spec fn try_from_spec(output: Output) -> Result<Self, Self::Error> {
        if output == Output::Quit {
            Ok(())
        } else {
            Err(output)
        }
    }
}

impl From<()> for Output {
    fn from(value: ()) -> (result: Self)
        ensures
            result == Output::Quit,
    {
        Self::Quit
    }
}

impl vstd::std_specs::convert::FromSpecImpl<()> for Output {
    open spec fn obeys_from_spec() -> bool {
        true
    }

    open spec fn from_spec(value: ()) -> Self {
        Output::Quit
    }
}

/// Converting a command to the user interface into an output and back gives the command again,
/// but for the text of the header, which the output does not hold.
pub proof fn lemma_display_cmd_round_trip(display_cmd: DisplayCmd, header: String)
    requires
        !(display_cmd is Header),
    ensures
        is_display_cmd(
            <Output as vstd::std_specs::convert::FromSpec<DisplayCmd>>::from_spec(display_cmd),
            header,
            Ok(display_cmd),
        ),
{
}

/// Converting a file command into an output and back gives the file command again.
pub proof fn lemma_file_cmd_round_trip(file_cmd: FileCommand)
    ensures
        <FileCommand as vstd::std_specs::convert::TryFromSpec<Output>>::try_from_spec(
            <Output as vstd::std_specs::convert::FromSpec<FileCommand>>::from_spec(file_cmd),
        ) == Ok::<FileCommand, Output>(file_cmd),
{
}

} // verus!
