//! Defines the values of the Language Server Protocol that the editor exchanges.
use vstd::prelude::*;

verus! {

/// A position in a text document: a zero-based line and a zero-based character offset.
#[derive(Clone, Copy, Debug, PartialEq, Eq, Structural)]
pub struct Position {
    /// The line of the position.
    pub line: u32,
    /// The offset of the position within its line.
    pub character: u32,
}

impl Position {
    /// Creates a new [`Position`].
    pub fn new(line: u32, character: u32) -> (result: Self)
        ensures
            result == (Position { line, character }),
    {
        Self { line, character }
    }
}

/// A range in a text document, from `start` to `end`.
#[derive(Clone, Copy, Debug, PartialEq, Eq, Structural)]
pub struct Range {
    /// The start of the range.
    pub start: Position,
    /// The end of the range.
    pub end: Position,
}

impl Range {
    /// Creates a new [`Range`].
    pub fn new(start: Position, end: Position) -> (result: Self)
        ensures
            result == (Range { start, end }),
    {
        Self { start, end }
    }
}

/// The kind of a message shown to the user.
#[derive(Clone, Copy, Debug, PartialEq, Eq, Structural)]
pub enum MessageType {
    /// An error message.
    Error,
    /// A warning message.
    Warning,
    /// An information message.
    Info,
    /// A log message.
    Log,
}

/// A message to be shown to the user.
#[derive(Clone, Debug, PartialEq)]
pub struct ShowMessageParams {
    /// The kind of the message.
    pub typ: MessageType,
    /// The text of the message.
    pub message: String,
}

/// A message that asks the user a question.
#[derive(Clone, Debug, PartialEq)]
pub struct ShowMessageRequestParams {
    /// The kind of the message.
    pub typ: MessageType,
    /// The text of the message.
    pub message: String,
    /// The titles of the actions that the user may choose from.
    pub actions: Option<Vec<String>>,
}

/// Identifies a text document.
#[derive(Clone, Debug, PartialEq)]
pub struct TextDocumentIdentifier {
    /// The URI of the document.
    pub uri: String,
}

impl TextDocumentIdentifier {
    /// Creates a new [`TextDocumentIdentifier`].
    pub fn new(uri: String) -> (result: Self)
        ensures
            result.uri == uri,
    {
        Self { uri }
    }
}

/// A text document transferred from the client to the server.
#[derive(Clone, Debug, PartialEq)]
pub struct TextDocumentItem {
    /// The URI of the document.
    pub uri: String,
    /// The identifier of the language of the document.
    pub language_id: String,
    /// The version number of the document.
    pub version: i32,
    /// The content of the document.
    pub text: String,
}

impl TextDocumentItem {
    /// Creates a new [`TextDocumentItem`].
    pub fn new(uri: String, language_id: String, version: i32, text: String) -> (result: Self)
        ensures
            result.uri == uri,
            result.language_id == language_id,
            result.version == version,
            result.text == text,
    {
        Self { uri, language_id, version, text }
    }
}

/// A symbol of a text document, as a language server reports it: a named range and the symbols
/// within it.
#[derive(Debug)]
pub struct DocumentSymbol {
    /// The name of the symbol.
    pub name: String,
    /// The range that the symbol spans.
    pub range: Range,
    /// The range that is selected when the symbol is picked, such as its name.
    pub selection_range: Range,
    /// The symbols within the symbol.
    pub children: Option<Vec<DocumentSymbol>>,
}

/// How a text document is synced with a language server.
#[derive(Clone, Copy, Debug, PartialEq, Eq, Structural)]
pub enum TextDocumentSyncKind {
    /// Documents are not synced.
    NoSync,
    /// Documents are synced by sending their whole text.
    Full,
    /// Documents are synced by sending the changes to their text.
    Incremental,
}

/// The options of syncing text documents with a language server.
#[derive(Clone, Copy, Debug, PartialEq, Eq, Structural)]
pub struct TextDocumentSyncOptions {
    /// If open and close notifications are sent to the server.
    pub open_close: Option<bool>,
    /// How change notifications are sent to the server.
    pub change: Option<TextDocumentSyncKind>,
    /// If notifications that a document will be saved are sent to the server.
    pub will_save: Option<bool>,
}

/// How a language server wants text documents to be synced.
#[derive(Clone, Copy, Debug, PartialEq, Eq, Structural)]
pub enum TextDocumentSyncCapability {
    /// Only how changes are sent.
    Kind(TextDocumentSyncKind),
    /// All the options.
    Options(TextDocumentSyncOptions),
}

/// The capabilities of a language server.
#[derive(Clone, Copy, Debug, PartialEq, Eq, Structural)]
pub struct ServerCapabilities {
    /// How text documents are synced with the server.
    pub text_document_sync: Option<TextDocumentSyncCapability>,
}

/// The result of initializing a language server.
#[derive(Clone, Copy, Debug, PartialEq, Eq, Structural)]
pub struct InitializeResult {
    /// The capabilities of the server.
    pub capabilities: ServerCapabilities,
}

} // verus!
