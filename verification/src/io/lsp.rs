//! Defines the errors of the interface to the language server.
pub mod utils;

use crate::lsp::{InitializeResult, TextDocumentSyncCapability, TextDocumentSyncKind};
use vstd::prelude::*;

verus! {

/// An error while spawning the language server process.
#[derive(Debug)]
pub struct SpawnServerError {
    /// The command.
    command: String,
    /// The error.
    error: std::io::Error,
}

impl SpawnServerError {
    /// Creates the [`SpawnServerError`] of `error` while spawning `command`.
    pub fn new(command: String, error: std::io::Error) -> (result: Self)
        ensures
            result.command() == command@,
    {
        Self { command, error }
    }

    /// The command that failed to spawn.
    pub closed spec fn command(self) -> Seq<char> {
        self.command@
    }

    /// Returns the text that describes `self`.
    pub fn message(&self) -> (result: String)
        ensures
            ("unable to spawn process `"@ + self.command() + "`: "@).is_prefix_of(result@),
    {
        let prefix = String::from_str("unable to spawn process `").concat(self.command.as_str()).concat("`: ");
        let result = prefix.concat(crate::canvas::io_error_text(&self.error).as_str());
        assert(result@.subrange(0, prefix@.len() as int) =~= prefix@);
        result
    }
}

/// An error while accessing the stdio of the language server process.
#[derive(Clone, Debug, PartialEq, Eq)]
pub struct AccessIoError {
    /// The type of the stdio.
    stdio_type: String,
}

impl AccessIoError {
    /// The type of the stdio that could not be accessed.
    pub closed spec fn stdio_type(self) -> Seq<char> {
        self.stdio_type@
    }

    /// Returns the text that describes `self`.
    pub fn message(&self) -> (result: String)
        ensures
            result@ == "unable to access "@ + self.stdio_type() + " of language server"@,
    {
        String::from_str("unable to access ").concat(self.stdio_type.as_str()).concat(" of language server")
    }
}

impl<'a> From<&'a str> for AccessIoError {
    fn from(value: &'a str) -> (result: Self)
        ensures
            result.stdio_type() == value@,
    {
        Self { stdio_type: value.to_owned() }
    }
}

impl<'a> vstd::std_specs::convert::FromSpecImpl<&'a str> for AccessIoError {
    /// The error holds a `String`, which has no value in specifications: the `ensures` of
    /// `from` states the result instead.
    open spec fn obeys_from_spec() -> bool {
        false
    }

    open spec fn from_spec(value: &'a str) -> Self {
        arbitrary()
    }
}

/// A response of a language server.
#[derive(Clone, Copy, Debug, PartialEq, Eq, Structural)]
pub enum ServerResponse {
    /// The server is initialized.
    Initialize,
    /// The server shut down.
    Shutdown,
}

/// A message of a language server.
#[derive(Clone, Copy, Debug, PartialEq, Eq, Structural)]
pub enum ServerMessage {
    /// The server requests something; the request is identified by `id`.
    Request {
        /// The identifier of the request.
        id: u64,
    },
    /// The server responds.
    Response(ServerResponse),
}

/// A response of the client to a language server.
#[derive(Clone, Copy, Debug, PartialEq, Eq, Structural)]
pub enum ClientResponse {
    /// The client registers the capability that the server asked for.
    RegisterCapability,
}

/// A request of the client to a language server.
#[derive(Clone, Copy, Debug, PartialEq, Eq, Structural)]
pub enum ClientRequest {
    /// The client took note of the initialization.
    Initialized,
    /// The server shall shut down.
    Shutdown,
    /// The server shall exit.
    Exit,
}

/// A message of the client to a language server.
#[derive(Clone, Copy, Debug, PartialEq, Eq, Structural)]
pub enum ClientMessage {
    /// The client responds to the request `id`.
    Response {
        /// The identifier of the request.
        id: u64,
        /// The response.
        response: ClientResponse,
    },
    /// The client requests something.
    Request(ClientRequest),
}

/// The message that the client answers `message` with, if any.
pub open spec fn answer(message: ServerMessage) -> Option<ClientMessage> {
    match message {
        ServerMessage::Request { id } => Some(ClientMessage::Response { id, response: ClientResponse::RegisterCapability }),
        ServerMessage::Response(ServerResponse::Initialize) => Some(ClientMessage::Request(ClientRequest::Initialized)),
        ServerMessage::Response(ServerResponse::Shutdown) => None,
    }
}

/// The state after the thread asks for the request to shut down that a drop calls for, and
/// that request, if any.
pub open spec fn shutdown_step(state: LanguageToolState) -> (LanguageToolState, Option<ClientMessage>) {
    if state.is_dropping {
        (LanguageToolState { is_dropping: false, ..state }, Some(ClientMessage::Request(ClientRequest::Shutdown)))
    } else {
        (state, None)
    }
}

/// The state of the thread that talks to the language servers: the decisions of its loop.
///
/// The loop runs while the server has not shut down: each message of the server is answered,
/// a request to drop the tool sends the server one request to shut down, and once the server
/// has shut down, it is told to exit.
#[derive(Clone, Copy, Debug, PartialEq, Eq, Structural)]
pub struct LanguageToolState {
    /// If the server has shut down.
    pub is_shutdown: bool,
    /// If the tool is being dropped and the server has not been asked to shut down yet.
    pub is_dropping: bool,
}

impl LanguageToolState {
    /// The state of a thread that starts.
    pub fn new() -> (result: Self)
        ensures
            !result.is_shutdown,
            !result.is_dropping,
    {
        Self { is_shutdown: false, is_dropping: false }
    }

    /// If the loop of the thread goes on.
    pub fn is_running(&self) -> (result: bool)
        ensures
            result == !self.is_shutdown,
    {
        !self.is_shutdown
    }

    /// Takes in `message` from the server, returning the message that answers it, if any.
    pub fn receive(&mut self, message: ServerMessage) -> (result: Option<ClientMessage>)
        ensures
            result == answer(message),
            final(self).is_shutdown == (old(self).is_shutdown || message == ServerMessage::Response(
                ServerResponse::Shutdown,
            )),
            final(self).is_dropping == old(self).is_dropping,
    {
        match message {
            ServerMessage::Request { id } => Some(
                ClientMessage::Response { id, response: ClientResponse::RegisterCapability },
            ),
            ServerMessage::Response(ServerResponse::Initialize) => Some(ClientMessage::Request(ClientRequest::Initialized)),
            ServerMessage::Response(ServerResponse::Shutdown) => {
                self.is_shutdown = true;
                None
            },
        }
    }

    /// Notes that the tool is being dropped.
    pub fn request_drop(&mut self)
        ensures
            final(self).is_dropping,
            final(self).is_shutdown == old(self).is_shutdown,
    {
        self.is_dropping = true;
    }

    /// Returns the request to shut down that a drop calls for, once for each request to drop.
    pub fn shutdown_request(&mut self) -> (result: Option<ClientMessage>)
        ensures
            (*final(self), result) == shutdown_step(*old(self)),
    {
        if self.is_dropping {
            self.is_dropping = false;
            Some(ClientMessage::Request(ClientRequest::Shutdown))
        } else {
            None
        }
    }

    /// Returns the request that ends the server, once the loop is over.
    pub fn exit_request(&self) -> (result: ClientMessage)
        ensures
            result == ClientMessage::Request(ClientRequest::Exit),
    {
        ClientMessage::Request(ClientRequest::Exit)
    }
}

/// A request to drop the tool is answered by exactly one request to shut down: asking for it
/// again without a new request to drop gives none.
pub proof fn lemma_shutdown_requested_once(state: LanguageToolState)
    requires
        state.is_dropping,
    ensures
        shutdown_step(state).1 == Some(ClientMessage::Request(ClientRequest::Shutdown)),
        shutdown_step(shutdown_step(state).0).1 is None,
{
}

/// Only the response of the server that it shut down ends the loop; every other message is
/// answered.
pub proof fn lemma_only_shutdown_ends(message: ServerMessage)
    ensures
        answer(message) is None <==> message == ServerMessage::Response(ServerResponse::Shutdown),
{
}

/// Settings of the language server: which notifications the client sends it.
#[derive(Clone, Copy, Debug, PartialEq, Eq, Structural)]
pub struct LspSettings {
    /// The client should send open and close notifications.
    pub notify_open_close: bool,
    /// How the client should send change notifications.
    pub notify_changes_kind: TextDocumentSyncKind,
    /// The client should send save notifications.
    pub notify_save: bool,
}

impl Default for LspSettings {
    fn default() -> (result: Self)
        ensures
            result == (LspSettings {
                notify_open_close: false,
                notify_changes_kind: TextDocumentSyncKind::NoSync,
                notify_save: false,
            }),
    {
        Self { notify_open_close: false, notify_changes_kind: TextDocumentSyncKind::NoSync, notify_save: false }
    }
}

/// The settings that a language server asks for with `value`: where it gives a kind of
/// syncing other than none, the client sends open and close notifications and changes of that
/// kind; where it gives options, each option that it sets is followed.
pub open spec fn settings_of(value: InitializeResult) -> LspSettings {
    let default = LspSettings {
        notify_open_close: false,
        notify_changes_kind: TextDocumentSyncKind::NoSync,
        notify_save: false,
    };
    match value.capabilities.text_document_sync {
        None => default,
        Some(TextDocumentSyncCapability::Kind(kind)) => if kind != TextDocumentSyncKind::NoSync {
            LspSettings { notify_open_close: true, notify_changes_kind: kind, ..default }
        } else {
            default
        },
        Some(TextDocumentSyncCapability::Options(options)) => LspSettings {
            notify_open_close: match options.open_close {
                Some(open_close) => open_close,
                None => false,
            },
            notify_changes_kind: match options.change {
                Some(change) => change,
                None => TextDocumentSyncKind::NoSync,
            },
            notify_save: match options.will_save {
                Some(will_save) => will_save,
                None => false,
            },
        },
    }
}

impl From<InitializeResult> for LspSettings {
    fn from(value: InitializeResult) -> (result: Self)
        ensures
            result == settings_of(value),
    {
        let mut settings = Self::default();
        if let Some(text_document_sync) = value.capabilities.text_document_sync {
            match text_document_sync {
                TextDocumentSyncCapability::Kind(kind) => {
                    if kind != TextDocumentSyncKind::NoSync {
                        settings.notify_open_close = true;
                        settings.notify_changes_kind = kind;
                    }
                },
                TextDocumentSyncCapability::Options(options) => {
                    if let Some(open_close) = options.open_close {
                        settings.notify_open_close = open_close;
                    }
                    if let Some(change) = options.change {
                        settings.notify_changes_kind = change;
                    }
                    if let Some(will_save) = options.will_save {
                        settings.notify_save = will_save;
                    }
                },
            }
        }
        settings
    }
}

impl vstd::std_specs::convert::FromSpecImpl<InitializeResult> for LspSettings {
    open spec fn obeys_from_spec() -> bool {
        true
    }

    open spec fn from_spec(value: InitializeResult) -> Self {
        settings_of(value)
    }
}

} // verus!
