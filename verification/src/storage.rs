//! Defines the errors of the storages that hold documents.
use vstd::prelude::*;

verus! {

/// The error of receiving from a channel whose sender disconnected, from std.
#[verifier::external_type_specification]
#[verifier::external_body]
pub struct ExRecvError(std::sync::mpsc::RecvError);

/// An error within the Language Server Protocol functionality.
#[derive(Clone, Copy, Debug)]
pub enum LspError {
    /// An error caused by serde_json.
    SerdeJson {
        /// The index of the line where the error occurred.
        line: usize,
        /// The index of the column where the error occurred.
        column: usize,
    },
    /// An error in IO.
    Io,
    /// An error in parsing LSP data.
    Parse,
    /// An error in the LSP protocol.
    Protocol,
    /// An error caused while managing threads.
    Thread(std::sync::mpsc::RecvError),
}

/// Returns the text that `error` shows; this is its `Display` implementation.
#[verifier::external_body]
fn display_recv_error(error: &std::sync::mpsc::RecvError) -> String {
    format!("{}", error)
}

/// Returns the decimal text of `value`: its decimal digits without leading zeros, as
/// `ToString` writes an integer.
pub(crate) fn decimal(value: usize) -> (result: String)
    ensures
        result@ == decimal_text(value as nat),
{
    decimal_of_u64(value as u64)
}

/// Returns the decimal digit `digit`, which is less than 10.
fn digit_of(digit: u64) -> (result: char)
    requires
        digit < 10,
    ensures
        result == digit_char(digit as nat),
{
    if digit == 0 {
        '0'
    } else if digit == 1 {
        '1'
    } else if digit == 2 {
        '2'
    } else if digit == 3 {
        '3'
    } else if digit == 4 {
        '4'
    } else if digit == 5 {
        '5'
    } else if digit == 6 {
        '6'
    } else if digit == 7 {
        '7'
    } else if digit == 8 {
        '8'
    } else {
        '9'
    }
}

/// Returns the decimal text of `value`: its decimal digits without leading zeros.
pub(crate) fn decimal_of_u64(value: u64) -> (result: String)
    ensures
        result@ == decimal_text(value as nat),
    decreases value,
{
    if value < 10 {
        let mut text = String::new();
        crate::app::string_push(&mut text, digit_of(value));
        assert(text@ =~= decimal_text(value as nat));
        text
    } else {
        let mut text = decimal_of_u64(value / 10);
        crate::app::string_push(&mut text, digit_of(value % 10));
        text
    }
}

/// The decimal digit `digit`.
pub open spec fn digit_char(digit: nat) -> char {
    if digit == 0 {
        '0'
    } else if digit == 1 {
        '1'
    } else if digit == 2 {
        '2'
    } else if digit == 3 {
        '3'
    } else if digit == 4 {
        '4'
    } else if digit == 5 {
        '5'
    } else if digit == 6 {
        '6'
    } else if digit == 7 {
        '7'
    } else if digit == 8 {
        '8'
    } else {
        '9'
    }
}

/// The decimal text of `value`, without leading zeros.
pub open spec fn decimal_text(value: nat) -> Seq<char>
    decreases value,
{
    if value < 10 {
        seq![digit_char(value)]
    } else {
        decimal_text(value / 10).push(digit_char(value % 10))
    }
}

/// The text that describes `error`, where it does not come from a thread; for an error of a
/// thread, the start of its text.
pub open spec fn lsp_error_text(error: LspError) -> Seq<char> {
    match error {
        LspError::SerdeJson { line, column } => "Serde Json Error at ("@ + decimal_text(line as nat) + ", "@
            + decimal_text(column as nat) + ")"@,
        LspError::Io => "IO Error"@,
        LspError::Parse => "Parse Error"@,
        LspError::Protocol => "Protocol Error"@,
        LspError::Thread(_) => "Thread Error "@,
    }
}

impl LspError {
    /// Returns the text that describes `self`.
    pub fn message(&self) -> (result: String)
        ensures
            !(*self is Thread) ==> result@ == lsp_error_text(*self),
            *self is Thread ==> lsp_error_text(*self).is_prefix_of(result@),
    {
        match self {
            LspError::SerdeJson { line, column } => String::from_str("Serde Json Error at (").concat(
                decimal(*line).as_str(),
            ).concat(", ").concat(decimal(*column).as_str()).concat(")"),
            LspError::Io => String::from_str("IO Error"),
            LspError::Parse => String::from_str("Parse Error"),
            LspError::Protocol => String::from_str("Protocol Error"),
            LspError::Thread(error) => {
                let result = String::from_str("Thread Error ").concat(display_recv_error(error).as_str());
                proof {
                    reveal_strlit("Thread Error ");
                    assert(result@.subrange(0, 13) =~= "Thread Error "@);
                }
                result
            },
        }
    }
}

impl From<std::sync::mpsc::RecvError> for LspError {
    fn from(error: std::sync::mpsc::RecvError) -> (result: Self)
        ensures
            result is Thread,
    {
        LspError::Thread(error)
    }
}

impl vstd::std_specs::convert::FromSpecImpl<std::sync::mpsc::RecvError> for LspError {
    open spec fn obeys_from_spec() -> bool {
        true
    }

    open spec fn from_spec(error: std::sync::mpsc::RecvError) -> Self {
        LspError::Thread(error)
    }
}

} // verus!
