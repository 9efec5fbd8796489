//! Defines the values exchanged with the file system.
use vstd::prelude::*;

verus! {

/// The path of the URL written as `url`, or `None` where `url` is not an absolute URL.
///
/// This is what the `url` crate parses out of the text.
pub uninterp spec fn url_path(url: Seq<char>) -> Option<Seq<char>>;

/// Parses `url` with `url::Url::parse` and returns the text of its path, as given by
/// `url::Url::path`.
///
/// The contract claims that the result depends on `url` alone: it is the path that the
/// `url` crate parses out of the same text, or `None` where that crate does not parse it.
#[verifier::external_body]
fn parsed_url_path(url: &str) -> (result: Option<String>)
    ensures
        match result {
            Some(path) => url_path(url@) == Some(path@),
            None => url_path(url@) is None,
        },
{
    match url::Url::parse(url) {
        Ok(parsed) => Some(parsed.path().to_string()),
        Err(_) => None,
    }
}

/// A language of a document.
#[derive(Clone, Copy, Debug, PartialEq, Eq, Structural)]
pub enum Language {
    /// The Rust language.
    Rust,
}

impl Language {
    /// Returns the identifier of `self` in the Language Server Protocol.
    pub fn id(&self) -> (result: String)
        ensures
            result@ == language_id(*self),
    {
        match self {
            Language::Rust => String::from_str("rust"),
        }
    }
}

/// The identifier of `language` in the Language Server Protocol.
pub open spec fn language_id(language: Language) -> Seq<char> {
    match language {
        Language::Rust => "rust"@,
    }
}

/// If `path` names a Rust source file.
pub open spec fn is_rust_path(path: Seq<char>) -> bool {
    path.len() >= 3 && path.subrange(path.len() - 3, path.len() as int) == ".rs"@
}

/// The [`Language`] of the file at `url`.
pub open spec fn language_of(url: Seq<char>) -> Option<Language> {
    match url_path(url) {
        Some(path) => if is_rust_path(path) {
            Some(Language::Rust)
        } else {
            None
        },
        None => None,
    }
}

/// A file is in Rust exactly when the path of its URL ends with the three characters `.rs`,
/// and no file is in any other language.
pub proof fn lemma_rust_files(url: Seq<char>)
    ensures
        language_of(url) == Some(Language::Rust) <==> (url_path(url) matches Some(path) && path.len()
            >= 3 && path[path.len() - 3] == '.' && path[path.len() - 2] == 'r' && path[path.len() - 1]
            == 's'),
        language_of(url) is None || language_of(url) == Some(Language::Rust),
{
    reveal_strlit(".rs");
    if let Some(path) = url_path(url) {
        if path.len() >= 3 {
            let tail = path.subrange(path.len() - 3, path.len() as int);
            if path[path.len() - 3] == '.' && path[path.len() - 2] == 'r' && path[path.len() - 1] == 's' {
                assert(tail =~= ".rs"@);
            } else if tail == ".rs"@ {
                assert(tail[0] == '.' && tail[1] == 'r' && tail[2] == 's');
            }
        }
    }
}

/// Returns if `text` ends with `.rs`.
fn ends_with_rs(text: &str) -> (result: bool)
    ensures
        result == is_rust_path(text@),
{
    proof {
        reveal_strlit(".rs");
    }
    let len = text.unicode_len();
    if len < 3 {
        return false;
    }
    let dot = text.get_char(len - 3);
    let r = text.get_char(len - 2);
    let s = text.get_char(len - 1);
    let result = dot == '.' && r == 'r' && s == 's';
    proof {
        let tail = text@.subrange(len - 3, len as int);
        if result {
            assert(tail =~= ".rs"@);
        } else {
            assert(tail != ".rs"@ ) by {
                if tail == ".rs"@ {
                    assert(tail[0] == '.' && tail[1] == 'r' && tail[2] == 's');
                }
            }
        }
    }
    result
}

/// A struct that represents a file.
#[derive(Clone, Debug, PartialEq)]
pub struct File {
    /// The URL of the file.
    pub url: String,
    /// The text of a file.
    pub text: String,
}

impl File {
    /// Creates a [`File`] with `text` located at `url`.
    pub fn new(url: String, text: String) -> (result: Self)
        ensures
            result.url == url,
            result.text == text,
    {
        Self { url, text }
    }

    /// Returns a reference to the text of `self`.
    pub fn text(&self) -> (result: &String)
        ensures
            *result == self.text,
    {
        &self.text
    }

    /// Returns a reference to the URL of `self`.
    pub fn url(&self) -> (result: &String)
        ensures
            *result == self.url,
    {
        &self.url
    }

    /// Returns the `Language` of `self`.
    pub fn language(&self) -> (result: Option<Language>)
        ensures
            result == language_of(self.url@),
    {
        match parsed_url_path(self.url.as_str()) {
            Some(path) => if ends_with_rs(path.as_str()) {
                Some(Language::Rust)
            } else {
                None
            },
            None => None,
        }
    }
}

/// Specifies a command to be executed on a file.
#[derive(Clone, Debug, PartialEq)]
pub enum FileCommand {
    /// Reads from the file at `path`.
    Read {
        /// The relative path of the file.
        path: String,
    },
}

} // verus!

verus! {

/// An error determining the root directory.
#[derive(Debug)]
pub enum RootDirError {
    /// An error determining the current working directory.
    GetWorkingDir(std::io::Error),
    /// An error creating the URL of the root directory; holds the directory as text.
    Create(String),
}

/// The kind of an input or output error, from std.
#[verifier::external_type_specification]
#[verifier::external_body]
pub struct ExIoErrorKind(std::io::ErrorKind);

/// An error while reading a file.
#[derive(Debug)]
pub struct ReadFileGlitch {
    /// The error.
    error: std::io::ErrorKind,
    /// The path of the file being read.
    file: String,
}

/// Returns the text that `kind` shows; this is its `Debug` implementation.
#[verifier::external_body]
pub(crate) fn debug_io_error_kind(kind: &std::io::ErrorKind) -> String {
    format!("{:?}", kind)
}

impl RootDirError {
    /// Returns the text that describes `self`.
    pub fn message(&self) -> (result: String)
        ensures
            match *self {
                RootDirError::GetWorkingDir(_) => "find valid current working directory: "@.is_prefix_of(result@),
                RootDirError::Create(dir) => result@ == "create URL of root directory `"@ + dir@ + "`"@,
            },
    {
        match self {
            RootDirError::GetWorkingDir(error) => {
                let result = String::from_str("find valid current working directory: ").concat(
                    crate::canvas::io_error_text(error).as_str(),
                );
                proof {
                    reveal_strlit("find valid current working directory: ");
                    assert(result@.subrange(0, 38) =~= "find valid current working directory: "@);
                }
                result
            },
            RootDirError::Create(dir) => String::from_str("create URL of root directory `").concat(dir.as_str()).concat(
                "`",
            ),
        }
    }
}

impl ReadFileGlitch {
    /// Creates the [`ReadFileGlitch`] of `error` while reading `file`.
    pub fn new(error: std::io::ErrorKind, file: String) -> (result: Self)
        ensures
            result.file() == file@,
    {
        Self { error, file }
    }

    /// The path of the file being read.
    pub closed spec fn file(self) -> Seq<char> {
        self.file@
    }

    /// Returns the text that describes `self`.
    pub fn message(&self) -> (result: String)
        ensures
            ("Failed to read `"@ + self.file() + "`: "@).is_prefix_of(result@),
    {
        let prefix = String::from_str("Failed to read `").concat(self.file.as_str()).concat("`: ");
        let result = prefix.concat(debug_io_error_kind(&self.error).as_str());
        assert(result@.subrange(0, prefix@.len() as int) =~= prefix@);
        result
    }
}

} // verus!
