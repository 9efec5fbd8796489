//! Implements the configuration of the logging of the application.
use vstd::prelude::*;

verus! {

/// The minimum level of the logs that are written.
#[derive(Clone, Copy, Debug, PartialEq, Eq, Structural)]
pub enum Level {
    /// Warnings and errors are written.
    Warn,
    /// Information, warnings and errors are written.
    Info,
    /// Everything but traces is written.
    Debug,
    /// Everything is written.
    Trace,
}

/// The level of logs for `verbosity` occurrences of the verbose flag.
pub open spec fn level_of(verbosity: u64) -> Level {
    if verbosity == 0 {
        Level::Warn
    } else if verbosity == 1 {
        Level::Info
    } else if verbosity == 2 {
        Level::Debug
    } else {
        Level::Trace
    }
}

/// The name of the log that holds the logs of starship.
pub open spec fn starship_log() -> Seq<char> {
    "starship"@
}

/// Implements writing logs to a file.
#[derive(Clone, Copy, Debug, PartialEq, Eq, Structural)]
pub struct Config {
    /// Defines if logs from starship are written.
    pub is_starship_enabled: bool,
    /// The minimum level of logs to be written.
    pub level: Level,
}

impl Default for Config {
    fn default() -> (result: Self)
        ensures
            result == (Config { level: Level::Warn, is_starship_enabled: false }),
    {
        Self { level: Level::Warn, is_starship_enabled: false }
    }
}

/// If the texts `a` and `b` are equal.
fn text_eq(a: &str, b: &str) -> (result: bool)
    ensures
        result == (a@ == b@),
{
    let length = a.unicode_len();
    if length != b.unicode_len() {
        return false;
    }
    let mut index: usize = 0;
    while index < length
        invariant
            length == a@.len() == b@.len(),
            index <= length,
            forall|i: int| 0 <= i < index ==> a@[i] == b@[i],
        decreases length - index,
    {
        if a.get_char(index) != b.get_char(index) {
            return false;
        }
        index = index + 1;
    }
    assert(a@ =~= b@);
    true
}

/// If `prefix` is a prefix of `text`.
fn text_starts_with(text: &str, prefix: &str) -> (result: bool)
    ensures
        result == prefix@.is_prefix_of(text@),
{
    let length = prefix.unicode_len();
    if length > text.unicode_len() {
        return false;
    }
    let mut index: usize = 0;
    while index < length
        invariant
            length == prefix@.len() <= text@.len(),
            index <= length,
            forall|i: int| 0 <= i < index ==> prefix@[i] == text@[i],
        decreases length - index,
    {
        if prefix.get_char(index) != text.get_char(index) {
            return false;
        }
        index = index + 1;
    }
    assert(text@.subrange(0, length as int) =~= prefix@);
    true
}

impl Config {
    /// Creates the [`Config`] that the arguments of the command give: `verbosity` is the
    /// number of occurrences of the verbose flag and `log` the value of the log argument.
    pub fn from_arguments(verbosity: u64, log: Option<&str>) -> (result: Self)
        ensures
            result.level == level_of(verbosity),
            result.is_starship_enabled == (log matches Some(name) && name@ == starship_log()),
    {
        Self {
            level: match verbosity {
                0 => Level::Warn,
                1 => Level::Info,
                2 => Level::Debug,
                _ => Level::Trace,
            },
            is_starship_enabled: match log {
                Some(name) => text_eq(name, "starship"),
                None => false,
            },
        }
    }

    /// If a log record from `target` is written: those from starship only where they are
    /// enabled, all others always.
    pub fn enabled(&self, target: &str) -> (result: bool)
        ensures
            result == if starship_log().is_prefix_of(target@) {
                self.is_starship_enabled
            } else {
                true
            },
    {
        if text_starts_with(target, "starship") {
            self.is_starship_enabled
        } else {
            true
        }
    }
}

/// More occurrences of the verbose flag never write fewer logs.
pub proof fn lemma_verbosity_widens(fewer: u64, more: u64)
    requires
        fewer <= more,
    ensures
        level_rank(level_of(fewer)) <= level_rank(level_of(more)),
{
}

/// The rank of `level`: a higher rank writes more logs.
pub open spec fn level_rank(level: Level) -> int {
    match level {
        Level::Warn => 0,
        Level::Info => 1,
        Level::Debug => 2,
        Level::Trace => 3,
    }
}

} // verus!
