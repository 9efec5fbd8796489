//! Defines the controls that the user applies to a document.
use crate::rec::{
    class_regex, compiles, escaped, grouped, match_count, opt, some, token_text, Atom, ChCls,
    Pattern, Quantifier, Rec,
};
use vstd::prelude::*;

verus! {

/// Identifies an edge of a range.
#[derive(Clone, Copy, Debug, PartialEq, Eq, Structural)]
pub enum Edge {
    /// The start of the range.
    Start,
    /// The end of the range.
    End,
}

/// The name of `edge`, as it is shown to the user.
pub open spec fn edge_name(edge: Edge) -> Seq<char> {
    match edge {
        Edge::Start => "Start"@,
        Edge::End => "End"@,
    }
}

impl Edge {
    /// Returns the name of `self`, as it is shown to the user.
    pub fn name(&self) -> (result: String)
        ensures
            result@ == edge_name(*self),
    {
        match self {
            Edge::Start => String::from_str("Start"),
            Edge::End => String::from_str("End"),
        }
    }
}

/// A command that the user gives.
#[derive(Clone, Debug, PartialEq, Eq)]
pub enum Command {
    /// Shows the file at the path.
    See(String),
    /// Saves the document.
    Put,
    /// A command that is not known.
    Unknown(String),
    /// Ends the application.
    End,
}

/// What the user asks of the document: a command, or a pattern to select.
pub enum Ability {
    /// A command, if one was given.
    Command(Option<Command>),
    /// A pattern, if a valid one was given.
    Pattern(Option<Pattern>),
}

impl Default for Ability {
    fn default() -> (result: Self)
        ensures
            result matches Ability::Command(None),
    {
        Ability::Command(None)
    }
}

/// Why a text is no ability: the first character of the text, where it has one.
#[derive(Clone, Copy, Debug, PartialEq, Eq, Structural)]
pub enum ParseAbilityError {
    /// The text is no ability.
    Ability(Option<char>),
}

/// The regular expression `regex` made a capturing group named `name`.
pub open spec fn named(name: Seq<char>, regex: Seq<char>) -> Seq<char> {
    "(?P<"@ + name + ">"@ + regex + ")"@
}

/// The regular expression of an ability: a command (a dot, then, optionally, the command and,
/// after whitespace, its arguments) or a filter (a slash, then, optionally, the filter), and
/// nothing else.
pub open spec fn ability_regex() -> Seq<char> {
    let command = named("command"@, grouped(class_regex(ChCls::Any)) + ("+"@ + "?"@));
    let args = named("args"@, grouped(class_regex(ChCls::Any)) + "+"@);
    let spacing = grouped(class_regex(ChCls::WhSpc)) + "+"@ + (grouped(args) + "?"@);
    let command_ability = named(
        "command_ability"@,
        escaped("."@) + (grouped(command + (grouped(spacing) + "?"@)) + "?"@),
    );
    let filter = named("filter"@, grouped(class_regex(ChCls::Any)) + "+"@);
    let filter_ability = named("filter_ability"@, escaped("/"@) + (grouped(filter) + "?"@));
    escaped("^"@) + grouped(command_ability + "|"@ + filter_ability) + class_regex(ChCls::End)
}

/// The text that the group `name` of the regular expression of an ability captures in the
/// leftmost match in `text`.
pub open spec fn ability_token(text: Seq<char>, name: Seq<char>) -> Option<Seq<char>> {
    token_text(ability_regex(), text, 0, name)
}

/// If `command` is the command named `name` with the arguments `args`: `see` shows the file of
/// its arguments, `put` saves, `end` ends, and any other name is not known.
pub open spec fn is_command(command: Command, name: Seq<char>, args: Option<Seq<char>>) -> bool {
    if name == "see"@ {
        command matches Command::See(path) && path@ == match args {
            Some(args) => args,
            None => Seq::empty(),
        }
    } else if name == "put"@ {
        command is Put
    } else if name == "end"@ {
        command is End
    } else {
        command matches Command::Unknown(unknown) && unknown@ == name
    }
}

/// The first character of `text`, if it has one.
pub open spec fn first_char(text: Seq<char>) -> Option<char> {
    if text.len() > 0 {
        Some(text[0])
    } else {
        None
    }
}

/// Returns if `a` and `b` are the same text.
fn same_text(a: &str, b: &str) -> (result: bool)
    ensures
        result == (a@ == b@),
{
    let n = a.unicode_len();
    if n != b.unicode_len() {
        return false;
    }
    let mut i: usize = 0;
    while i < n
        invariant
            n == a@.len(),
            n == b@.len(),
            i <= n,
            forall|j: int| 0 <= j < i ==> a@[j] == b@[j],
        decreases n - i,
    {
        if a.get_char(i) != b.get_char(i) {
            return false;
        }
        i = i + 1;
    }
    assert(a@ =~= b@);
    true
}

/// Returns the regular expression of an ability.
fn ability_rec() -> (result: Rec)
    ensures
        result@ == ability_regex(),
{
    let command = ChCls::Any.rpt(some().lazy()).name("command");
    let args = ChCls::Any.rpt(some()).name("args");
    let spacing = ChCls::WhSpc.rpt(some()) + args.quantify(opt());
    let command_ability = (".".rec() + (command + spacing.quantify(opt())).quantify(opt())).name(
        "command_ability",
    );
    let filter = ChCls::Any.rpt(some()).name("filter");
    let filter_ability = ("/".rec() + filter.quantify(opt())).name("filter_ability");
    "^".rec() + (command_ability | filter_ability) + ChCls::End
}

impl Ability {
    /// Parses the ability that `s` describes: a command or a filter.
    pub fn parse(s: &str) -> (result: Result<Ability, ParseAbilityError>)
        ensures
            !compiles(ability_regex()) ==> result matches Err(ParseAbilityError::Ability(None)),
            compiles(ability_regex()) ==> if match_count(ability_regex(), s@) == 0 {
                result == Err::<Ability, ParseAbilityError>(
                    ParseAbilityError::Ability(first_char(s@)),
                )
            } else if ability_token(s@, "command_ability"@) is Some {
                match ability_token(s@, "command"@) {
                    None => result matches Ok(Ability::Command(None)),
                    Some(name) => result matches Ok(Ability::Command(Some(command))) && is_command(
                        command,
                        name,
                        ability_token(s@, "args"@),
                    ),
                }
            } else if ability_token(s@, "filter_ability"@) is Some {
                match ability_token(s@, "filter"@) {
                    None => result matches Ok(Ability::Pattern(None)),
                    Some(filter) => result matches Ok(Ability::Pattern(pattern)) && (pattern is Some
                        <==> compiles(filter)) && (pattern matches Some(compiled)
                        ==> compiled.source() == filter),
                }
            } else {
                result matches Err(ParseAbilityError::Ability(None))
            },
    {
        proof {
            reveal_strlit("command_ability");
            reveal_strlit("command");
            reveal_strlit("args");
            reveal_strlit("filter_ability");
            reveal_strlit("filter");
            reveal_strlit("see");
            reveal_strlit("put");
            reveal_strlit("end");
        }
        let pattern = match Pattern::try_define(ability_rec()) {
            Some(pattern) => pattern,
            None => return Err(ParseAbilityError::Ability(None)),
        };
        let tokens = pattern.tokenize(s);
        if !tokens.has_match() {
            let first = if s.unicode_len() > 0 {
                Some(s.get_char(0))
            } else {
                None
            };
            return Err(ParseAbilityError::Ability(first));
        }
        if tokens.get("command_ability").is_some() {
            match tokens.get("command") {
                None => Ok(Ability::Command(None)),
                Some(name) => {
                    let command = if same_text(name, "see") {
                        Command::See(
                            match tokens.get("args") {
                                Some(args) => String::from_str(args),
                                None => String::new(),
                            },
                        )
                    } else if same_text(name, "put") {
                        Command::Put
                    } else if same_text(name, "end") {
                        Command::End
                    } else {
                        Command::Unknown(String::from_str(name))
                    };
                    Ok(Ability::Command(Some(command)))
                },
            }
        } else if tokens.get("filter_ability").is_some() {
            match tokens.get("filter") {
                None => Ok(Ability::Pattern(None)),
                Some(filter) => Ok(Ability::Pattern(Pattern::from_text(filter))),
            }
        } else {
            Err(ParseAbilityError::Ability(None))
        }
    }
}

impl core::str::FromStr for Ability {
    type Err = ParseAbilityError;

    fn from_str(s: &str) -> Result<Self, Self::Err> {
        Ability::parse(s)
    }
}

} // verus!
