//! Builds regular expressions out of parts, and matches text against them.
use core::ops::{Add, BitOr};
use vstd::prelude::*;

verus! {

/// A compiled regular expression, from regex.
#[verifier::external_type_specification]
#[verifier::external_body]
pub struct ExRegex(regex::Regex);

/// The groups that a regular expression captured in a text, from regex.
#[verifier::external_type_specification]
#[verifier::external_body]
pub struct ExCaptures<'h>(regex::Captures<'h>);

/// An iterator over the captures of each match of a regular expression in a text, from regex.
#[verifier::external_type_specification]
#[verifier::external_body]
pub struct ExCaptureMatches<'r, 'h>(regex::CaptureMatches<'r, 'h>);

/// If the regex crate compiles `pattern` into a regular expression: the pattern is valid and
/// its compiled form stays within the default size limit.
pub uninterp spec fn compiles(pattern: Seq<char>) -> bool;

/// The number of successive non-overlapping matches of the regular expression `pattern` in
/// `target`, as the regex crate finds them from the start of `target`.
pub uninterp spec fn match_count(pattern: Seq<char>, target: Seq<char>) -> nat;

/// The text that the group named `name` captured in the match of rank `rank` (counted from 0)
/// among the successive non-overlapping matches of `pattern` in `target`, or `None` where that
/// group did not take part in the match.
pub uninterp spec fn match_group(pattern: Seq<char>, target: Seq<char>, rank: nat, name: Seq<char>)
    -> Option<Seq<char>>;

/// The byte bounds, start and end, of the match of rank `rank` (counted from 0) among the
/// successive non-overlapping matches of `pattern` in `target`.
pub uninterp spec fn match_bounds(pattern: Seq<char>, target: Seq<char>, rank: nat) -> (nat, nat);

/// The text that the group named `name` captured in the match of rank `rank` of `pattern` in
/// `target`; `None` where there are not that many matches.
pub open spec fn token_text(pattern: Seq<char>, target: Seq<char>, rank: nat, name: Seq<char>)
    -> Option<Seq<char>> {
    if rank < match_count(pattern, target) {
        match_group(pattern, target, rank, name)
    } else {
        None
    }
}

/// A text, if there is one, by its view.
pub open spec fn text_view(text: Option<&str>) -> Option<Seq<char>> {
    match text {
        Some(t) => Some(t@),
        None => None,
    }
}

/// Compiles `pattern` with `regex::Regex::new` into a [`Pattern`] that records `pattern` as its
/// source, giving the text of the error where compiling fails.
///
/// The contract claims that compiling succeeds exactly where [`compiles`] holds of the
/// pattern, and that the compiled expression is that of `pattern`; nothing is stated of the
/// text of the error.
#[verifier::external_body]
fn compile(pattern: &str) -> (result: Result<Pattern, String>)
    ensures
        result is Ok <==> compiles(pattern@),
        result matches Ok(compiled) ==> compiled.source() == pattern@,
{
    match regex::Regex::new(pattern) {
        Ok(re) => Ok(Pattern { re, source: Ghost(pattern@) }),
        Err(error) => Err(error.to_string()),
    }
}

/// Returns the groups of the leftmost match of `pattern` in `target`, recorded as the match of
/// rank 0 of that pattern in that target, or `None` where it does not match; this is
/// `regex::Regex::captures`.
///
/// The contract claims that there is a match exactly where `pattern` matches `target` at least
/// once; the leftmost match is the first of the successive matches that
/// `regex::Regex::captures_iter` yields.
#[verifier::external_body]
fn leftmost_captures<'t>(pattern: &Pattern, target: &'t str) -> (result: Option<Groups<'t>>)
    ensures
        result is Some <==> 0 < match_count(pattern.source(), target@),
        result matches Some(groups) ==> groups.pattern() == pattern.source() && groups.target()
            == target@ && groups.rank() == 0,
{
    match pattern.re.captures(target) {
        Some(captures) => Some(
            Groups { captures, pattern: pattern.source, target: Ghost(target@), rank: Ghost(0) },
        ),
        None => None,
    }
}

/// Returns the iterator over the groups of each match of `pattern` in `target`, recording the
/// pattern, the target and that no match has been taken yet; this is
/// `regex::Regex::captures_iter`.
///
/// The contract claims only what the iterator records; what it yields is stated by
/// [`next_captures`].
#[verifier::external_body]
fn captures_iter_of<'r, 't>(pattern: &'r Pattern, target: &'t str) -> (result: TokensIter<'r, 't>)
    ensures
        result.source() == pattern.source(),
        result.target() == target@,
        result.taken() == 0,
{
    TokensIter {
        capture_matches: pattern.re.captures_iter(target),
        source: pattern.source,
        target: Ghost(target@),
        taken: Ghost(0),
    }
}

/// Advances `matches` to its next match and returns the groups of that match, recorded with the
/// pattern and target of `matches` and the number of matches taken before it as its rank, or
/// `None` where there is none left; this is `Iterator::next` of `regex::CaptureMatches`. The
/// count of matches taken grows by one either way.
///
/// The contract claims that a match comes back exactly where fewer matches than there are
/// have been taken so far.
#[verifier::external_body]
fn next_captures<'r, 't>(matches: &mut TokensIter<'r, 't>) -> (result: Option<Groups<'t>>)
    ensures
        result is Some <==> old(matches).taken() < match_count(
            old(matches).source(),
            old(matches).target(),
        ),
        result matches Some(groups) ==> groups.pattern() == old(matches).source()
            && groups.target() == old(matches).target() && groups.rank() == old(matches).taken(),
        final(matches).source() == old(matches).source(),
        final(matches).target() == old(matches).target(),
        final(matches).taken() == old(matches).taken() + 1,
{
    let rank = matches.taken;
    matches.taken = Ghost(matches.taken@ + 1);
    match matches.capture_matches.next() {
        Some(captures) => Some(
            Groups { captures, pattern: matches.source, target: matches.target, rank },
        ),
        None => None,
    }
}

/// Returns the text of the group named `name` in `groups`, or `None` where that group did not
/// take part in the match; this is `regex::Captures::name` followed by `regex::Match::as_str`.
///
/// The contract claims that the text is the one that [`match_group`] names for the pattern,
/// target and rank that `groups` records; those are set only by [`leftmost_captures`] and
/// [`next_captures`], from the call that produced the groups.
#[verifier::external_body]
fn captured_text<'t>(groups: &Groups<'t>, name: &str) -> (result: Option<&'t str>)
    ensures
        text_view(result) == match_group(groups.pattern(), groups.target(), groups.rank(), name@),
{
    groups.captures.name(name).map(|matched| matched.as_str())
}

/// Returns the byte bounds of the whole match that `groups` come from; this is
/// `regex::Captures::get_match` followed by `regex::Match::start` and `regex::Match::end`.
///
/// The contract claims that the bounds are the ones that [`match_bounds`] names for the
/// pattern, target and rank that `groups` records; those are set only by [`leftmost_captures`]
/// and [`next_captures`], from the call that produced the groups.
#[verifier::external_body]
fn captured_bounds<'t>(groups: &Groups<'t>) -> (result: (usize, usize))
    ensures
        (result.0 as nat, result.1 as nat) == match_bounds(
            groups.pattern(),
            groups.target(),
            groups.rank(),
        ),
{
    let whole = groups.captures.get_match();
    (whole.start(), whole.end())
}

/// A regular expression as it is being built, held as text.
#[derive(Debug)]
pub struct Rec(String);

impl View for Rec {
    type V = Seq<char>;

    /// The text of the regular expression.
    closed spec fn view(&self) -> Seq<char> {
        self.0@
    }
}

/// The regular expression `regex` made a group that a quantifier applies to as a whole: a
/// non-capturing group, unless it is a single character or an escaped one.
pub open spec fn grouped(regex: Seq<char>) -> Seq<char> {
    if regex.len() > 2 || (regex.len() == 2 && regex[0] != '\\') {
        "(?:"@ + regex + ")"@
    } else {
        regex
    }
}

/// The text `text` with `.` and `+` escaped, so that a regular expression matches them
/// literally.
pub open spec fn escaped(text: Seq<char>) -> Seq<char>
    decreases text.len(),
{
    if text.len() == 0 {
        Seq::empty()
    } else {
        let c = text.last();
        escaped(text.drop_last()) + if c == '.' {
            "\\."@
        } else if c == '+' {
            "\\+"@
        } else {
            seq![c]
        }
    }
}

/// Escaping a text piece by piece is escaping it whole: the escape of `first` followed by
/// `second` is the escape of `first` followed by the escape of `second`.
pub proof fn lemma_escaped_concat(first: Seq<char>, second: Seq<char>)
    ensures
        escaped(first + second) == escaped(first) + escaped(second),
    decreases second.len(),
{
    if second.len() == 0 {
        assert(first + second =~= first);
        assert(escaped(first) + escaped(second) =~= escaped(first));
    } else {
        lemma_escaped_concat(first, second.drop_last());
        assert((first + second).drop_last() =~= first + second.drop_last());
        assert((first + second).last() == second.last());
        let piece = if second.last() == '.' {
            "\\."@
        } else if second.last() == '+' {
            "\\+"@
        } else {
            seq![second.last()]
        };
        assert(escaped(first) + escaped(second.drop_last()) + piece =~= escaped(first) + (escaped(second.drop_last()) + piece));
    }
}

impl Default for Rec {
    fn default() -> (result: Self)
        ensures
            result@ == Seq::<char>::empty(),
    {
        Rec(String::new())
    }
}

impl Rec {
    /// Returns the text of `self`.
    pub fn to_string(&self) -> (result: String)
        ensures
            result@ == self@,
    {
        self.0.clone()
    }

    /// Makes `self` a capturing group named `name`.
    pub fn name(self, name: &str) -> (result: Rec)
        ensures
            result@ == "(?P<"@ + name@ + ">"@ + self@ + ")"@,
    {
        Rec(String::from_str("(?P<").concat(name).concat(">").concat(self.0.as_str()).concat(")"))
    }

    /// Makes `self` a group that a quantifier applies to as a whole.
    pub fn group(self) -> (result: Rec)
        ensures
            result@ == grouped(self@),
    {
        let length = self.0.as_str().unicode_len();
        if length > 2 || (length == 2 && self.0.as_str().get_char(0) != '\\') {
            return Rec(String::from_str("(?:").concat(self.0.as_str()).concat(")"));
        }
        self
    }

    /// Repeats `self` as `quantifier` describes.
    pub fn quantify<Q: Quantifier>(self, quantifier: Q) -> (result: Rec)
        ensures
            result@ == grouped(self@) + quantifier.quantifier_regex(),
    {
        Rec(self.group().0.concat(quantifier.regex()))
    }

    /// If the regex crate compiles `self`.
    pub fn is_valid(&self) -> (result: bool)
        ensures
            result == compiles(self@),
    {
        match compile(self.0.as_str()) {
            Ok(_) => true,
            Err(_) => false,
        }
    }

    /// Compiles `self`, which must be valid.
    pub fn build(&self) -> (result: Pattern)
        requires
            compiles(self@),
        ensures
            result.source() == self@,
    {
        match compile(self.0.as_str()) {
            Ok(pattern) => pattern,
            Err(_) => vstd::pervasive::unreached(),
        }
    }

    /// Compiles `self`, or returns the text of the error of the regex crate.
    pub fn try_build(&self) -> (result: Result<Pattern, String>)
        ensures
            result is Ok <==> compiles(self@),
            result matches Ok(pattern) ==> pattern.source() == self@,
    {
        compile(self.0.as_str())
    }
}

impl Add for Rec {
    type Output = Rec;

    fn add(self, other: Rec) -> (result: Rec)
        ensures
            result@ == self@ + other@,
    {
        Rec(self.0.concat(other.0.as_str()))
    }
}

impl vstd::std_specs::ops::AddSpecImpl for Rec {
    /// The result holds a `String`, which has no value in specifications: the `ensures` of
    /// `add` states it instead.
    open spec fn obeys_add_spec() -> bool {
        false
    }

    open spec fn add_req(self, other: Rec) -> bool {
        true
    }

    open spec fn add_spec(self, other: Rec) -> Rec {
        arbitrary()
    }
}

impl<T: Atom> Add<T> for Rec {
    type Output = Rec;

    fn add(self, other: T) -> (result: Rec)
        ensures
            result@ == self@ + other.atom_regex(),
    {
        self + other.rec()
    }
}

impl<T: Atom> vstd::std_specs::ops::AddSpecImpl<T> for Rec {
    /// The result holds a `String`, which has no value in specifications: the `ensures` of
    /// `add` states it instead.
    open spec fn obeys_add_spec() -> bool {
        false
    }

    open spec fn add_req(self, other: T) -> bool {
        true
    }

    open spec fn add_spec(self, other: T) -> Rec {
        arbitrary()
    }
}

impl BitOr for Rec {
    type Output = Rec;

    fn bitor(self, rhs: Rec) -> (result: Rec)
        ensures
            result@ == grouped(self@ + "|"@ + rhs@),
    {
        Rec(self.0.concat("|").concat(rhs.0.as_str())).group()
    }
}

impl vstd::std_specs::ops::BitOrSpecImpl for Rec {
    /// The result holds a `String`, which has no value in specifications: the `ensures` of
    /// `bitor` states it instead.
    open spec fn obeys_bitor_spec() -> bool {
        false
    }

    open spec fn bitor_req(self, rhs: Rec) -> bool {
        true
    }

    open spec fn bitor_spec(self, rhs: Rec) -> Rec {
        arbitrary()
    }
}

impl<T: Atom> BitOr<T> for Rec {
    type Output = Rec;

    fn bitor(self, rhs: T) -> (result: Rec)
        ensures
            result@ == grouped(self@ + "|"@ + rhs.atom_regex()),
    {
        self | rhs.rec()
    }
}

impl<T: Atom> vstd::std_specs::ops::BitOrSpecImpl<T> for Rec {
    /// The result holds a `String`, which has no value in specifications: the `ensures` of
    /// `bitor` states it instead.
    open spec fn obeys_bitor_spec() -> bool {
        false
    }

    open spec fn bitor_req(self, rhs: T) -> bool {
        true
    }

    open spec fn bitor_spec(self, rhs: T) -> Rec {
        arbitrary()
    }
}

/// A class of characters.
#[derive(Clone, Copy, Debug)]
pub enum ChCls<'a> {
    /// Any character but a line feed.
    Any,
    /// Any character but those of the text.
    AllBut(&'a str),
    /// A decimal digit.
    Digit,
    /// A whitespace character.
    WhSpc,
    /// The end of the text.
    End,
}

/// The regular expression of `class`.
pub open spec fn class_regex(class: ChCls) -> Seq<char> {
    match class {
        ChCls::AllBut(chars) => "[^"@ + chars@ + "]"@,
        ChCls::Digit => "\\d"@,
        ChCls::Any => "."@,
        ChCls::WhSpc => "\\s"@,
        ChCls::End => "$"@,
    }
}

impl<'a, 'b> BitOr<&'a str> for ChCls<'b> {
    type Output = Rec;

    fn bitor(self, rhs: &'a str) -> (result: Rec)
        ensures
            result@ == grouped(class_regex(self) + "|"@ + escaped(rhs@)),
    {
        self.rec() | rhs.rec()
    }
}

impl<'a, 'b> vstd::std_specs::ops::BitOrSpecImpl<&'a str> for ChCls<'b> {
    /// The result holds a `String`, which has no value in specifications: the `ensures` of
    /// `bitor` states it instead.
    open spec fn obeys_bitor_spec() -> bool {
        false
    }

    open spec fn bitor_req(self, rhs: &'a str) -> bool {
        true
    }

    open spec fn bitor_spec(self, rhs: &'a str) -> Rec {
        arbitrary()
    }
}

impl<'a> BitOr for ChCls<'a> {
    type Output = Rec;

    fn bitor(self, rhs: ChCls<'a>) -> (result: Rec)
        ensures
            result@ == grouped(class_regex(self) + "|"@ + class_regex(rhs)),
    {
        self.rec() | rhs.rec()
    }
}

impl<'a> vstd::std_specs::ops::BitOrSpecImpl for ChCls<'a> {
    /// The result holds a `String`, which has no value in specifications: the `ensures` of
    /// `bitor` states it instead.
    open spec fn obeys_bitor_spec() -> bool {
        false
    }

    open spec fn bitor_req(self, rhs: ChCls<'a>) -> bool {
        true
    }

    open spec fn bitor_spec(self, rhs: ChCls<'a>) -> Rec {
        arbitrary()
    }
}

/// A part of a regular expression that stands for itself.
pub trait Atom {
    /// The regular expression of `self`.
    spec fn atom_regex(&self) -> Seq<char>;

    /// Returns the regular expression of `self`.
    fn regex(&self) -> (result: String)
        ensures
            result@ == self.atom_regex(),
    ;

    /// Returns `self` as a [`Rec`].
    fn rec(&self) -> (result: Rec)
        ensures
            result@ == self.atom_regex(),
    {
        Rec(self.regex())
    }

    /// Returns `self` repeated as `quantifier` describes.
    fn rpt<Q: Quantifier>(&self, quantifier: Q) -> (result: Rec)
        ensures
            result@ == grouped(self.atom_regex()) + quantifier.quantifier_regex(),
    {
        self.rec().quantify(quantifier)
    }
}

impl<'a> Atom for ChCls<'a> {
    open spec fn atom_regex(&self) -> Seq<char> {
        class_regex(*self)
    }

    fn regex(&self) -> (result: String) {
        match self {
            ChCls::AllBut(chars) => String::from_str("[^").concat(chars).concat("]"),
            ChCls::Digit => String::from_str("\\d"),
            ChCls::Any => String::from_str("."),
            ChCls::WhSpc => String::from_str("\\s"),
            ChCls::End => String::from_str("$"),
        }
    }
}

impl<'a> Atom for &'a str {
    open spec fn atom_regex(&self) -> Seq<char> {
        escaped(self@)
    }

    fn regex(&self) -> (result: String) {
        let text: &str = *self;
        let length = text.unicode_len();
        let mut result = String::new();
        let mut index: usize = 0;
        while index < length
            invariant
                length == text@.len(),
                index <= length,
                result@ == escaped(text@.take(index as int)),
            decreases length - index,
        {
            let c = text.get_char(index);
            assert(text@.take(index as int + 1).drop_last() =~= text@.take(index as int));
            if c == '.' {
                result.append("\\.");
            } else if c == '+' {
                result.append("\\+");
            } else {
                let piece = text.substring_char(index, index + 1);
                assert(piece@ =~= seq![c]);
                result.append(piece);
            }
            index = index + 1;
        }
        assert(text@.take(length as int) =~= text@);
        result
    }
}

impl<'a> Add<Rec> for &'a str {
    type Output = Rec;

    fn add(self, other: Rec) -> (result: Rec)
        ensures
            result@ == escaped(self@) + other@,
    {
        self.rec() + other
    }
}

impl<'a> vstd::std_specs::ops::AddSpecImpl<Rec> for &'a str {
    /// The result holds a `String`, which has no value in specifications: the `ensures` of
    /// `add` states it instead.
    open spec fn obeys_add_spec() -> bool {
        false
    }

    open spec fn add_req(self, other: Rec) -> bool {
        true
    }

    open spec fn add_spec(self, other: Rec) -> Rec {
        arbitrary()
    }
}

/// A quantifier of a part of a regular expression: how often the part repeats.
pub trait Quantifier {
    /// The regular expression of `self`.
    spec fn quantifier_regex(&self) -> Seq<char>;

    /// Returns the regular expression of `self`.
    fn regex(&self) -> (result: &str)
        ensures
            result@ == self.quantifier_regex(),
    ;

    /// Returns the lazy form of `self`, which repeats as few times as it can.
    fn lazy(&self) -> (result: Repeat)
        ensures
            result@ == self.quantifier_regex() + "?"@,
    {
        Repeat(String::from_str(self.regex()).concat("?"))
    }
}

/// A quantifier given by a constant text.
#[derive(Clone, Copy, Debug)]
pub struct ConstantQuantifier<'a>(&'a str);

/// The quantifier that makes a part optional.
pub fn opt() -> (result: ConstantQuantifier<'static>)
    ensures
        result.quantifier_regex() == "?"@,
{
    ConstantQuantifier("?")
}

/// The quantifier that repeats a part any number of times.
pub fn var() -> (result: ConstantQuantifier<'static>)
    ensures
        result.quantifier_regex() == "*"@,
{
    ConstantQuantifier("*")
}

/// The quantifier that repeats a part at least once.
pub fn some() -> (result: ConstantQuantifier<'static>)
    ensures
        result.quantifier_regex() == "+"@,
{
    ConstantQuantifier("+")
}

impl<'a> Quantifier for ConstantQuantifier<'a> {
    closed spec fn quantifier_regex(&self) -> Seq<char> {
        self.0@
    }

    fn regex(&self) -> (result: &str) {
        self.0
    }
}

/// A quantifier given by a text that was built.
#[derive(Debug)]
pub struct Repeat(String);

impl View for Repeat {
    type V = Seq<char>;

    /// The text of the quantifier.
    closed spec fn view(&self) -> Seq<char> {
        self.0@
    }
}

impl Quantifier for Repeat {
    open spec fn quantifier_regex(&self) -> Seq<char> {
        self@
    }

    fn regex(&self) -> (result: &str) {
        self.0.as_str()
    }
}

/// A compiled regular expression that splits texts into named tokens.
pub struct Pattern {
    /// The compiled expression.
    re: regex::Regex,
    /// The text that `re` was compiled from.
    source: Ghost<Seq<char>>,
}

impl Pattern {
    /// The text of the regular expression that the pattern was compiled from.
    pub closed spec fn source(self) -> Seq<char> {
        self.source@
    }

    /// Compiles `rec`, which must be valid.
    pub fn define(rec: Rec) -> (result: Pattern)
        requires
            compiles(rec@),
        ensures
            result.source() == rec@,
    {
        rec.build()
    }

    /// Compiles the regular expression whose text is `text`, or returns `None` where it is not
    /// valid.
    pub(crate) fn from_text(text: &str) -> (result: Option<Pattern>)
        ensures
            result is Some <==> compiles(text@),
            result matches Some(pattern) ==> pattern.source() == text@,
    {
        match compile(text) {
            Ok(pattern) => Some(pattern),
            Err(_) => None,
        }
    }

    /// Compiles `rec`, or returns `None` where it is not valid.
    pub fn try_define(rec: Rec) -> (result: Option<Pattern>)
        ensures
            result is Some <==> compiles(rec@),
            result matches Some(pattern) ==> pattern.source() == rec@,
    {
        if rec.is_valid() {
            Some(Pattern::define(rec))
        } else {
            None
        }
    }

    /// Returns the tokens of the leftmost match of `self` in `target`.
    pub fn tokenize<'t>(&self, target: &'t str) -> (result: Tokens<'t>)
        ensures
            result.matched() == (0 < match_count(self.source(), target@)),
            forall|name: Seq<char>|
                #[trigger] result.text(name) == token_text(self.source(), target@, 0, name),
    {
        Tokens { groups: leftmost_captures(self, target) }
    }

    /// Returns the iterator over the tokens of each match of `self` in `target`.
    pub fn tokenize_iter<'r, 't>(&'r self, target: &'t str) -> (result: TokensIter<'r, 't>)
        ensures
            result.source() == self.source(),
            result.target() == target@,
            result.taken() == 0,
    {
        captures_iter_of(self, target)
    }
}

/// The groups of one match, with the pattern, target and rank of the match that they come from.
struct Groups<'t> {
    /// The groups that the regex crate captured.
    captures: regex::Captures<'t>,
    /// The text of the pattern that matched.
    pattern: Ghost<Seq<char>>,
    /// The text that was searched.
    target: Ghost<Seq<char>>,
    /// The rank of the match among the successive matches of the pattern in the target.
    rank: Ghost<nat>,
}

impl<'t> Groups<'t> {
    /// The text of the pattern that matched.
    closed spec fn pattern(self) -> Seq<char> {
        self.pattern@
    }

    /// The text that was searched.
    closed spec fn target(self) -> Seq<char> {
        self.target@
    }

    /// The rank of the match among the successive matches of the pattern in the target.
    closed spec fn rank(self) -> nat {
        self.rank@
    }
}

/// The tokens of a match: the texts of its named groups.
pub struct Tokens<'t> {
    /// The groups of the match, if there was one.
    groups: Option<Groups<'t>>,
}

impl<'t> Tokens<'t> {
    /// If the tokens come from a match.
    pub closed spec fn matched(self) -> bool {
        self.groups is Some
    }

    /// The text of the token `name`: `None` where there was no match or the group of that name
    /// did not take part in it.
    pub closed spec fn text(self, name: Seq<char>) -> Option<Seq<char>> {
        match self.groups {
            Some(groups) => match_group(groups.pattern(), groups.target(), groups.rank(), name),
            None => None,
        }
    }

    /// Returns if the tokens come from a match.
    pub fn has_match(&self) -> (result: bool)
        ensures
            result == self.matched(),
    {
        self.groups.is_some()
    }

    /// The byte bounds of the match that the tokens come from, if there was one.
    pub closed spec fn bounds(self) -> Option<(nat, nat)> {
        match self.groups {
            Some(groups) => Some(match_bounds(groups.pattern(), groups.target(), groups.rank())),
            None => None,
        }
    }

    /// Returns the byte bounds of the match that the tokens come from, or `None` where there
    /// was no match.
    pub(crate) fn span(&self) -> (result: Option<(usize, usize)>)
        ensures
            match result {
                Some(bounds) => self.bounds() == Some((bounds.0 as nat, bounds.1 as nat)),
                None => self.bounds() is None,
            },
    {
        match &self.groups {
            Some(groups) => Some(captured_bounds(groups)),
            None => None,
        }
    }

    /// Returns the text of the token `name`, or `None` where there was no match or the group
    /// of that name did not take part in it.
    pub fn get<'a>(&self, name: &'a str) -> (result: Option<&'t str>)
        ensures
            text_view(result) == self.text(name@),
    {
        match &self.groups {
            Some(groups) => captured_text(groups, name),
            None => None,
        }
    }
}

/// An iterator over the tokens of each match of a [`Pattern`].
pub struct TokensIter<'r, 't> {
    /// The iterator over the groups of each match.
    capture_matches: regex::CaptureMatches<'r, 't>,
    /// The text of the pattern.
    source: Ghost<Seq<char>>,
    /// The text that is searched.
    target: Ghost<Seq<char>>,
    /// How many matches the iterator has handed out.
    taken: Ghost<nat>,
}

impl<'r, 't> TokensIter<'r, 't> {
    /// The text of the pattern whose matches are iterated.
    pub closed spec fn source(self) -> Seq<char> {
        self.source@
    }

    /// The text that is searched.
    pub closed spec fn target(self) -> Seq<char> {
        self.target@
    }

    /// How many times [`TokensIter::next`] has been called.
    pub closed spec fn taken(self) -> nat {
        self.taken@
    }

    /// Returns the tokens of the next match, or `None` where there is none.
    pub fn next(&mut self) -> (result: Option<Tokens<'t>>)
        ensures
            result is Some <==> old(self).taken() < match_count(
                old(self).source(),
                old(self).target(),
            ),
            result matches Some(tokens) ==> tokens.bounds() == Some(
                match_bounds(old(self).source(), old(self).target(), old(self).taken()),
            ),
            result matches Some(tokens) ==> tokens.matched() && forall|name: Seq<char>|
                #[trigger] tokens.text(name) == token_text(
                    old(self).source(),
                    old(self).target(),
                    old(self).taken(),
                    name,
                ),
            final(self).source() == old(self).source(),
            final(self).target() == old(self).target(),
            final(self).taken() == old(self).taken() + 1,
    {
        match next_captures(self) {
            Some(groups) => Some(Tokens { groups: Some(groups) }),
            None => None,
        }
    }
}

} // verus!
