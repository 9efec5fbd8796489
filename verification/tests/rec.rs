use paper::rec::{opt, some, var, Atom, ChCls, Pattern, Quantifier, Rec};

#[test]
fn escapes_dots_and_pluses() {
    assert_eq!("a.b+c".regex(), "a\\.b\\+c".to_string());
    assert_eq!("abc".regex(), "abc".to_string());
}

#[test]
fn classes_have_their_expressions() {
    assert_eq!(ChCls::Digit.regex(), "\\d".to_string());
    assert_eq!(ChCls::AllBut("ab").regex(), "[^ab]".to_string());
    assert_eq!(ChCls::End.regex(), "$".to_string());
}

#[test]
fn quantifying_groups_longer_expressions() {
    assert_eq!(ChCls::Digit.rpt(some()).to_string(), "\\d+".to_string());
    assert_eq!("a".rpt(opt()).to_string(), "a?".to_string());
    assert_eq!("abc".rpt(var()).to_string(), "(?:abc)*".to_string());
    assert_eq!("ab".rpt(some().lazy()).to_string(), "(?:ab)+?".to_string());
}

#[test]
fn names_alternatives_and_sequences() {
    let number = ChCls::Digit.rpt(some()).name("number");
    assert_eq!(number.to_string(), "(?P<number>\\d+)".to_string());
    let either = "x".rec() | "y";
    assert_eq!(either.to_string(), "(?:x|y)".to_string());
    let both = Rec::default() + "a." + ChCls::Any;
    assert_eq!(both.to_string(), "a\\..".to_string());
    assert_eq!(("n" + ChCls::End.rec()).to_string(), "n$".to_string());
}

#[test]
fn patterns_extract_named_tokens() {
    let rec = "line " + ChCls::Digit.rpt(some()).name("number");
    let pattern = Pattern::try_define(rec).unwrap();
    assert_eq!(pattern.tokenize("at line 42").get("number"), Some("42"));
    assert_eq!(pattern.tokenize("nothing").get("number"), None);
    let mut tokens = pattern.tokenize_iter("line 1, line 22");
    assert_eq!(tokens.next().unwrap().get("number"), Some("1"));
    assert_eq!(tokens.next().unwrap().get("number"), Some("22"));
    assert!(tokens.next().is_none());
}

#[test]
fn invalid_expressions_are_refused() {
    assert!(Pattern::try_define(Rec::default() + ChCls::AllBut("")).is_none());
    assert!(Rec::default().try_build().is_ok());
}

#[test]
fn escaping_in_pieces_is_escaping_whole() {
    let whole = "a.+b".regex();
    let pieces = "a.".regex() + &"+b".regex();
    assert_eq!(whole, pieces);
    assert_eq!(whole, "a\\.\\+b".to_string());
}
