use gerritbot::command::Command;

fn parse(s: &str) -> Command {
    Command::from_str(s).expect("parse failed")
}

#[test]
fn parse_enable() {
    assert!(matches!(parse("enable"), Command::Enable));
}

#[test]
fn parse_enable_with_whitespace() {
    assert!(matches!(parse("\t\t   enable\n\n"), Command::Enable));
}

#[test]
fn parse_enable_mixed_case() {
    assert!(matches!(parse("EnAbLe"), Command::Enable));
}

#[test]
fn parse_other_keywords() {
    assert!(matches!(parse("disable"), Command::Disable));
    assert!(matches!(parse("status"), Command::Status));
    assert!(matches!(parse("help"), Command::Help));
    assert!(matches!(parse("version"), Command::Version));
    assert!(matches!(parse("filter"), Command::FilterStatus));
    assert!(matches!(parse("filter enable"), Command::FilterEnable(true)));
    assert!(matches!(parse("filter disable"), Command::FilterEnable(false)));
    assert!(matches!(parse("FILTER DISABLE"), Command::FilterEnable(false)));
}

#[test]
fn parse_filter_set() {
    assert!(matches!(parse("filter abc def"), Command::FilterAdd(ref s) if s == "abc def"));
}

#[test]
fn parse_filter_set_with_whitespace() {
    assert!(matches!(parse("filter  abc def "), Command::FilterAdd(ref s) if s == " abc def"));
}

#[test]
fn parse_filter_keyword_in_any_case() {
    assert!(matches!(parse("FiLtEr x.*y"), Command::FilterAdd(ref s) if s == "x.*y"));
}

#[test]
fn parse_unknown_command() {
    assert!(Command::from_str("unknown").is_err());
}

#[test]
fn filter_argument_spans_one_line() {
    assert!(Command::from_str("filter a\nb").is_err());
    assert!(Command::from_str("filterx").is_err());
}
