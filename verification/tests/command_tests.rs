use aparte::command::{parse, tokenize, ArgValue, ParseError};
use aparte::jid::Jid;
use aparte::plugins::bookmarks::bookmark_command;

fn defs() -> Vec<aparte::command::CommandDef> {
    vec![bookmark_command()]
}

#[test]
fn tokenize_on_whitespace() {
    let t = tokenize("hello  world\tagain");
    assert_eq!(t, vec!["hello", "world", "again"]);
}

#[test]
fn tokenize_respects_quotes() {
    let t = tokenize("add \"my room\" room@conf.example");
    assert_eq!(t, vec!["add", "my room", "room@conf.example"]);
}

#[test]
fn tokenize_unterminated_quote_runs_to_end() {
    let t = tokenize("say \"hello world");
    assert_eq!(t, vec!["say", "hello world"]);
}

#[test]
fn tokenize_empty_line() {
    assert_eq!(tokenize("   "), Vec::<String>::new());
}

#[test]
fn parse_bookmark_add_with_autojoin() {
    let p = parse(&defs(), "/bookmark add aparte aparte@conference.example autojoin=on").unwrap();
    assert_eq!(p.path, vec!["bookmark", "add"]);
    match p.get(&String::from("name")) {
        Some(ArgValue::Text(n)) => assert_eq!(n, "aparte"),
        _ => panic!("name not bound as text"),
    }
    match p.get(&String::from("conference")) {
        Some(ArgValue::Address(Jid::Bare(b))) => {
            assert_eq!(b.to_text(), "aparte@conference.example");
        },
        _ => panic!("conference not bound as a bare address"),
    }
    match p.get(&String::from("autojoin")) {
        Some(ArgValue::Switch(v)) => assert!(*v),
        _ => panic!("autojoin not bound as a switch"),
    }
}

#[test]
fn parse_bookmark_add_missing_conference() {
    match parse(&defs(), "/bookmark add aparte") {
        Err(ParseError::MissingParameter(p)) => assert_eq!(p, "conference"),
        _ => panic!("expected a missing-parameter error"),
    }
}

#[test]
fn parse_unknown_command() {
    match parse(&defs(), "/frobnicate now") {
        Err(ParseError::UnknownCommand(n)) => assert_eq!(n, "frobnicate"),
        _ => panic!("expected an unknown-command error"),
    }
}

#[test]
fn parse_unknown_subcommand() {
    match parse(&defs(), "/bookmark frob") {
        Err(ParseError::UnknownCommand(n)) => assert_eq!(n, "frob"),
        _ => panic!("expected an unknown-command error"),
    }
}

#[test]
fn parse_missing_subcommand() {
    match parse(&defs(), "/bookmark") {
        Err(ParseError::MissingParameter(p)) => assert_eq!(p, "bookmark"),
        _ => panic!("expected a missing-parameter error"),
    }
}

#[test]
fn parse_not_a_command() {
    assert!(matches!(parse(&defs(), "hello there"), Err(ParseError::NotACommand)));
    assert!(matches!(parse(&defs(), "/"), Err(ParseError::NotACommand)));
}

#[test]
fn parse_empty_line() {
    assert!(matches!(parse(&defs(), "  "), Err(ParseError::Empty)));
}

#[test]
fn parse_bad_switch_value() {
    match parse(&defs(), "/bookmark add aparte aparte@conference.example autojoin=maybe") {
        Err(ParseError::BadValue { token, param, .. }) => {
            assert_eq!(token, "autojoin=maybe");
            assert_eq!(param, "autojoin");
        },
        _ => panic!("expected a bad-value error"),
    }
}

#[test]
fn parse_bad_address_value() {
    match parse(&defs(), "/bookmark add aparte not@a@jid") {
        Err(ParseError::BadValue { token, param, .. }) => {
            assert_eq!(token, "not@a@jid");
            assert_eq!(param, "conference");
        },
        _ => panic!("expected a bad-value error"),
    }
}

#[test]
fn parse_unexpected_argument() {
    match parse(&defs(), "/bookmark del room@conf.example extra") {
        Err(ParseError::UnexpectedArgument(t)) => assert_eq!(t, "extra"),
        _ => panic!("expected an unexpected-argument error"),
    }
}

#[test]
fn parse_del() {
    let p = parse(&defs(), "/bookmark del room@conf.example").unwrap();
    assert_eq!(p.path, vec!["bookmark", "del"]);
    assert!(matches!(p.get(&String::from("conference")), Some(ArgValue::Address(_))));
}

#[test]
fn parse_quoted_name() {
    let p = parse(&defs(), "/bookmark add \"my room\" room@conf.example").unwrap();
    match p.get(&String::from("name")) {
        Some(ArgValue::Text(n)) => assert_eq!(n, "my room"),
        _ => panic!("name not bound"),
    }
}
