use trash_shell::parser::{
    escape, parse_literal, parse_program_call, parse_string, parse_token, reserved,
    tokenize_program_call, Call, ParseError, Token,
};

fn call(program: &str, args: &[&str]) -> Call {
    Call { program: program.to_owned(), args: args.iter().map(|a| a.to_string()).collect() }
}

fn shown(input: &str) -> Vec<(char, String)> {
    tokenize_program_call(input)
        .iter()
        .map(|t| match t {
            Token::Space(s) => ('s', s.to_string()),
            Token::FunctionCall(s) => ('f', s.to_string()),
            Token::Argument(s) => ('a', s.to_string()),
            Token::Extra(s) => ('x', s.to_string()),
        })
        .collect()
}

#[test]
fn test_parse_string() {
    assert_eq!(parse_string("\"asdf\""), Ok(("", "asdf".to_owned())));
}

#[test]
fn test_parse_escaped_string() {
    assert_eq!(parse_string("\"a\\\"sdf\""), Ok(("", "a\"sdf".to_owned())));
    assert_eq!(parse_string("\"\""), Ok(("", "".to_owned())));
    assert_eq!(parse_string("\"as\\nd\\\"f\""), Ok(("", "as\nd\"f".to_owned())));
}

#[test]
fn test_parse_literal() {
    assert_eq!(parse_literal("asdf_asdf_xD1423"), Ok(("", "asdf_asdf_xD1423")));
    assert_eq!(parse_literal("asdf "), Ok((" ", "asdf")));
    assert_eq!(parse_literal("«»¥×¥’ "), Ok((" ", "«»¥×¥’")));

    assert!(parse_literal(" ").is_err());
}

#[test]
fn test_parse_call() {
    assert_eq!(parse_program_call("ls ."), Ok(("", call("ls", &["."]))));

    assert_eq!(parse_program_call("ls . | grep a"), Ok((" | grep a", call("ls", &["."]))));

    assert_eq!(
        parse_program_call("ls . x d \"as\\nd\\\"f\" | grep a"),
        Ok((" | grep a", call("ls", &[".", "x", "d", "as\nd\"f"])))
    );
}

#[test]
fn quoted_strings_decode_their_escapes() {
    assert_eq!(parse_string("\"\""), Ok(("", String::new())));
    assert_eq!(parse_string("\"a\\\"b\""), Ok(("", "a\"b".to_owned())));
    assert_eq!(parse_string("\"x\\ny\""), Ok(("", "x\ny".to_owned())));
    assert_eq!(parse_string("\"x\\ry\""), Ok(("", "x\ry".to_owned())));
    assert_eq!(parse_string("\"x\\\\y\" z"), Ok((" z", "x\\y".to_owned())));
    assert_eq!(parse_string("\"a b\"c"), Ok(("c", "a b".to_owned())));
}

#[test]
fn quoted_strings_fail_as_they_should() {
    assert_eq!(parse_string("\""), Err(ParseError::Unterminated));
    assert_eq!(parse_string("\"abc"), Err(ParseError::Unterminated));
    assert_eq!(parse_string("\"abc\\"), Err(ParseError::Unterminated));
    assert_eq!(parse_string("\"abc\\\""), Err(ParseError::Unterminated));
    assert_eq!(parse_string("\"a\\xb\""), Err(ParseError::BadEscape));
    assert_eq!(parse_string("\"a\\tb"), Err(ParseError::BadEscape));
    assert_eq!(parse_string("abc"), Err(ParseError::ExpectedQuote));
    assert_eq!(parse_string(""), Err(ParseError::ExpectedQuote));
}

#[test]
fn escape_knows_four_characters() {
    assert_eq!(escape('\\'), Some('\\'));
    assert_eq!(escape('"'), Some('"'));
    assert_eq!(escape('n'), Some('\n'));
    assert_eq!(escape('r'), Some('\r'));
    assert_eq!(escape('t'), None);
    assert_eq!(escape('0'), None);
}

#[test]
fn every_reserved_character_ends_a_literal() {
    for c in " \t\n\r\"|&<>#()[]".chars() {
        assert!(reserved(c));
        let input = format!("ab{}cd", c);
        let (rest, lit) = parse_literal(&input).unwrap();
        assert_eq!(lit, "ab");
        assert_eq!(rest, format!("{}cd", c));
        assert_eq!(parse_literal(&input[2..]), Err(ParseError::ExpectedToken));
    }
    for c in "a0_-./\\'*$~é".chars() {
        assert!(!reserved(c));
    }
    assert_eq!(parse_literal(""), Err(ParseError::ExpectedToken));
}

#[test]
fn a_literal_holds_no_reserved_character() {
    for input in ["ls", "a|b", "x y", "«»¥×¥’\tz", "a\"b\"", "--flag=1>out", "a[0]"] {
        let (rest, lit) = parse_literal(input).unwrap();
        assert!(!lit.is_empty());
        assert!(lit.chars().all(|c| !reserved(c)));
        assert!(rest.chars().next().map_or(true, reserved));
        assert_eq!(format!("{}{}", lit, rest), input);
    }
}

#[test]
fn a_token_is_a_string_or_a_literal() {
    assert_eq!(parse_token("\"a b\" c"), Ok((" c", "a b".to_owned())));
    assert_eq!(parse_token("ab\"c\""), Ok(("\"c\"", "ab".to_owned())));
    assert_eq!(parse_token("\"ab"), Err(ParseError::Unterminated));
    assert_eq!(parse_token("\"a\\q\""), Err(ParseError::BadEscape));
    assert_eq!(parse_token("|x"), Err(ParseError::ExpectedToken));
    assert_eq!(parse_token(""), Err(ParseError::ExpectedToken));
}

#[test]
fn calls_stop_where_no_argument_follows() {
    assert_eq!(parse_program_call("ls . x d \"a\\nb\""), Ok(("", call("ls", &[".", "x", "d", "a\nb"]))));
    assert_eq!(parse_program_call("ls"), Ok(("", call("ls", &[]))));
    assert_eq!(parse_program_call("ls  \t -l"), Ok(("", call("ls", &["-l"]))));
    assert_eq!(parse_program_call("ls "), Ok((" ", call("ls", &[]))));
    assert_eq!(parse_program_call("ls\n-l"), Ok(("\n-l", call("ls", &[]))));
    assert_eq!(parse_program_call("ls \"a"), Ok((" \"a", call("ls", &[]))));
    assert_eq!(parse_program_call("echo \"a\"\"b\""), Ok(("\"b\"", call("echo", &["a"]))));
    assert_eq!(parse_program_call("\"\" a"), Ok(("", call("", &["a"]))));
    assert_eq!(parse_program_call(" ls"), Err(ParseError::ExpectedToken));
    assert_eq!(parse_program_call(""), Err(ParseError::ExpectedToken));
    assert_eq!(parse_program_call("\"ls"), Err(ParseError::Unterminated));
    assert_eq!(parse_program_call("\"l\\s\""), Err(ParseError::BadEscape));
}

#[test]
fn tokens_name_the_stretches_of_a_line() {
    assert_eq!(
        shown("ls  . \"a b\" | grep"),
        vec![
            ('f', "ls".to_owned()),
            ('s', "  ".to_owned()),
            ('a', ".".to_owned()),
            ('s', " ".to_owned()),
            ('a', "\"a b\"".to_owned()),
            ('x', " | grep".to_owned()),
        ]
    );
    assert_eq!(shown("ls"), vec![('f', "ls".to_owned()), ('x', String::new())]);
    assert_eq!(shown(""), vec![('x', String::new())]);
    assert_eq!(shown(" ls"), vec![('x', " ls".to_owned())]);
    assert_eq!(shown("\"ls"), vec![('x', "\"ls".to_owned())]);
    assert_eq!(
        shown("é \"x\\ny\""),
        vec![('f', "é".to_owned()), ('s', " ".to_owned()), ('a', "\"x\\ny\"".to_owned()), ('x', String::new())]
    );
}

#[test]
fn tokens_put_together_are_the_line() {
    for input in [
        "",
        "ls",
        "ls .",
        "ls . | grep a",
        "ls . x d \"as\\nd\\\"f\" | grep a",
        " leading",
        "\"unterminated",
        "a \"b\\q\" c",
        "«»¥×¥’ \t ☃ > out",
        "a  b\t\tc   ",
        "\"\" \"\" \"\"",
    ] {
        let tokens = tokenize_program_call(input);
        let joined: String = tokens.iter().map(|t| t.as_str()).collect();
        assert_eq!(joined, input);
        assert!(matches!(tokens.last(), Some(Token::Extra(_))));
    }
}
