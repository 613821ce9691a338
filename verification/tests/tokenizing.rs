use minishell::tokenize::{parse, ParseError};

fn strs(xs: &[&str]) -> Vec<String> {
    xs.iter().map(|x| x.to_string()).collect()
}

#[test]
fn tokenize_quoted_args() {
    let cmd = parse("echo 'a b' c").unwrap();
    assert_eq!(cmd.program, "echo");
    assert_eq!(cmd.args, strs(&["a b", "c"]));
}

#[test]
fn tokenize_escaped_space() {
    let cmd = parse("echo a\\ b").unwrap();
    assert_eq!(cmd.program, "echo");
    assert_eq!(cmd.args, strs(&["a b"]));
}

#[test]
fn tokenize_unterminated_single_quote() {
    assert_eq!(parse("echo 'unterminated"), Err(ParseError::UnterminatedQuote));
}

#[test]
fn tokenize_unterminated_double_quote() {
    assert_eq!(parse("echo \"oops"), Err(ParseError::UnterminatedQuote));
}

#[test]
fn tokenize_dangling_escape() {
    assert_eq!(parse("echo x\\"), Err(ParseError::DanglingEscape));
}

#[test]
fn tokenize_double_quotes_verbatim() {
    let cmd = parse("echo \"a 'b' c\" d").unwrap();
    assert_eq!(cmd.args, strs(&["a 'b' c", "d"]));
}

#[test]
fn tokenize_whitespace_collapses() {
    let cmd = parse("a   b\t c  ").unwrap();
    assert_eq!(cmd.program, "a");
    assert_eq!(cmd.args, strs(&["b", "c"]));
}

#[test]
fn tokenize_empty_quotes_yield_no_token() {
    assert_eq!(parse("''"), Err(ParseError::EmptyCommand));
}

#[test]
fn tokenize_quote_continues_token() {
    let cmd = parse("ab'c d'e").unwrap();
    assert_eq!(cmd.program, "abc de");
    assert!(cmd.args.is_empty());
}

#[test]
fn tokenize_escaped_quote() {
    let cmd = parse("echo \\'x").unwrap();
    assert_eq!(cmd.args, strs(&["'x"]));
}

#[test]
fn tokenize_escaped_backslash() {
    let cmd = parse("echo a\\\\b").unwrap();
    assert_eq!(cmd.args, strs(&["a\\b"]));
}

#[test]
fn parse_error_messages() {
    assert_eq!(
        ParseError::UnterminatedQuote.message(),
        "did not find a closing quote"
    );
    assert_eq!(
        ParseError::DanglingEscape.message(),
        "expected a character after the backslash"
    );
    assert_eq!(ParseError::EmptyCommand.message(), "empty command");
}
