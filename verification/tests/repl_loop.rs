use minishell::builtins::Builtin;
use minishell::repl::{dispatch, is_blank, plan_line, trim_newline, Dispatch, LineAction};
use minishell::resolve::DirListing;
use minishell::text::str_eq;
use minishell::tokenize::ParseError;

fn strs(xs: &[&str]) -> Vec<String> {
    xs.iter().map(|x| x.to_string()).collect()
}

fn listed(path: &str, entries: &[&str]) -> DirListing {
    DirListing { path: path.to_string(), entries: Some(strs(entries)) }
}

#[test]
fn blank_line_redisplays_prompt() {
    assert_eq!(plan_line("   \t \n"), LineAction::Redisplay);
    assert_eq!(plan_line("\n"), LineAction::Redisplay);
    assert_eq!(plan_line(""), LineAction::Redisplay);
}

#[test]
fn plan_runs_parsed_command() {
    match plan_line("echo hi\n") {
        LineAction::Run(cmd) => {
            assert_eq!(cmd.program, "echo");
            assert_eq!(cmd.args, strs(&["hi"]));
        }
        other => panic!("expected a command, got {:?}", other),
    }
}

#[test]
fn plan_rejects_bad_quoting() {
    assert_eq!(
        plan_line("'oops\n"),
        LineAction::Reject(ParseError::UnterminatedQuote)
    );
}

#[test]
fn plan_discards_tokenless_line() {
    assert_eq!(plan_line("''\n"), LineAction::Redisplay);
}

#[test]
fn trim_newline_variants() {
    assert_eq!(trim_newline("abc\r\n"), "abc");
    assert_eq!(trim_newline("abc\n"), "abc");
    assert_eq!(trim_newline("abc"), "abc");
    assert_eq!(trim_newline("abc\r"), "abc\r");
    assert_eq!(trim_newline("\n"), "");
}

#[test]
fn is_blank_cases() {
    assert!(is_blank(""));
    assert!(is_blank(" \t "));
    assert!(!is_blank(" a "));
}

#[test]
fn str_eq_cases() {
    assert!(str_eq("abc", "abc"));
    assert!(!str_eq("abc", "abd"));
    assert!(!str_eq("abc", "ab"));
}

#[test]
fn dispatch_prefers_builtin() {
    // `echo` also exists on the search path; the builtin wins.
    let dirs = vec![listed("d1", &["echo"])];
    assert_eq!(dispatch("echo", &dirs, ""), Dispatch::RunBuiltin(Builtin::Echo));
}

#[test]
fn dispatch_runs_external() {
    let dirs = vec![listed("d1", &["prog"])];
    assert_eq!(
        dispatch("prog", &dirs, ""),
        Dispatch::RunExternal("d1/prog".to_string())
    );
}

#[test]
fn dispatch_reports_not_found() {
    let dirs = vec![listed("d1", &["other"])];
    assert_eq!(
        dispatch("prog", &dirs, ""),
        Dispatch::NotFound("prog: command not found".to_string())
    );
}
