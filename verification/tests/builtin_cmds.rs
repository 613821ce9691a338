use minishell::builtins::{
    builtin_echo, builtin_exit, builtin_of, builtin_type, cd_outcome, cd_target, parse_u8,
    Builtin, CanonicalOutcome, CdAction, CdError, CdTarget, ExitError,
};
use minishell::resolve::DirListing;

fn strs(xs: &[&str]) -> Vec<String> {
    xs.iter().map(|x| x.to_string()).collect()
}

fn listed(path: &str, entries: &[&str]) -> DirListing {
    DirListing { path: path.to_string(), entries: Some(strs(entries)) }
}

#[test]
fn builtin_registry() {
    assert_eq!(builtin_of("exit"), Some(Builtin::Exit));
    assert_eq!(builtin_of("echo"), Some(Builtin::Echo));
    assert_eq!(builtin_of("type"), Some(Builtin::Type));
    assert_eq!(builtin_of("pwd"), Some(Builtin::Pwd));
    assert_eq!(builtin_of("cd"), Some(Builtin::Cd));
    assert_eq!(builtin_of("ls"), None);
    assert_eq!(builtin_of("Echo"), None);
}

#[test]
fn exit_without_argument() {
    assert_eq!(builtin_exit(&Vec::new()), Ok(0));
}

#[test]
fn exit_zero() {
    assert_eq!(builtin_exit(&strs(&["0"])), Ok(0));
}

#[test]
fn exit_two_hundred() {
    assert_eq!(builtin_exit(&strs(&["200"])), Ok(200));
}

#[test]
fn exit_out_of_range() {
    assert_eq!(builtin_exit(&strs(&["999"])), Err(ExitError::InvalidCode));
}

#[test]
fn exit_not_a_number() {
    assert_eq!(builtin_exit(&strs(&["abc"])), Err(ExitError::InvalidCode));
}

#[test]
fn exit_extra_arguments() {
    assert_eq!(builtin_exit(&strs(&["1", "2"])), Err(ExitError::ExtraArgs));
}

#[test]
fn parse_u8_cases() {
    assert_eq!(parse_u8("255"), Some(255));
    assert_eq!(parse_u8("256"), None);
    assert_eq!(parse_u8("007"), Some(7));
    assert_eq!(parse_u8(""), None);
    assert_eq!(parse_u8("12a"), None);
    assert_eq!(parse_u8("+5"), None);
}

#[test]
fn echo_joins_with_spaces() {
    assert_eq!(builtin_echo(&strs(&["a", "b c", "d"])), "a b c d");
}

#[test]
fn echo_without_arguments() {
    assert_eq!(builtin_echo(&Vec::new()), "");
}

#[test]
fn type_builtin_shadows_external() {
    // An external executable named like the builtin exists, and loses.
    let dirs = vec![listed("d1", &["echo"])];
    assert_eq!(
        builtin_type(&strs(&["echo"]), &dirs, ""),
        strs(&["echo is a shell builtin"])
    );
}

#[test]
fn type_reports_resolved_path() {
    let dirs = vec![listed("d1", &["prog"])];
    assert_eq!(
        builtin_type(&strs(&["prog"]), &dirs, ""),
        strs(&["prog is d1/prog"])
    );
}

#[test]
fn type_reports_not_found() {
    let dirs = vec![listed("d1", &["prog"])];
    assert_eq!(
        builtin_type(&strs(&["zzz"]), &dirs, ""),
        strs(&["zzz: not found"])
    );
}

#[test]
fn type_keeps_order() {
    let dirs = vec![listed("d1", &["prog"])];
    assert_eq!(
        builtin_type(&strs(&["cd", "prog", "zzz"]), &dirs, ""),
        strs(&["cd is a shell builtin", "prog is d1/prog", "zzz: not found"])
    );
}

#[test]
fn cd_to_home() {
    assert_eq!(cd_target(&strs(&["~"])), Ok(CdTarget::Home));
}

#[test]
fn cd_to_path() {
    assert_eq!(
        cd_target(&strs(&["/tmp"])),
        Ok(CdTarget::Path("/tmp".to_string()))
    );
}

#[test]
fn cd_wrong_argument_count() {
    assert_eq!(cd_target(&Vec::new()), Err(CdError::BadArgCount));
    assert_eq!(cd_target(&strs(&["a", "b"])), Err(CdError::BadArgCount));
}

#[test]
fn cd_missing_path_reports_and_keeps_cwd() {
    // The working directory is only changed by a `ChangeTo` action, so a
    // `Report` leaves it as it was.
    assert_eq!(
        cd_outcome("nowhere", CanonicalOutcome::Missing),
        CdAction::Report("cd: nowhere: No such file or directory".to_string())
    );
}

#[test]
fn cd_resolved_path_changes_dir() {
    assert_eq!(
        cd_outcome("x", CanonicalOutcome::Resolved("/real/x".to_string())),
        CdAction::ChangeTo("/real/x".to_string())
    );
}

#[test]
fn cd_other_failure_is_fatal() {
    assert_eq!(cd_outcome("x", CanonicalOutcome::Failed), CdAction::Fatal);
}
