use minishell::resolve::{find_executable, split_sep, DirListing};

fn strs(xs: &[&str]) -> Vec<String> {
    xs.iter().map(|x| x.to_string()).collect()
}

fn listed(path: &str, entries: &[&str]) -> DirListing {
    DirListing { path: path.to_string(), entries: Some(strs(entries)) }
}

fn unreadable(path: &str) -> DirListing {
    DirListing { path: path.to_string(), entries: None }
}

#[test]
fn resolve_first_dir_wins() {
    let dirs = vec![listed("d1", &["prog"]), listed("d2", &["prog"])];
    assert_eq!(find_executable(&dirs, "prog", ""), Some("d1/prog".to_string()));
}

#[test]
fn resolve_skips_unreadable_dir() {
    let dirs = vec![unreadable("gone"), listed("d2", &["prog"])];
    assert_eq!(find_executable(&dirs, "prog", ""), Some("d2/prog".to_string()));
}

#[test]
fn resolve_with_suffix() {
    let dirs = vec![listed("d1", &["other", "prog.exe"])];
    assert_eq!(
        find_executable(&dirs, "prog", ".exe"),
        Some("d1/prog.exe".to_string())
    );
}

#[test]
fn resolve_first_entry_wins() {
    let dirs = vec![listed("d1", &["prog.exe", "prog"])];
    assert_eq!(
        find_executable(&dirs, "prog", ".exe"),
        Some("d1/prog.exe".to_string())
    );
}

#[test]
fn resolve_nothing_found() {
    let dirs = vec![unreadable("gone"), listed("d2", &["other"])];
    assert_eq!(find_executable(&dirs, "prog", ""), None);
}

#[test]
fn resolve_empty_search_path() {
    assert_eq!(find_executable(&Vec::new(), "prog", ""), None);
}

#[test]
fn split_keeps_empty_pieces() {
    assert_eq!(split_sep("a:b::c", ':'), strs(&["a", "b", "", "c"]));
}

#[test]
fn split_empty_string() {
    assert_eq!(split_sep("", ':'), strs(&[""]));
}

#[test]
fn split_without_separator() {
    assert_eq!(split_sep("/usr/bin", ':'), strs(&["/usr/bin"]));
}
