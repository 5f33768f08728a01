use minishell::numbers::parse_i32;
use minishell::resolve::resolve_command;
use minishell::resolve::DirListing;

fn listing(dir: &str, files: &[&str]) -> DirListing {
    DirListing {
        dir: String::from(dir),
        files: files.iter().map(|s| String::from(*s)).collect(),
    }
}

#[test]
fn resolve_first_match_wins() {
    let dirs = vec![listing("/usr/bin", &["a", "b"]), listing("/bin", &["b", "c"])];
    assert_eq!(resolve_command("b", &dirs), Some(String::from("/usr/bin")));
    assert_eq!(resolve_command("c", &dirs), Some(String::from("/bin")));
    assert_eq!(resolve_command("a", &dirs), Some(String::from("/usr/bin")));
}

#[test]
fn resolve_missing_name_is_none() {
    let dirs = vec![listing("/usr/bin", &["a"]), listing("/bin", &["b"])];
    assert_eq!(resolve_command("z", &dirs), None);
    assert_eq!(resolve_command("a", &Vec::new()), None);
}

#[test]
fn resolve_matches_names_exactly() {
    let dirs = vec![listing("/bin", &["grep"])];
    assert_eq!(resolve_command("grep", &dirs), Some(String::from("/bin")));
    assert_eq!(resolve_command("gre", &dirs), None);
    assert_eq!(resolve_command("Grep", &dirs), None);
}

#[test]
fn parse_i32_accepts_signed_decimals() {
    assert_eq!(parse_i32("42"), Some(42));
    assert_eq!(parse_i32("-7"), Some(-7));
    assert_eq!(parse_i32("+0"), Some(0));
    assert_eq!(parse_i32("007"), Some(7));
    assert_eq!(parse_i32("2147483647"), Some(i32::MAX));
    assert_eq!(parse_i32("-2147483648"), Some(i32::MIN));
}

#[test]
fn parse_i32_rejects_garbage_and_overflow() {
    assert_eq!(parse_i32(""), None);
    assert_eq!(parse_i32("-"), None);
    assert_eq!(parse_i32("+"), None);
    assert_eq!(parse_i32("12a"), None);
    assert_eq!(parse_i32(" 1"), None);
    assert_eq!(parse_i32("2147483648"), None);
    assert_eq!(parse_i32("-2147483649"), None);
    assert_eq!(parse_i32("99999999999999999999"), None);
}
