use minishell::dispatch::cd_error_message;
use minishell::dispatch::command_not_found_message;
use minishell::dispatch::echo_output;
use minishell::dispatch::extract_redirections;
use minishell::dispatch::is_builtin;
use minishell::dispatch::plan;
use minishell::dispatch::pwd_output;
use minishell::dispatch::redirection_usage_message;
use minishell::dispatch::type_response;
use minishell::dispatch::Action;
use minishell::dispatch::CdPlan;
use minishell::dispatch::Redirection;
use minishell::tokenizer::parse;

fn words(xs: &[&str]) -> Vec<String> {
    xs.iter().map(|s| String::from(*s)).collect()
}

#[test]
fn redirect_truncate_stdout() {
    let p = plan(&parse("echo hello > /tmp/f"));
    assert_eq!(p.action, Action::WriteStdout(String::from("hello\n")));
    assert_eq!(p.stdout, Redirection::Truncate(String::from("/tmp/f")));
    assert_eq!(p.stderr, Redirection::Inherit);
    assert!(!p.missing_redirect_path);
}

#[test]
fn redirect_append_stdout() {
    let p = plan(&parse("echo hello >> /tmp/f"));
    assert_eq!(p.action, Action::WriteStdout(String::from("hello\n")));
    assert_eq!(p.stdout, Redirection::Append(String::from("/tmp/f")));
    let q = plan(&parse("echo hello 1>> /tmp/f"));
    assert_eq!(q.stdout, Redirection::Append(String::from("/tmp/f")));
    let r = plan(&parse("echo hello 1> /tmp/f"));
    assert_eq!(r.stdout, Redirection::Truncate(String::from("/tmp/f")));
}

#[test]
fn redirect_stderr() {
    let p = plan(&parse("cmd x 2> err.log"));
    assert_eq!(
        p.action,
        Action::Run { name: String::from("cmd"), args: words(&["x"]) }
    );
    assert_eq!(p.stdout, Redirection::Inherit);
    assert_eq!(p.stderr, Redirection::Truncate(String::from("err.log")));
    let q = plan(&parse("cmd 2>> err.log"));
    assert_eq!(q.stderr, Redirection::Append(String::from("err.log")));
}

#[test]
fn redirect_both_channels() {
    let p = plan(&parse("cmd > out.txt 2>> err.txt"));
    assert_eq!(p.stdout, Redirection::Truncate(String::from("out.txt")));
    assert_eq!(p.stderr, Redirection::Append(String::from("err.txt")));
}

#[test]
fn redirect_last_directive_wins() {
    let p = plan(&parse("cmd > a >> b"));
    assert_eq!(p.stdout, Redirection::Append(String::from("b")));
}

#[test]
fn redirect_operator_anywhere_after_command() {
    let p = plan(&parse("cmd > f x y"));
    assert_eq!(
        p.action,
        Action::Run { name: String::from("cmd"), args: words(&["x", "y"]) }
    );
    assert_eq!(p.stdout, Redirection::Truncate(String::from("f")));
}

#[test]
fn redirect_missing_path_flags_usage_error() {
    let p = plan(&parse("echo hi >"));
    assert!(p.missing_redirect_path);
    assert_eq!(p.stdout, Redirection::Inherit);
    assert_eq!(p.action, Action::WriteStdout(String::from("hi\n")));
    let q = plan(&parse("cmd 2>"));
    assert!(q.missing_redirect_path);
    assert_eq!(q.stderr, Redirection::Inherit);
}

#[test]
fn first_token_is_never_an_operator() {
    let p = plan(&parse("> x"));
    assert_eq!(
        p.action,
        Action::Run { name: String::from(">"), args: words(&["x"]) }
    );
    assert_eq!(p.stdout, Redirection::Inherit);
}

#[test]
fn extract_on_empty_tokens() {
    let cl = extract_redirections(&words(&[]));
    assert!(cl.args.is_empty());
    assert_eq!(cl.stdout, Redirection::Inherit);
    assert_eq!(cl.stderr, Redirection::Inherit);
    assert!(!cl.missing_redirect_path);
}

#[test]
fn echo_joins_with_single_spaces() {
    let p = plan(&parse("echo a  b"));
    assert_eq!(p.action, Action::WriteStdout(String::from("a b\n")));
}

#[test]
fn echo_preserves_quoted_whitespace() {
    let p = plan(&parse("echo \"a   b\""));
    assert_eq!(p.action, Action::WriteStdout(String::from("a   b\n")));
}

#[test]
fn echo_without_arguments_is_a_newline() {
    let p = plan(&parse("echo"));
    assert_eq!(p.action, Action::WriteStdout(String::from("\n")));
    assert_eq!(echo_output(&words(&[])), "\n");
    assert_eq!(echo_output(&words(&["hello"])), "hello\n");
    assert_eq!(echo_output(&words(&["a", "b", "c"])), "a b c\n");
}

#[test]
fn type_reports_builtins() {
    assert_eq!(type_response("cd", &None), "cd is a shell builtin\n");
    assert_eq!(
        type_response("echo", &Some(String::from("/bin"))),
        "echo is a shell builtin\n"
    );
}

#[test]
fn type_reports_resolved_and_missing_commands() {
    assert_eq!(type_response("ls", &Some(String::from("/bin"))), "ls is /bin/ls\n");
    assert_eq!(
        type_response("nonexistent_cmd_xyz", &None),
        "nonexistent_cmd_xyz: not found\n"
    );
}

#[test]
fn type_builtin_plans() {
    let p = plan(&parse("type cd"));
    assert_eq!(p.action, Action::QueryType(String::from("cd")));
    let q = plan(&parse("type"));
    assert_eq!(q.action, Action::Nothing);
}

#[test]
fn builtin_set_is_exact() {
    assert!(is_builtin("cd"));
    assert!(is_builtin("echo"));
    assert!(is_builtin("exit"));
    assert!(is_builtin("type"));
    assert!(is_builtin("pwd"));
    assert!(!is_builtin("ls"));
    assert!(!is_builtin("Echo"));
    assert!(!is_builtin(""));
}

#[test]
fn exit_takes_its_operand_as_status() {
    let p = plan(&parse("exit 3"));
    assert_eq!(p.action, Action::Exit(3));
    let q = plan(&parse("exit"));
    assert_eq!(q.action, Action::Exit(0));
    let r = plan(&parse("exit -5"));
    assert_eq!(r.action, Action::Exit(-5));
}

#[test]
fn exit_with_unparsable_operand_is_zero() {
    let p = plan(&parse("exit zzz"));
    assert_eq!(p.action, Action::Exit(0));
    let q = plan(&parse("exit 99999999999999999999"));
    assert_eq!(q.action, Action::Exit(0));
}

#[test]
fn cd_plans() {
    let p = plan(&parse("cd"));
    assert_eq!(p.action, Action::ChangeDir(CdPlan::Stay));
    let q = plan(&parse("cd /tmp"));
    assert_eq!(q.action, Action::ChangeDir(CdPlan::Path(String::from("/tmp"))));
    let r = plan(&parse("cd ~"));
    assert_eq!(r.action, Action::ChangeDir(CdPlan::HomeThen(None)));
    let s = plan(&parse("cd ~ sub"));
    assert_eq!(
        s.action,
        Action::ChangeDir(CdPlan::HomeThen(Some(String::from("sub"))))
    );
}

#[test]
fn pwd_plan_and_output() {
    let p = plan(&parse("pwd"));
    assert_eq!(p.action, Action::PrintWorkingDir);
    assert_eq!(pwd_output("/home/user"), "/home/user\n");
}

#[test]
fn blank_lines_do_nothing() {
    let p = plan(&parse(""));
    assert_eq!(p.action, Action::Nothing);
    let q = plan(&parse("   \t "));
    assert_eq!(q.action, Action::Nothing);
}

#[test]
fn diagnostics_have_exact_text() {
    assert_eq!(cd_error_message("/nope"), "cd: /nope: No such file or directory\n");
    assert_eq!(command_not_found_message("foo"), "foo: command not found\n");
    assert_eq!(command_not_found_message("foo  "), "foo: command not found\n");
    assert_eq!(
        redirection_usage_message(),
        "ERR: path is not given for output redirection\n"
    );
}
