//! The dispatcher: consumes one line's token sequence, extracts redirection
//! directives, classifies the command as a builtin or an external program,
//! and reduces each builtin to the plain value the surrounding loop must
//! write, change into, or exit with.

use vstd::prelude::*;
use crate::numbers::spec_parse_i32;
use crate::numbers::parse_i32;
use crate::text::push_char;
use crate::text::spec_trim_end;
use crate::text::str_eq;
use crate::text::trim_end;
use crate::tokenizer::token_views;

verus! {

/// Where one output channel of a command goes: the shell's own stream, or a
/// file opened for truncation or for appending.
#[derive(Debug, PartialEq)]
pub enum Redirection {
    Inherit,
    Truncate(String),
    Append(String),
}

/// The mathematical content of a `Redirection`.
pub enum RedirectionSpec {
    Inherit,
    Truncate(Seq<char>),
    Append(Seq<char>),
}

impl View for Redirection {
    type V = RedirectionSpec;

    open spec fn view(&self) -> RedirectionSpec {
        match self {
            Redirection::Inherit => RedirectionSpec::Inherit,
            Redirection::Truncate(p) => RedirectionSpec::Truncate(p@),
            Redirection::Append(p) => RedirectionSpec::Append(p@),
        }
    }
}

/// The operators that redirect standard output.
pub open spec fn is_stdout_redirect_op(t: Seq<char>) -> bool {
    t == seq!['>'] || t == seq!['1', '>'] || t == seq!['>', '>'] || t == seq!['1', '>', '>']
}

/// Among the standard-output operators, those that append.
pub open spec fn stdout_op_is_append(t: Seq<char>) -> bool {
    t == seq!['>', '>'] || t == seq!['1', '>', '>']
}

/// The operators that redirect standard error.
pub open spec fn is_stderr_redirect_op(t: Seq<char>) -> bool {
    t == seq!['2', '>'] || t == seq!['2', '>', '>']
}

/// Among the standard-error operators, the appending one.
pub open spec fn stderr_op_is_append(t: Seq<char>) -> bool {
    t == seq!['2', '>', '>']
}

/// One line's command after redirection extraction: the command name and its
/// surviving arguments, one directive per output channel, and whether some
/// redirection operator stood last with no path after it.
pub struct CommandLineSpec {
    pub args: Seq<Seq<char>>,
    pub stdout: RedirectionSpec,
    pub stderr: RedirectionSpec,
    pub missing_redirect_path: bool,
}

/// The redirection scan over the tokens after the command name, left to
/// right. An operator and the token after it are consumed and set the
/// channel's directive (a later directive for the same channel wins); an
/// operator with no token after it only records the usage error; every other
/// token survives as an argument.
pub open spec fn scan_redirections(toks: Seq<Seq<char>>, i: int, st: CommandLineSpec) -> CommandLineSpec
    decreases toks.len() - i,
{
    if i < 0 || i >= toks.len() {
        st
    } else if is_stdout_redirect_op(toks[i]) {
        if i + 1 < toks.len() {
            scan_redirections(
                toks,
                i + 2,
                CommandLineSpec {
                    args: st.args,
                    stdout: if stdout_op_is_append(toks[i]) {
                        RedirectionSpec::Append(toks[i + 1])
                    } else {
                        RedirectionSpec::Truncate(toks[i + 1])
                    },
                    stderr: st.stderr,
                    missing_redirect_path: st.missing_redirect_path,
                },
            )
        } else {
            CommandLineSpec {
                args: st.args,
                stdout: st.stdout,
                stderr: st.stderr,
                missing_redirect_path: true,
            }
        }
    } else if is_stderr_redirect_op(toks[i]) {
        if i + 1 < toks.len() {
            scan_redirections(
                toks,
                i + 2,
                CommandLineSpec {
                    args: st.args,
                    stdout: st.stdout,
                    stderr: if stderr_op_is_append(toks[i]) {
                        RedirectionSpec::Append(toks[i + 1])
                    } else {
                        RedirectionSpec::Truncate(toks[i + 1])
                    },
                    missing_redirect_path: st.missing_redirect_path,
                },
            )
        } else {
            CommandLineSpec {
                args: st.args,
                stdout: st.stdout,
                stderr: st.stderr,
                missing_redirect_path: true,
            }
        }
    } else {
        scan_redirections(
            toks,
            i + 1,
            CommandLineSpec {
                args: st.args.push(toks[i]),
                stdout: st.stdout,
                stderr: st.stderr,
                missing_redirect_path: st.missing_redirect_path,
            },
        )
    }
}

/// A redirection operator standing last on the line, with no path after it,
/// only records the usage error: neither channel's directive changes, no
/// argument is added, and the scan ends.
pub proof fn lemma_dangling_operator(toks: Seq<Seq<char>>, st: CommandLineSpec)
    requires
        toks.len() >= 1,
        is_stdout_redirect_op(toks.last()) || is_stderr_redirect_op(toks.last()),
    ensures
        scan_redirections(toks, toks.len() - 1, st) == (CommandLineSpec {
            args: st.args,
            stdout: st.stdout,
            stderr: st.stderr,
            missing_redirect_path: true,
        }),
{
}

/// The command line a token sequence denotes. The first token is always the
/// command name, never an operator; an empty sequence yields an empty command
/// with both channels inherited.
pub open spec fn spec_command_line(toks: Seq<Seq<char>>) -> CommandLineSpec {
    if toks.len() == 0 {
        CommandLineSpec {
            args: Seq::empty(),
            stdout: RedirectionSpec::Inherit,
            stderr: RedirectionSpec::Inherit,
            missing_redirect_path: false,
        }
    } else {
        scan_redirections(
            toks,
            1,
            CommandLineSpec {
                args: seq![toks[0]],
                stdout: RedirectionSpec::Inherit,
                stderr: RedirectionSpec::Inherit,
                missing_redirect_path: false,
            },
        )
    }
}

/// One line's command after redirection extraction, as owned values.
#[derive(Debug)]
pub struct CommandLine {
    pub args: Vec<String>,
    pub stdout: Redirection,
    pub stderr: Redirection,
    pub missing_redirect_path: bool,
}

impl View for CommandLine {
    type V = CommandLineSpec;

    open spec fn view(&self) -> CommandLineSpec {
        CommandLineSpec {
            args: token_views(self.args@),
            stdout: self.stdout@,
            stderr: self.stderr@,
            missing_redirect_path: self.missing_redirect_path,
        }
    }
}

/// Decides `is_stdout_redirect_op` on an owned token.
fn is_stdout_op_exec(t: &str) -> (r: bool)
    ensures
        r == is_stdout_redirect_op(t@),
{
    proof {
        reveal_strlit(">");
        reveal_strlit("1>");
        reveal_strlit(">>");
        reveal_strlit("1>>");
        assert(">"@ =~= seq!['>']);
        assert("1>"@ =~= seq!['1', '>']);
        assert(">>"@ =~= seq!['>', '>']);
        assert("1>>"@ =~= seq!['1', '>', '>']);
    }
    str_eq(t, ">") || str_eq(t, "1>") || str_eq(t, ">>") || str_eq(t, "1>>")
}

/// Decides `stdout_op_is_append` on an owned token.
fn is_stdout_append_exec(t: &str) -> (r: bool)
    ensures
        r == stdout_op_is_append(t@),
{
    proof {
        reveal_strlit(">>");
        reveal_strlit("1>>");
        assert(">>"@ =~= seq!['>', '>']);
        assert("1>>"@ =~= seq!['1', '>', '>']);
    }
    str_eq(t, ">>") || str_eq(t, "1>>")
}

/// Decides `is_stderr_redirect_op` on an owned token.
fn is_stderr_op_exec(t: &str) -> (r: bool)
    ensures
        r == is_stderr_redirect_op(t@),
{
    proof {
        reveal_strlit("2>");
        reveal_strlit("2>>");
        assert("2>"@ =~= seq!['2', '>']);
        assert("2>>"@ =~= seq!['2', '>', '>']);
    }
    str_eq(t, "2>") || str_eq(t, "2>>")
}

/// Decides `stderr_op_is_append` on an owned token.
fn is_stderr_append_exec(t: &str) -> (r: bool)
    ensures
        r == stderr_op_is_append(t@),
{
    proof {
        reveal_strlit("2>>");
        assert("2>>"@ =~= seq!['2', '>', '>']);
    }
    str_eq(t, "2>>")
}

/// Extracts the redirection directives from one line's tokens and strips the
/// operators and their paths from the argument list, exactly as
/// `spec_command_line` describes.
pub fn extract_redirections(tokens: &Vec<String>) -> (r: CommandLine)
    ensures
        r@ == spec_command_line(token_views(tokens@)),
{
    let ghost toks = token_views(tokens@);
    if tokens.len() == 0 {
        let r = CommandLine {
            args: Vec::new(),
            stdout: Redirection::Inherit,
            stderr: Redirection::Inherit,
            missing_redirect_path: false,
        };
        proof {
            assert(r@.args =~= Seq::<Seq<char>>::empty());
        }
        return r;
    }
    let mut args: Vec<String> = Vec::new();
    args.push(tokens[0].clone());
    let mut stdout_r = Redirection::Inherit;
    let mut stderr_r = Redirection::Inherit;
    let mut missing = false;
    let mut i: usize = 1;
    proof {
        assert(token_views(args@) =~= seq![toks[0]]);
    }
    while i < tokens.len()
        invariant
            1 <= i <= tokens@.len(),
            toks == token_views(tokens@),
            scan_redirections(
                toks,
                i as int,
                (CommandLineSpec {
                    args: token_views(args@),
                    stdout: stdout_r@,
                    stderr: stderr_r@,
                    missing_redirect_path: missing,
                }),
            ) == spec_command_line(toks),
        decreases tokens@.len() - i,
    {
        let is_out = is_stdout_op_exec(tokens[i].as_str());
        let is_err = is_stderr_op_exec(tokens[i].as_str());
        if is_out {
            if i + 1 < tokens.len() {
                let path = tokens[i + 1].clone();
                if is_stdout_append_exec(tokens[i].as_str()) {
                    stdout_r = Redirection::Append(path);
                } else {
                    stdout_r = Redirection::Truncate(path);
                }
                i = i + 2;
            } else {
                missing = true;
                i = i + 1;
            }
        } else if is_err {
            if i + 1 < tokens.len() {
                let path = tokens[i + 1].clone();
                if is_stderr_append_exec(tokens[i].as_str()) {
                    stderr_r = Redirection::Append(path);
                } else {
                    stderr_r = Redirection::Truncate(path);
                }
                i = i + 2;
            } else {
                missing = true;
                i = i + 1;
            }
        } else {
            let ghost before = token_views(args@);
            args.push(tokens[i].clone());
            proof {
                assert(token_views(args@) =~= before.push(toks[i as int]));
            }
            i = i + 1;
        }
    }
    CommandLine { args, stdout: stdout_r, stderr: stderr_r, missing_redirect_path: missing }
}

/// The closed set of builtin command names.
pub open spec fn spec_builtin(name: Seq<char>) -> bool {
    ||| name == seq!['c', 'd']
    ||| name == seq!['e', 'c', 'h', 'o']
    ||| name == seq!['e', 'x', 'i', 't']
    ||| name == seq!['t', 'y', 'p', 'e']
    ||| name == seq!['p', 'w', 'd']
}

/// Decides, by exact case-sensitive match, whether a command name is one of
/// the builtins.
pub fn is_builtin(name: &str) -> (r: bool)
    ensures
        r == spec_builtin(name@),
{
    proof {
        reveal_strlit("cd");
        reveal_strlit("echo");
        reveal_strlit("exit");
        reveal_strlit("type");
        reveal_strlit("pwd");
        assert("cd"@ =~= seq!['c', 'd']);
        assert("echo"@ =~= seq!['e', 'c', 'h', 'o']);
        assert("exit"@ =~= seq!['e', 'x', 'i', 't']);
        assert("type"@ =~= seq!['t', 'y', 'p', 'e']);
        assert("pwd"@ =~= seq!['p', 'w', 'd']);
    }
    str_eq(name, "cd") || str_eq(name, "echo") || str_eq(name, "exit") || str_eq(name, "type")
        || str_eq(name, "pwd")
}

/// The arguments joined by single spaces.
pub open spec fn spec_join_spaces(args: Seq<Seq<char>>) -> Seq<char>
    decreases args.len(),
{
    if args.len() == 0 {
        Seq::empty()
    } else if args.len() == 1 {
        args[0]
    } else {
        spec_join_spaces(args.drop_last()) + seq![' '] + args.last()
    }
}

/// What `echo` writes: its arguments joined by single spaces, then a
/// newline. Zero arguments yield just the newline.
pub open spec fn spec_echo_output(args: Seq<Seq<char>>) -> Seq<char> {
    spec_join_spaces(args) + seq!['\n']
}

/// Builds the `echo` output line, as `spec_echo_output` describes.
pub fn echo_output(args: &Vec<String>) -> (r: String)
    ensures
        r@ == spec_echo_output(token_views(args@)),
{
    let ghost av = token_views(args@);
    let mut r = String::new();
    let mut idx: usize = 0;
    while idx < args.len()
        invariant
            idx <= args@.len(),
            av == token_views(args@),
            idx == 0 ==> r@ == Seq::<char>::empty(),
            0 < idx < av.len() ==> r@ == spec_join_spaces(av.take(idx as int)) + seq![' '],
            idx == av.len() && idx > 0 ==> r@ == spec_join_spaces(av),
        decreases args@.len() - idx,
    {
        let ghost rpre = r@;
        r.append(args[idx].as_str());
        proof {
            let k = idx as int;
            assert(av.take(k + 1).drop_last() =~= av.take(k));
            assert(av.take(k + 1).last() == av[k]);
            if k == 0 {
                assert(r@ =~= av.take(1)[0]);
                assert(spec_join_spaces(av.take(1)) == av.take(1)[0]);
            } else {
                assert(r@ =~= spec_join_spaces(av.take(k)) + seq![' '] + av[k]);
                assert(spec_join_spaces(av.take(k + 1)) == spec_join_spaces(av.take(k)) + seq![' ']
                    + av[k]);
            }
            if k + 1 == av.len() {
                assert(av.take(k + 1) =~= av);
            }
        }
        if idx + 1 < args.len() {
            push_char(&mut r, ' ');
            proof {
                assert(r@ =~= spec_join_spaces(av.take(idx as int + 1)) + seq![' ']);
            }
        }
        idx = idx + 1;
    }
    push_char(&mut r, '\n');
    proof {
        if av.len() == 0 {
            assert(r@ =~= spec_join_spaces(av) + seq!['\n']);
        } else {
            assert(r@ =~= spec_join_spaces(av) + seq!['\n']);
        }
    }
    r
}

/// What `cd` is to do: nothing without an operand; with the literal operand
/// `~`, change into the home directory and then, if a further operand stands
/// there, into that path; otherwise change into the first operand directly.
/// Operands past the ones named here are ignored.
#[derive(Debug, PartialEq)]
pub enum CdPlan {
    Stay,
    HomeThen(Option<String>),
    Path(String),
}

/// The mathematical content of a `CdPlan`.
pub enum CdPlanSpec {
    Stay,
    HomeThen(Option<Seq<char>>),
    Path(Seq<char>),
}

impl View for CdPlan {
    type V = CdPlanSpec;

    open spec fn view(&self) -> CdPlanSpec {
        match self {
            CdPlan::Stay => CdPlanSpec::Stay,
            CdPlan::HomeThen(o) => CdPlanSpec::HomeThen(
                match o {
                    Some(p) => Some(p@),
                    None => None,
                },
            ),
            CdPlan::Path(p) => CdPlanSpec::Path(p@),
        }
    }
}

/// The `cd` plan a stripped argument list denotes.
pub open spec fn spec_cd_plan(args: Seq<Seq<char>>) -> CdPlanSpec {
    if args.len() <= 1 {
        CdPlanSpec::Stay
    } else if args[1] == seq!['~'] {
        if args.len() >= 3 {
            CdPlanSpec::HomeThen(Some(args[2]))
        } else {
            CdPlanSpec::HomeThen(None)
        }
    } else {
        CdPlanSpec::Path(args[1])
    }
}

/// The status `exit` terminates with: its first operand read as an `i32`,
/// with `0` for a missing or unparsable operand.
pub open spec fn spec_exit_code(args: Seq<Seq<char>>) -> int {
    if args.len() >= 2 {
        match spec_parse_i32(args[1]) {
            Some(v) => v,
            None => 0,
        }
    } else {
        0
    }
}

/// What one command line asks the surrounding loop to do. Everything that
/// can be computed from the tokens alone is computed here; the loop only
/// performs the filesystem or process effect.
#[derive(Debug, PartialEq)]
pub enum Action {
    /// An empty line: show the next prompt.
    Nothing,
    /// The `cd` builtin.
    ChangeDir(CdPlan),
    /// The `pwd` builtin: write the current directory to the stdout channel.
    PrintWorkingDir,
    /// The `echo` builtin: write this exact text to the stdout channel.
    WriteStdout(String),
    /// The `type` builtin: describe this name (resolving it on the search
    /// path when it is not a builtin) on the stdout channel.
    QueryType(String),
    /// The `exit` builtin: terminate the process with this status.
    Exit(i32),
    /// An external command: resolve `name` on the search path and run it
    /// with `args`.
    Run { name: String, args: Vec<String> },
}

/// The mathematical content of an `Action`.
pub enum ActionSpec {
    Nothing,
    ChangeDir(CdPlanSpec),
    PrintWorkingDir,
    WriteStdout(Seq<char>),
    QueryType(Seq<char>),
    Exit(int),
    Run { name: Seq<char>, args: Seq<Seq<char>> },
}

impl View for Action {
    type V = ActionSpec;

    open spec fn view(&self) -> ActionSpec {
        match self {
            Action::Nothing => ActionSpec::Nothing,
            Action::ChangeDir(p) => ActionSpec::ChangeDir(p@),
            Action::PrintWorkingDir => ActionSpec::PrintWorkingDir,
            Action::WriteStdout(s) => ActionSpec::WriteStdout(s@),
            Action::QueryType(n) => ActionSpec::QueryType(n@),
            Action::Exit(c) => ActionSpec::Exit(*c as int),
            Action::Run { name, args } => ActionSpec::Run {
                name: name@,
                args: token_views(args@),
            },
        }
    }
}

/// The action a stripped argument list denotes: builtin dispatch by exact
/// match on the first argument, external execution otherwise. `type` without
/// an operand does nothing, as does an empty line.
pub open spec fn spec_action(args: Seq<Seq<char>>) -> ActionSpec {
    if args.len() == 0 {
        ActionSpec::Nothing
    } else if args[0] == seq!['c', 'd'] {
        ActionSpec::ChangeDir(spec_cd_plan(args))
    } else if args[0] == seq!['p', 'w', 'd'] {
        ActionSpec::PrintWorkingDir
    } else if args[0] == seq!['e', 'c', 'h', 'o'] {
        ActionSpec::WriteStdout(spec_echo_output(args.drop_first()))
    } else if args[0] == seq!['t', 'y', 'p', 'e'] {
        if args.len() >= 2 {
            ActionSpec::QueryType(args[1])
        } else {
            ActionSpec::Nothing
        }
    } else if args[0] == seq!['e', 'x', 'i', 't'] {
        ActionSpec::Exit(spec_exit_code(args))
    } else {
        ActionSpec::Run { name: args[0], args: args.drop_first() }
    }
}

/// Everything the loop needs to run one line: the action and the two
/// channel directives, plus the redirection usage error if one occurred.
#[derive(Debug, PartialEq)]
pub struct Plan {
    pub action: Action,
    pub stdout: Redirection,
    pub stderr: Redirection,
    pub missing_redirect_path: bool,
}

/// The mathematical content of a `Plan`.
pub struct PlanSpec {
    pub action: ActionSpec,
    pub stdout: RedirectionSpec,
    pub stderr: RedirectionSpec,
    pub missing_redirect_path: bool,
}

impl View for Plan {
    type V = PlanSpec;

    open spec fn view(&self) -> PlanSpec {
        PlanSpec {
            action: self.action@,
            stdout: self.stdout@,
            stderr: self.stderr@,
            missing_redirect_path: self.missing_redirect_path,
        }
    }
}

/// The plan a whole token sequence denotes: redirection extraction followed
/// by command classification.
pub open spec fn spec_plan(toks: Seq<Seq<char>>) -> PlanSpec {
    let cl = spec_command_line(toks);
    PlanSpec {
        action: spec_action(cl.args),
        stdout: cl.stdout,
        stderr: cl.stderr,
        missing_redirect_path: cl.missing_redirect_path,
    }
}

/// Clones the elements of `v` from position `from` on.
fn clone_tail(v: &Vec<String>, from: usize) -> (r: Vec<String>)
    requires
        from as int <= v@.len(),
    ensures
        token_views(r@) == token_views(v@).skip(from as int),
{
    let mut r: Vec<String> = Vec::new();
    let mut i = from;
    proof {
        assert(token_views(r@) =~= token_views(v@).subrange(from as int, from as int));
    }
    while i < v.len()
        invariant
            from <= i <= v@.len(),
            token_views(r@) == token_views(v@).subrange(from as int, i as int),
        decreases v@.len() - i,
    {
        let ghost before = token_views(r@);
        r.push(v[i].clone());
        proof {
            assert(token_views(r@) =~= before.push(v@[i as int]@));
            assert(token_views(v@).subrange(from as int, i as int + 1) =~= token_views(
                v@,
            ).subrange(from as int, i as int).push(v@[i as int]@));
        }
        i = i + 1;
    }
    proof {
        assert(token_views(v@).subrange(from as int, v@.len() as int) =~= token_views(v@).skip(
            from as int,
        ));
    }
    r
}

/// Turns one line's tokens into the plan the loop runs: extracts the
/// redirections, then classifies and reduces the command, exactly as
/// `spec_plan` describes.
pub fn plan(tokens: &Vec<String>) -> (p: Plan)
    ensures
        p@ == spec_plan(token_views(tokens@)),
{
    let cl = extract_redirections(tokens);
    let ghost clv = cl@;
    let CommandLine { args, stdout, stderr, missing_redirect_path } = cl;
    proof {
        reveal_strlit("cd");
        reveal_strlit("pwd");
        reveal_strlit("echo");
        reveal_strlit("type");
        reveal_strlit("exit");
        reveal_strlit("~");
        assert("cd"@ =~= seq!['c', 'd']);
        assert("pwd"@ =~= seq!['p', 'w', 'd']);
        assert("echo"@ =~= seq!['e', 'c', 'h', 'o']);
        assert("type"@ =~= seq!['t', 'y', 'p', 'e']);
        assert("exit"@ =~= seq!['e', 'x', 'i', 't']);
        assert("~"@ =~= seq!['~']);
    }
    let action: Action;
    if args.len() == 0 {
        action = Action::Nothing;
    } else if str_eq(args[0].as_str(), "cd") {
        let cd = if args.len() == 1 {
            CdPlan::Stay
        } else if str_eq(args[1].as_str(), "~") {
            if args.len() >= 3 {
                CdPlan::HomeThen(Some(args[2].clone()))
            } else {
                CdPlan::HomeThen(None)
            }
        } else {
            CdPlan::Path(args[1].clone())
        };
        action = Action::ChangeDir(cd);
    } else if str_eq(args[0].as_str(), "pwd") {
        action = Action::PrintWorkingDir;
    } else if str_eq(args[0].as_str(), "echo") {
        let rest = clone_tail(&args, 1);
        proof {
            assert(token_views(args@).skip(1) =~= clv.args.drop_first());
        }
        action = Action::WriteStdout(echo_output(&rest));
    } else if str_eq(args[0].as_str(), "type") {
        if args.len() >= 2 {
            action = Action::QueryType(args[1].clone());
        } else {
            action = Action::Nothing;
        }
    } else if str_eq(args[0].as_str(), "exit") {
        let code: i32 = if args.len() >= 2 {
            match parse_i32(args[1].as_str()) {
                Some(v) => v,
                None => 0,
            }
        } else {
            0
        };
        action = Action::Exit(code);
    } else {
        let rest = clone_tail(&args, 1);
        proof {
            assert(token_views(args@).skip(1) =~= clv.args.drop_first());
        }
        action = Action::Run { name: args[0].clone(), args: rest };
    }
    Plan { action, stdout, stderr, missing_redirect_path }
}

/// The view of an optional owned string.
pub open spec fn opt_str_view(o: Option<String>) -> Option<Seq<char>> {
    match o {
        Some(d) => Some(d@),
        None => None,
    }
}

/// What `type <name>` writes: builtins report themselves; anything else is
/// looked up on the search path and reported with its directory, or as not
/// found.
pub open spec fn spec_type_response(name: Seq<char>, resolved: Option<Seq<char>>) -> Seq<char> {
    if spec_builtin(name) {
        name + " is a shell builtin\n"@
    } else {
        match resolved {
            Some(dir) => name + " is "@ + dir + seq!['/'] + name + seq!['\n'],
            None => name + ": not found\n"@,
        }
    }
}

/// Builds the `type` builtin's output for a name, given the directory the
/// search path resolved it to (ignored when the name is itself a builtin).
pub fn type_response(name: &str, resolved: &Option<String>) -> (r: String)
    ensures
        r@ == spec_type_response(name@, opt_str_view(*resolved)),
{
    let mut r = name.to_owned();
    if is_builtin(name) {
        r.append(" is a shell builtin\n");
    } else {
        match resolved {
            Some(dir) => {
                r.append(" is ");
                r.append(dir.as_str());
                push_char(&mut r, '/');
                r.append(name);
                push_char(&mut r, '\n');
                proof {
                    assert(r@ =~= name@ + " is "@ + dir@ + seq!['/'] + name@ + seq!['\n']);
                }
            },
            None => {
                r.append(": not found\n");
            },
        }
    }
    r
}

/// What a failed directory change reports on the stderr channel.
pub open spec fn spec_cd_error(path: Seq<char>) -> Seq<char> {
    "cd: "@ + path + ": No such file or directory\n"@
}

/// Builds the diagnostic for a failed `cd`.
pub fn cd_error_message(path: &str) -> (r: String)
    ensures
        r@ == spec_cd_error(path@),
{
    let mut r = "cd: ".to_owned();
    r.append(path);
    r.append(": No such file or directory\n");
    proof {
        assert(r@ =~= spec_cd_error(path@));
    }
    r
}

/// What an unresolvable external command reports on the stderr channel: the
/// name, trailing whitespace trimmed, marked not found.
pub open spec fn spec_command_not_found(name: Seq<char>) -> Seq<char> {
    spec_trim_end(name) + ": command not found\n"@
}

/// Builds the diagnostic for an unresolvable command name.
pub fn command_not_found_message(name: &str) -> (r: String)
    ensures
        r@ == spec_command_not_found(name@),
{
    let mut r = trim_end(name);
    r.append(": command not found\n");
    r
}

/// Builds the `pwd` builtin's output: the directory followed by a newline.
pub fn pwd_output(dir: &str) -> (r: String)
    ensures
        r@ == dir@ + seq!['\n'],
{
    let mut r = dir.to_owned();
    push_char(&mut r, '\n');
    proof {
        assert(r@ =~= dir@ + seq!['\n']);
    }
    r
}

/// Builds the usage diagnostic for a redirection operator that stood last on
/// the line with no path after it. It goes to the shell's own stderr, not to
/// the command's redirection target.
pub fn redirection_usage_message() -> (r: String)
    ensures
        r@ == "ERR: path is not given for output redirection\n"@,
{
    "ERR: path is not given for output redirection\n".to_owned()
}

} // verus!
