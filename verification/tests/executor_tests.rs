use zero_shell::executor::builtins::options::{expand_path, read_options, ListFlags, Place};
use zero_shell::executor::builtins::{cp, echo, exit, help, ls, mkdir, mv, pwd, rm};
use zero_shell::executor::{Builtin, ExecutionResult, Executor, ExecutorError, Step};
use zero_shell::lexer::Lexer;
use zero_shell::parser::{Command, Parser, RedirectOp};

fn strings(words: &[&str]) -> Vec<String> {
    let mut out = Vec::new();
    for word in words {
        out.push(word.to_string());
    }
    out
}

fn simple(words: &[&str]) -> Command {
    Command::simple(strings(words))
}

fn parse_line(line: &str) -> Command {
    Parser::new(Lexer::new(line).lex().unwrap()).parse().unwrap()
}

fn ok(output: &str, success: bool) -> Result<ExecutionResult, ExecutorError> {
    Ok(ExecutionResult { output: output.to_string(), success, should_exit: false })
}

fn printed(output: &str) -> Step {
    Step::Done(ok(output, true))
}

fn run(builtin: Builtin, args: &[&str]) -> Step {
    Step::Run { builtin, args: strings(args) }
}

#[test]
fn default_result_is_silent_success() {
    let result = ExecutionResult::default();
    assert_eq!(result.output, "");
    assert!(result.success);
    assert!(!result.should_exit);
}

#[test]
fn empty_simple_command_does_nothing() {
    let executor = Executor::new("/".to_string());
    assert_eq!(executor.execute(&Command::simple(Vec::new()), &[]), printed(""));
}

#[test]
fn unknown_name_is_command_not_found() {
    let executor = Executor::new("/".to_string());
    assert_eq!(
        executor.execute(&simple(&["frobnicate", "x"]), &[]),
        Step::Done(Err(ExecutorError::CommandNotFound("frobnicate".to_string())))
    );
}

#[test]
fn echo_is_decided_without_the_host() {
    let executor = Executor::new("/".to_string());
    assert_eq!(executor.execute(&parse_line("echo a  b"), &[]), printed("a b\n"));
}

#[test]
fn host_operation_is_asked_for_with_the_other_arguments() {
    let executor = Executor::new("/".to_string());
    assert_eq!(
        executor.execute(&parse_line("ls -a dir"), &[]),
        run(Builtin::Ls, &["-a", "dir"])
    );
    assert_eq!(executor.execute(&parse_line("cd"), &[]), run(Builtin::Cd, &[]));
}

#[test]
fn reported_outcome_is_the_result() {
    let executor = Executor::new("/".to_string());
    let command = parse_line("cat f");
    assert_eq!(executor.execute(&command, &[ok("text", true)]), printed("text"));
    let failure = Err(ExecutorError::IoError("no such file".to_string()));
    assert_eq!(
        executor.execute(&command, &[failure.clone()]),
        Step::Done(failure)
    );
    let failure = Err(ExecutorError::ChangeDirectoryError("x: Not a directory".to_string()));
    assert_eq!(
        executor.execute(&parse_line("cd x && pwd"), &[failure.clone()]),
        Step::Done(failure)
    );
}

#[test]
fn and_with_failed_left_skips_right() {
    let executor = Executor::new("/".to_string());
    let command = parse_line("cat f && ls");
    assert_eq!(executor.execute(&command, &[]), run(Builtin::Cat, &["f"]));
    assert_eq!(
        executor.execute(&command, &[ok("partial", false)]),
        Step::Done(ok("partial", false))
    );
    let exiting =
        Ok(ExecutionResult { output: "bye".to_string(), success: false, should_exit: true });
    assert_eq!(executor.execute(&command, &[exiting]), Step::Done(ok("bye", false)));
}

#[test]
fn and_with_successful_left_gives_right() {
    let executor = Executor::new("/".to_string());
    let command = parse_line("cat f && ls");
    assert_eq!(executor.execute(&command, &[ok("text", true)]), run(Builtin::Ls, &[]));
    assert_eq!(
        executor.execute(&command, &[ok("text", true), ok("a\nb\n", true)]),
        printed("a\nb\n")
    );
}

#[test]
fn or_with_successful_left_skips_right() {
    let executor = Executor::new("/".to_string());
    let command = parse_line("echo hi || ls");
    assert_eq!(executor.execute(&command, &[]), printed("hi\n"));
    let command = parse_line("cat f || ls");
    assert_eq!(executor.execute(&command, &[ok("text", true)]), printed("text"));
}

#[test]
fn or_with_failed_left_gives_right() {
    let executor = Executor::new("/".to_string());
    let command = parse_line("cat f || echo fallback");
    assert_eq!(executor.execute(&command, &[ok("", false)]), printed("fallback\n"));
}

#[test]
fn error_ends_the_evaluation() {
    let executor = Executor::new("/".to_string());
    let error = ExecutorError::CommandNotFound("nope".to_string());
    assert_eq!(
        executor.execute(&parse_line("nope && echo a"), &[]),
        Step::Done(Err(error.clone()))
    );
    assert_eq!(
        executor.execute(&parse_line("nope || echo a"), &[]),
        Step::Done(Err(error.clone()))
    );
    assert_eq!(
        executor.execute(&parse_line("echo a; nope; echo b"), &[]),
        Step::Done(Err(error))
    );
}

#[test]
fn sequence_gives_last_result() {
    let executor = Executor::new("/".to_string());
    assert_eq!(executor.execute(&parse_line("echo a; echo b; echo c"), &[]), printed("c\n"));
    let command = parse_line("cat f; echo b");
    assert_eq!(executor.execute(&command, &[]), run(Builtin::Cat, &["f"]));
    assert_eq!(executor.execute(&command, &[ok("x", false)]), printed("b\n"));
    assert_eq!(executor.execute(&Command::sequence(Vec::new()), &[]), printed(""));
}

#[test]
fn pipe_always_fails() {
    let executor = Executor::new("/".to_string());
    let expected = Step::Done(ok("Pipes not yet implemented\n", false));
    assert_eq!(executor.execute(&parse_line("echo a | cat"), &[]), expected);
    assert_eq!(executor.execute(&parse_line("nope | nope"), &[]), expected);
    assert_eq!(executor.execute(&parse_line("ls | cat"), &[ok("x", true)]), expected);
}

#[test]
fn redirect_is_the_command_alone() {
    let executor = Executor::new("/".to_string());
    let inner = simple(&["echo", "a"]);
    let redirected =
        Command::redirect(simple(&["echo", "a"]), RedirectOp::Output, "f".to_string());
    assert_eq!(executor.execute(&redirected, &[]), executor.execute(&inner, &[]));
    assert_eq!(executor.execute(&parse_line("ls < f"), &[]), run(Builtin::Ls, &[]));
}

#[test]
fn exit_asks_to_end() {
    let executor = Executor::new("/".to_string());
    assert_eq!(
        executor.execute(&parse_line("exit"), &[]),
        Step::Done(Ok(ExecutionResult {
            output: String::new(),
            success: true,
            should_exit: true
        }))
    );
    assert_eq!(exit::execute().unwrap().should_exit, true);
}

#[test]
fn pwd_prints_the_current_directory() {
    let mut executor = Executor::new("/home/user".to_string());
    assert_eq!(executor.get_current_dir(), "/home/user");
    assert_eq!(executor.execute(&parse_line("pwd"), &[]), printed("/home/user\n"));
    executor.set_current_dir("/tmp".to_string());
    assert_eq!(executor.get_current_dir(), "/tmp");
    assert_eq!(pwd::execute(&executor), ok("/tmp\n", true));
}

#[test]
fn echo_joins_and_strips_one_pair_of_quotes() {
    assert_eq!(echo::execute(&[]), ok("\n", true));
    assert_eq!(echo::execute(&strings(&["a"])), ok("a\n", true));
    assert_eq!(echo::execute(&strings(&["a", "b", "c"])), ok("a b c\n", true));
    assert_eq!(echo::execute(&strings(&["'a", "b'"])), ok("a b\n", true));
    assert_eq!(echo::execute(&strings(&["\"a\""])), ok("a\n", true));
    assert_eq!(echo::execute(&strings(&["'a\""])), ok("'a\"\n", true));
    assert_eq!(echo::execute(&strings(&["''"])), ok("\n", true));
    assert_eq!(echo::execute(&strings(&["'"])), ok("'\n", true));
    assert_eq!(echo::join_spaced(&strings(&["x", "", "y"])), "x  y");
}

#[test]
fn help_lists_the_operations() {
    let result = help::execute(&strings(&["ignored"])).unwrap();
    assert!(result.success);
    assert!(result.output.starts_with("0-shell - Minimal Unix Shell\n\nAvailable commands:\n"));
    assert!(result.output.contains("  mkdir <dir>        - Create directories\n"));
    assert!(result.output.ends_with("  help               - This help message\n\n"));
    assert_eq!(result.output, help::HELP_TEXT);
}

#[test]
fn builtin_names() {
    assert_eq!(Builtin::from_name("echo"), Some(Builtin::Echo));
    assert_eq!(Builtin::from_name("cd"), Some(Builtin::Cd));
    assert_eq!(Builtin::from_name("pwd"), Some(Builtin::Pwd));
    assert_eq!(Builtin::from_name("ls"), Some(Builtin::Ls));
    assert_eq!(Builtin::from_name("exit"), Some(Builtin::Exit));
    assert_eq!(Builtin::from_name("cat"), Some(Builtin::Cat));
    assert_eq!(Builtin::from_name("cp"), Some(Builtin::Cp));
    assert_eq!(Builtin::from_name("rm"), Some(Builtin::Rm));
    assert_eq!(Builtin::from_name("mv"), Some(Builtin::Mv));
    assert_eq!(Builtin::from_name("mkdir"), Some(Builtin::Mkdir));
    assert_eq!(Builtin::from_name("clear"), Some(Builtin::Clear));
    assert_eq!(Builtin::from_name("help"), Some(Builtin::Help));
    assert_eq!(Builtin::from_name("Echo"), None);
    assert_eq!(Builtin::from_name(""), None);
    assert_eq!(Builtin::from_name("echo "), None);
}

#[test]
fn builtin_execute_decides_what_it_can() {
    let executor = Executor::new("/d".to_string());
    assert_eq!(Builtin::Echo.execute(&strings(&["x"]), &executor), Some(ok("x\n", true)));
    assert_eq!(Builtin::Pwd.execute(&[], &executor), Some(ok("/d\n", true)));
    assert_eq!(Builtin::Cd.execute(&[], &executor), None);
    assert_eq!(Builtin::Ls.execute(&[], &executor), None);
    assert_eq!(Builtin::Cat.execute(&[], &executor), None);
    assert_eq!(Builtin::Clear.execute(&[], &executor), None);
    assert_eq!(Builtin::Mkdir.execute(&strings(&["d"]), &executor), None);
    assert_eq!(
        Builtin::Mkdir.execute(&[], &executor),
        Some(Err(ExecutorError::InvalidArguments(
            "mkdir: missing directory argument".to_string()
        )))
    );
    assert_eq!(Builtin::Cp.execute(&strings(&["a", "b"]), &executor), None);
    assert_eq!(
        Builtin::Cp.execute(&strings(&["a"]), &executor),
        Some(Err(ExecutorError::InvalidArguments(
            "cp: usage: cp <source> <destination>".to_string()
        )))
    );
    assert_eq!(
        Builtin::Mv.execute(&strings(&["a", "b", "c"]), &executor),
        Some(Err(ExecutorError::InvalidArguments(
            "mv: usage: mv <source> <destination>".to_string()
        )))
    );
    assert_eq!(Builtin::Rm.execute(&strings(&["-r", "d"]), &executor), None);
    assert_eq!(
        Builtin::Rm.execute(&strings(&["-r"]), &executor),
        Some(Err(ExecutorError::InvalidArguments("rm: missing file argument".to_string())))
    );
    assert_eq!(
        Builtin::Rm.execute(&[], &executor),
        Some(Err(ExecutorError::InvalidArguments("rm: missing file argument".to_string())))
    );
}

#[test]
fn refused_arguments_need_no_host() {
    let executor = Executor::new("/".to_string());
    assert_eq!(
        executor.execute(&parse_line("mkdir"), &[]),
        Step::Done(Err(ExecutorError::InvalidArguments(
            "mkdir: missing directory argument".to_string()
        )))
    );
    assert_eq!(executor.execute(&parse_line("mkdir d"), &[]), run(Builtin::Mkdir, &["d"]));
}

#[test]
fn argument_checks() {
    assert_eq!(mkdir::check_arguments(&strings(&["a", "b"])), Ok(()));
    assert_eq!(cp::check_arguments(&strings(&["a", "b"])), Ok(()));
    assert!(cp::check_arguments(&[]).is_err());
    assert_eq!(mv::check_arguments(&strings(&["a", "b"])), Ok(()));
    assert!(mv::check_arguments(&strings(&["a"])).is_err());
    assert_eq!(rm::check_arguments(&strings(&["f"])), Ok(()));
}

#[test]
fn rm_options_and_targets() {
    assert!(rm::is_recursive(&strings(&["a", "-r"])));
    assert!(rm::is_recursive(&strings(&["-R", "a"])));
    assert!(!rm::is_recursive(&strings(&["-rf", "r", "R"])));
    assert!(!rm::is_recursive(&[]));
    assert_eq!(rm::targets(&strings(&["-r", "a", "-x", "", "b-"])), strings(&["a", "", "b-"]));
    assert_eq!(rm::targets(&strings(&["-r", "-"])), Vec::<String>::new());
}

#[test]
fn host_loop_feeds_outcomes_back() {
    let executor = Executor::new("/".to_string());
    let command = parse_line("mkdir d && cd d; ls || echo none");
    let mut outcomes: Vec<Result<ExecutionResult, ExecutorError>> = Vec::new();
    let mut asked = Vec::new();
    let result = loop {
        match executor.execute(&command, &outcomes) {
            Step::Run { builtin, args } => {
                asked.push((builtin, args));
                outcomes.push(ok("", builtin != Builtin::Ls));
            }
            Step::Done(result) => break result,
        }
    };
    assert_eq!(
        asked,
        vec![
            (Builtin::Mkdir, strings(&["d"])),
            (Builtin::Cd, strings(&["d"])),
            (Builtin::Ls, strings(&[]))
        ]
    );
    assert_eq!(result, ok("none\n", true));
}

#[test]
fn executor_error_messages() {
    assert_eq!(
        ExecutorError::CommandNotFound("foo".to_string()).message(),
        "Command 'foo' not found"
    );
    assert_eq!(ExecutorError::IoError("disk full".to_string()).message(), "I/O error: disk full");
    assert_eq!(
        ExecutorError::InvalidArguments("rm: missing file argument".to_string()).message(),
        "Invalid arguments: rm: missing file argument"
    );
    assert_eq!(
        ExecutorError::ChangeDirectoryError("x: Not a directory".to_string()).message(),
        "cd: x: Not a directory"
    );
    let error = ExecutorError::IoError("e".to_string());
    assert_eq!(error.duplicate(), error);
}

#[test]
fn format_mode_shows_each_permission() {
    assert_eq!(ls::format_mode(0o755), "rwxr-xr-x");
    assert_eq!(ls::format_mode(0o644), "rw-r--r--");
    assert_eq!(ls::format_mode(0), "---------");
    assert_eq!(ls::format_mode(0o777), "rwxrwxrwx");
    assert_eq!(ls::format_mode(0o100421), "r---w---x");
}

#[test]
fn grid_runs_down_the_columns() {
    assert_eq!(ls::grid(10, 8, 80), (8, 2));
    assert_eq!(ls::grid(16, 8, 80), (8, 2));
    assert_eq!(ls::grid(17, 8, 80), (8, 3));
    assert_eq!(ls::grid(3, 100, 80), (1, 3));
    assert_eq!(ls::grid(0, 1, 80), (26, 0));
    assert_eq!(ls::grid(5, 0, 0), (1, 5));
}

#[test]
fn listing_hides_sorts_and_prints_lines() {
    let names = strings(&["b", ".hidden", "a", "C", "ab", ""]);
    assert!(!ls::shows_hidden(&strings(&["dir", "-l"])));
    assert!(ls::shows_hidden(&strings(&["dir", "-a"])));
    assert_eq!(ls::visible(&names, false), strings(&["b", "a", "C", "ab", ""]));
    assert_eq!(ls::visible(&names, true), names);
    assert_eq!(ls::select(&names, false), strings(&["", "C", "a", "ab", "b"]));
    assert_eq!(ls::select(&names, true), strings(&["", ".hidden", "C", "a", "ab", "b"]));
    assert_eq!(ls::list(&names, &[]), ok("\nC\na\nab\nb\n", true).unwrap());
    assert_eq!(
        ls::list(&names, &strings(&["-a"])),
        ok("\n.hidden\nC\na\nab\nb\n", true).unwrap()
    );
    assert_eq!(ls::render(&strings(&["z", "y"])), ok("z\ny\n", true).unwrap());
    assert_eq!(ls::render(&[]), ok("", true).unwrap());
}

#[test]
fn sorting_goes_by_code_points() {
    let names = strings(&["é", "z", "Z", "10", "9", "€", "e"]);
    assert_eq!(ls::select(&names, true), strings(&["10", "9", "Z", "e", "z", "é", "€"]));
}

#[test]
fn words_come_back_as_arguments() {
    for words in [vec!["echo", "a", "b"], vec!["ls"], vec!["x-1", "y.z", "/p/q", "~"]] {
        let args = strings(&words);
        let line = echo::join_spaced(&args);
        assert_eq!(parse_line(&line), Command::simple(args));
    }
}

#[test]
fn outcomes_beyond_the_result_change_nothing() {
    let executor = Executor::new("/".to_string());
    let command = parse_line("cat f || ls");
    let short = executor.execute(&command, &[ok("text", true)]);
    let long = executor.execute(&command, &[ok("text", true), ok("more", false)]);
    assert_eq!(short, long);
}

#[test]
fn listing_options_are_read_letter_by_letter() {
    let none = ListFlags { show_all: false, long_format: false, append_types: false };
    assert_eq!(read_options(&[]), Ok((none, Vec::new())));
    assert_eq!(
        read_options(&strings(&["-a", "dir", "-lF", "-", "x-y"])),
        Ok((
            ListFlags { show_all: true, long_format: true, append_types: true },
            strings(&["dir", "-", "x-y"])
        ))
    );
    assert_eq!(
        read_options(&strings(&["-l", "-l"])),
        Ok((ListFlags { show_all: false, long_format: true, append_types: false }, Vec::new()))
    );
    assert_eq!(read_options(&strings(&["-alx", "-z"])), Err('x'));
    assert_eq!(read_options(&strings(&["dir", "-a", "--all"])), Err('-'));
    assert_eq!(read_options(&strings(&["-é"])), Err('é'));
}

#[test]
fn tilde_stands_for_the_home_directory() {
    assert_eq!(expand_path("~", true), Place::Home);
    assert_eq!(expand_path("~/a/b", true), Place::UnderHome("a/b".to_string()));
    assert_eq!(expand_path("~/", true), Place::UnderHome(String::new()));
    assert_eq!(expand_path("~user", true), Place::Plain("~user".to_string()));
    assert_eq!(expand_path("a/~", true), Place::Plain("a/~".to_string()));
    assert_eq!(expand_path("", true), Place::Plain(String::new()));
    assert_eq!(expand_path("~", false), Place::Plain("~".to_string()));
    assert_eq!(expand_path("~/a", false), Place::Plain("~/a".to_string()));
}
