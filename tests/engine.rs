use shell_core::engine::{parse_and_run, run_line, Command};
use shell_core::runtime::{Builtin, Runtime};
use shell_core::status::{ShellError, Status};
use shell_core::words::{join_words, split_words};
use shell_core::MAX_DEPTH;

fn argv(words: &[&str]) -> Vec<Vec<u8>> {
    words.iter().map(|w| w.as_bytes().to_vec()).collect()
}

fn nested_commands(n: usize, tail: &str) -> String {
    let mut s = String::new();
    for _ in 0..n {
        s.push_str("command ");
    }
    s.push_str(tail);
    s
}

#[test]
fn command_echo_hello_runs_like_echo_hello() {
    let mut rt = Runtime::new();
    let via_command = parse_and_run("command echo hello", &mut rt);
    let direct = parse_and_run("echo hello", &mut rt);
    assert_eq!(via_command, Ok(argv(&["echo", "hello"])));
    assert_eq!(via_command, direct);
}

#[test]
fn command_builtin_joins_arguments() {
    let mut rt = Runtime::new();
    let r = Command.run(argv(&["command", "echo", "hello"]), &mut rt);
    assert_eq!(r, Ok(argv(&["echo", "hello"])));
    assert_eq!(rt.depth(), 0);
}

#[test]
fn command_dispatch_is_transparent() {
    let mut rt = Runtime::new();
    assert_eq!(parse_and_run("command echo hi", &mut rt), parse_and_run("echo hi", &mut rt));
    assert_eq!(parse_and_run("command a b c", &mut rt), Ok(argv(&["a", "b", "c"])));
}

#[test]
fn invalid_utf8_argument_is_rejected() {
    let mut rt = Runtime::new();
    rt.set_last_status(Status::Exited(3));
    let r = Command.run(vec![b"command".to_vec(), b"echo".to_vec(), vec![0xff, 0xfe]], &mut rt);
    assert_eq!(r, Err(ShellError::InvalidArgument));
    assert_eq!(rt.last_status(), Status::Exited(3));
    assert_eq!(rt.depth(), 0);
}

#[test]
fn overlong_and_truncated_sequences_are_rejected() {
    let mut rt = Runtime::new();
    let overlong = Command.run(vec![b"command".to_vec(), vec![0xc0, 0x80]], &mut rt);
    assert_eq!(overlong, Err(ShellError::InvalidArgument));
    let truncated = Builtin::Command.run(vec![b"command".to_vec(), vec![0xe2, 0x82]], &mut rt);
    assert_eq!(truncated, Err(ShellError::InvalidArgument));
}

#[test]
fn multibyte_text_arguments_are_accepted() {
    let mut rt = Runtime::new();
    let r = Command.run(argv(&["command", "printf", "héllo", "€"]), &mut rt);
    assert_eq!(r, Ok(argv(&["printf", "héllo", "€"])));
}

#[test]
fn nesting_beyond_the_limit_fails_and_runtime_recovers() {
    let mut rt = Runtime::new();
    let line = nested_commands(MAX_DEPTH + 1, "");
    assert_eq!(parse_and_run(&line, &mut rt), Err(ShellError::RecursionLimitExceeded));
    assert_eq!(rt.depth(), 0);
    assert_eq!(parse_and_run("echo ok", &mut rt), Ok(argv(&["echo", "ok"])));
    let line = nested_commands(MAX_DEPTH + 1, "echo hi");
    assert_eq!(parse_and_run(&line, &mut rt), Err(ShellError::RecursionLimitExceeded));
}

#[test]
fn nesting_up_to_the_limit_completes() {
    let mut rt = Runtime::new();
    let line = nested_commands(MAX_DEPTH, "echo hi");
    assert_eq!(parse_and_run(&line, &mut rt), Ok(argv(&["echo", "hi"])));
    assert_eq!(rt.depth(), 0);
}

#[test]
fn depth_is_restored_after_success_and_failure() {
    let mut rt = Runtime::new();
    rt.enter();
    rt.enter();
    assert_eq!(rt.depth(), 2);
    assert!(parse_and_run("command command ls", &mut rt).is_ok());
    assert_eq!(rt.depth(), 2);
    assert_eq!(parse_and_run("command", &mut rt), Err(ShellError::SyntaxError));
    assert_eq!(rt.depth(), 2);
    rt.leave();
    rt.leave();
    assert_eq!(rt.depth(), 0);
}

#[test]
fn limit_counts_from_the_current_depth() {
    let mut rt = Runtime::new();
    for _ in 0..MAX_DEPTH {
        rt.enter();
    }
    assert_eq!(parse_and_run("command ls", &mut rt), Err(ShellError::RecursionLimitExceeded));
    assert_eq!(parse_and_run("ls", &mut rt), Ok(argv(&["ls"])));
    assert_eq!(rt.depth(), MAX_DEPTH);
}

#[test]
fn empty_lines_are_syntax_errors() {
    let mut rt = Runtime::new();
    assert_eq!(parse_and_run("", &mut rt), Err(ShellError::SyntaxError));
    assert_eq!(parse_and_run(" \t\r\n ", &mut rt), Err(ShellError::SyntaxError));
    assert_eq!(parse_and_run("command", &mut rt), Err(ShellError::SyntaxError));
}

#[test]
fn blanks_are_collapsed_by_the_rejoin() {
    let mut rt = Runtime::new();
    let r = run_line(b"  command\techo   a\n b ", &mut rt);
    assert_eq!(r, Ok(argv(&["echo", "a", "b"])));
}

#[test]
fn split_words_drops_blanks() {
    assert_eq!(split_words(b"  ls\t-l  /tmp\n"), argv(&["ls", "-l", "/tmp"]));
    assert_eq!(split_words(b""), Vec::<Vec<u8>>::new());
    assert_eq!(split_words(b" \t "), Vec::<Vec<u8>>::new());
    assert_eq!(split_words(b"x"), argv(&["x"]));
}

#[test]
fn join_words_uses_single_spaces() {
    let v = argv(&["command", "echo", "a", "b"]);
    assert_eq!(join_words(&v, 1), b"echo a b".to_vec());
    assert_eq!(join_words(&v, 0), b"command echo a b".to_vec());
    assert_eq!(join_words(&v, 4), Vec::<u8>::new());
    assert_eq!(join_words(&v, 3), b"b".to_vec());
}

#[test]
fn registered_names_dispatch_to_their_builtin() {
    let mut rt = Runtime::new();
    assert_eq!(rt.lookup(b"command"), Some(Builtin::Command));
    assert_eq!(rt.lookup(b"run"), None);
    assert_eq!(rt.lookup(b"comman"), None);
    rt.register(b"run".to_vec(), Builtin::Command);
    assert_eq!(rt.lookup(b"run"), Some(Builtin::Command));
    assert_eq!(parse_and_run("run echo hi", &mut rt), Ok(argv(&["echo", "hi"])));
    assert_eq!(parse_and_run("run command run ls", &mut rt), Ok(argv(&["ls"])));
}

#[test]
fn fresh_runtime_state() {
    let rt = Runtime::new();
    assert_eq!(rt.last_status(), Status::Exited(0));
    assert_eq!(rt.depth(), 0);
}

#[test]
fn finish_records_status_and_passes_errors_on() {
    let mut rt = Runtime::new();
    assert_eq!(rt.finish(Ok(Status::Exited(2))), Ok(Status::Exited(2)));
    assert_eq!(rt.last_status(), Status::Exited(2));
    assert_eq!(rt.finish(Err(ShellError::IoError)), Err(ShellError::IoError));
    assert_eq!(rt.last_status(), Status::Exited(2));
    assert_eq!(rt.finish(Ok(Status::Signaled(9, false))), Ok(Status::Signaled(9, false)));
    assert_eq!(rt.last_status(), Status::Signaled(9, false));
}
