use std::collections::VecDeque;

use super_orchestrator::command::{sh, sh_command, Command, CommandResult, ExitStatus};
use super_orchestrator::command_runner::{
    CommandRunner, ReadEvent, Recorder, WaitBackoff, WaitStep,
};
use super_orchestrator::duration::Duration;
use super_orchestrator::error::{Error, ErrorKind, Location};
use super_orchestrator::file_options::FileOptions;
use super_orchestrator::misc::next_terminal_color;
use super_orchestrator::misc::TerminalColor;
use super_orchestrator::recorder::{log_bytes, record_bytes, Forward};

fn strings(v: &[&str]) -> Vec<String> {
    v.iter().map(|s| s.to_string()).collect()
}

fn only_text(e: &Error) -> &str {
    assert_eq!(e.error_stack.len(), 1);
    match &e.error_stack[0] {
        ErrorKind::StringError(s) => s.as_str(),
        ErrorKind::StrError(s) => s,
        _ => panic!("not a text"),
    }
}

fn status(success: bool) -> Option<ExitStatus> {
    let code = if success { 0 } else { 256 };
    Some(ExitStatus {
        success,
        shown: format!("ExitStatus(unix_wait_status({code}))"),
        shown_pretty: format!("ExitStatus(\n    unix_wait_status(\n        {code},\n    ),\n)"),
    })
}

fn result(success: bool, stdout: &[u8]) -> CommandResult {
    CommandResult {
        command: Command::new("ls ./examples"),
        status: status(success),
        stdout: stdout.to_vec(),
        stderr: vec![],
    }
}

#[test]
fn commands_are_split_by_whitespace() {
    let c = Command::new("  cargo r --example\tcommands ");
    assert_eq!(c.program, "cargo");
    assert_eq!(c.args, strings(&["r", "--example", "commands"]));
    let c = Command::new("");
    assert_eq!(c.program, "");
    assert!(c.args.is_empty());
    let c = Command::new_os_str("a program");
    assert_eq!(c.program, "a program");
    let c = Command::new("ls").arg("filename with spaces.txt");
    assert_eq!(c.get_unified_command(), "ls filename with spaces.txt");
    assert_eq!(Command::new("ls").get_unified_command(), "ls");
    let c = sh_command("ls ./examples", strings(&["-l"]), true);
    assert_eq!(c.get_unified_command(), "ls ./examples -l");
    assert!(c.stdout_debug && c.stderr_debug);
}

#[test]
fn defaults_record_everything() {
    let c = Command::default();
    assert!(c.stdout_recording && c.stderr_recording);
    assert!(!c.stdout_debug && !c.stderr_debug && !c.env_clear && !c.forget_on_drop);
    assert!(c.stdout_log.is_none() && c.stderr_log.is_none() && c.cwd.is_none());
    assert_eq!(c.read_loop_timeout, Duration::from_millis(300));
    assert_eq!((c.record_limit, c.log_limit), (None, None));
}

#[test]
fn builders_set_one_thing_each() {
    let log = FileOptions::write("a.log");
    let c = Command::new("ls").log(Some(&log)).limit(Some(5)).recording(false);
    assert_eq!(c.stdout_log.as_ref().unwrap().path, "a.log");
    assert_eq!(c.stderr_log.as_ref().unwrap().path, "a.log");
    assert_eq!((c.record_limit, c.log_limit), (Some(5), Some(5)));
    assert!(!c.stdout_recording && !c.stderr_recording);
    // no log leaves the logs alone
    let c = c.log(None);
    assert!(c.stdout_log.is_some());
    let c = c.stdout_log(None).stderr_recording(true).stdout_debug(true);
    assert!(c.stdout_log.is_none() && c.stderr_log.is_some());
    assert!(c.stderr_recording && c.stdout_debug && !c.stderr_debug);
}

#[test]
fn commands_are_shown() {
    assert_eq!(Command::new("ls -l").debug_text(), "Command {\nprogram: ls -l\n,}");
    let log = FileOptions::write("a.log");
    let c = Command::new("ls")
        .env_clear(true)
        .env("K", "V")
        .cwd("./examples")
        .stdout_recording(false)
        .stderr_log(Some(&log))
        .debug(true)
        .record_limit(Some(10))
        .log_limit(Some(20))
        .forget_on_drop(true);
    assert_eq!(
        c.debug_text(),
        "Command {\nprogram: ls\n, env_clear: true, envs: [(\"K\", \"V\")], cwd: \"./examples\", \
         recording: (false, true), stderr_log: \"a.log\", debug: (true, true), record_limit: 10, \
         log_limit: 20, forget_on_drop: true,}"
    );
}

#[test]
fn results_are_shown_with_their_streams() {
    let r = result(true, b"a\xff");
    assert_eq!(
        r.debug_text(),
        "CommandResult {\ncommand: Command {\nprogram: ls ./examples\n,},\nstatus: \
         Some(ExitStatus(unix_wait_status(0))),\nstdout: a\u{fffd}\n,}"
    );
    let hidden = r.no_debug();
    assert_eq!(
        hidden.debug_text(),
        "CommandResult { command: Command {\nprogram: ls ./examples\n,}, status: \
         Some(ExitStatus(unix_wait_status(0))) }"
    );
    assert_eq!(hidden.stdout, b"a\xff");
    let again = hidden.with_debug();
    assert_eq!(again.stdout, b"a\xff");
}

#[test]
fn success_is_asserted() {
    let r = result(true, b"");
    assert!(r.successful() && r.successful_or_terminated() && r.assert_success().is_ok());
    let r = result(false, b"");
    assert!(!r.successful() && !r.successful_or_terminated());
    let e = r.assert_success().err().unwrap();
    assert!(only_text(&e).starts_with("CommandResult {"));
    assert!(only_text(&e).ends_with("}.assert_success() -> unsuccessful"));
    let r = CommandResult { status: None, ..result(true, b"") };
    assert!(!r.successful() && r.successful_or_terminated());
    let e = r.assert_success().err().unwrap();
    assert!(only_text(&e)
        .ends_with("}.assert_success() -> termination was called before completion"));
}

#[test]
fn streams_are_read_as_utf8() {
    let r = result(true, "hello\n".as_bytes());
    assert_eq!(r.stdout_as_utf8(), Ok("hello\n"));
    assert_eq!(r.stderr_as_utf8(), Ok(""));
    assert_eq!(r.stdout_as_utf8_lossy(), "hello\n");
    let r = result(true, b"\xff");
    assert!(r.stdout_as_utf8().is_err());
    assert_eq!(r.stdout_as_utf8_lossy(), "\u{fffd}");
}

#[test]
fn sh_gives_the_output_of_a_success() {
    assert_eq!(sh(&result(true, b"hello\n")).ok(), Some("hello\n".to_owned()));
    assert!(sh(&result(false, b"hello\n")).is_err());
    let e = sh(&result(true, b"ab\xff")).err().unwrap();
    match &e.error_stack[..] {
        [ErrorKind::BoxedError(s), ErrorKind::StrError("`Command` output was not UTF-8")] => {
            assert_eq!(s, "Utf8Error { valid_up_to: 2, error_len: Some(1) }")
        }
        _ => unreachable!(),
    }
}

#[test]
fn records_keep_the_newest_bytes() {
    let mut record = VecDeque::new();
    record_bytes(&mut record, b"abc", None);
    record_bytes(&mut record, b"de", Some(10));
    assert_eq!(record, b"abcde");
    record_bytes(&mut record, b"fg", Some(4));
    assert_eq!(record, b"defg");
    record_bytes(&mut record, b"hijklm", Some(4));
    assert_eq!(record, b"jklm");
    record_bytes(&mut record, b"n", Some(0));
    assert!(record.is_empty());
}

#[test]
fn logs_are_truncated_at_the_limit() {
    let mut len = 0;
    let w = log_bytes(&mut len, b"abc", Some(5));
    assert_eq!((w.reset, w.start, len), (false, 0, 3));
    let w = log_bytes(&mut len, b"def", Some(5));
    assert_eq!((w.reset, w.start, len), (true, 0, 3));
    let w = log_bytes(&mut len, b"0123456789", Some(5));
    assert_eq!((w.reset, w.start, len), (true, 5, 5));
    let w = log_bytes(&mut len, b"0123456789", None);
    assert_eq!((w.reset, w.start, len), (false, 0, 15));
}

fn forwarded(reads: &[&[u8]]) -> String {
    let mut forward = Forward::new();
    let mut all = vec![];
    for read in reads {
        for write in forward.forward("P| ", read) {
            all.extend(write);
        }
    }
    all.extend(forward.forward_end());
    String::from_utf8(all).unwrap()
}

#[test]
fn forwarded_lines_are_prefixed() {
    assert_eq!(forwarded(&[]), "");
    assert_eq!(forwarded(&[b"hello"]), "P| hello\n");
    assert_eq!(forwarded(&[b"hello\n0"]), "P| hello\nP| 0\n");
    assert_eq!(forwarded(&[b"hello\n\n\n0\n"]), "P| hello\nP| \nP| \nP| 0\n");
    assert_eq!(forwarded(&[b"he", b"llo\n", b"x"]), "P| hello\nP| x\n");
}

#[test]
fn cut_up_codepoints_come_out_whole() {
    let bytes = "a\u{20ac}b".as_bytes();
    for i in 1..bytes.len() {
        assert_eq!(forwarded(&[&bytes[..i], &bytes[i..]]), "P| a\u{20ac}b\n");
    }
    // one that is never finished is replaced
    assert_eq!(forwarded(&[&bytes[..3]]), "P| a\u{fffd}\n");
    assert_eq!(forwarded(&[b"a\xffb"]), "P| a\u{fffd}b\n");
}

#[test]
fn recorders_split_what_they_read() {
    let c = Command::new("ls").stdout_debug(true).stdout_debug_line_prefix(Some("> ".to_owned()));
    let mut plan = c.spawn_plan(7, 0).stdout;
    plan.log = true;
    let mut recorder = Recorder::new(&plan, Some(4));
    let step = recorder.step(&ReadEvent::Timeout);
    assert!(!step.finished && step.log.is_none() && step.forward.is_empty());
    let step = recorder.step(&ReadEvent::Bytes(b"abc\n".to_vec()));
    assert!(!step.finished && !step.log.unwrap().reset);
    assert_eq!(step.forward, vec![b"> abc\n".to_vec()]);
    let step = recorder.step(&ReadEvent::Bytes(b"de".to_vec()));
    assert!(step.log.unwrap().reset);
    let step = recorder.step(&ReadEvent::Bytes(vec![]));
    assert!(step.finished);
    assert_eq!(step.forward, vec![b"\n".to_vec()]);
}

#[test]
fn plans_follow_the_command() {
    let log = FileOptions::write("a.log");
    let c = Command::new("ls").recording(false).stderr_debug(true).stdout_log(Some(&log));
    assert!(c.takes_color());
    let plan = c.spawn_plan(123, 1);
    assert!(plan.kill_on_drop);
    assert!(plan.stdout.read && !plan.stdout.record && plan.stdout.log);
    assert!(plan.stdout.prefix.is_none());
    assert!(plan.stderr.read && !plan.stderr.record && !plan.stderr.log);
    assert_eq!(plan.stderr.prefix.unwrap(), "\u{1b}[33mls 123 E| \u{1b}[39m");
    let plan = Command::new("ls").record_limit(Some(0)).forget_on_drop(true).spawn_plan(1, 0);
    assert!(!plan.kill_on_drop && plan.stdout.read && !plan.stdout.record);
    let plan = Command::new("ls").recording(false).spawn_plan(1, 0);
    assert!(!plan.stdout.read && !plan.stderr.read);
}

#[test]
fn colors_take_turns() {
    let colors: Vec<TerminalColor> = (0..10).map(next_terminal_color).collect();
    assert_eq!(
        colors[..8],
        [
            TerminalColor::White,
            TerminalColor::Yellow,
            TerminalColor::Green,
            TerminalColor::Cyan,
            TerminalColor::BrightBlack,
            TerminalColor::Blue,
            TerminalColor::BrightCyan,
            TerminalColor::BrightGreen,
        ]
    );
    assert_eq!(colors[8..], [TerminalColor::White, TerminalColor::Yellow]);
}

#[test]
fn waiting_backs_off() {
    let mut backoff = WaitBackoff::new();
    let duration = Duration::from_millis(400);
    let mut slept = vec![];
    loop {
        match backoff.step(false, duration) {
            WaitStep::Sleep(d) => slept.push(d.secs * 1000 + u64::from(d.nanos / 1_000_000)),
            WaitStep::TimedOut => break,
            WaitStep::Exited => unreachable!(),
        }
    }
    assert_eq!(slept, vec![1, 2, 4, 8, 16, 32, 64, 128, 128, 128]);
    assert!(matches!(backoff.step(true, duration), WaitStep::Exited));
    // a zero duration is a single attempt
    assert!(matches!(WaitBackoff::new().step(false, Duration::zero()), WaitStep::TimedOut));
    assert!(matches!(WaitBackoff::new().step(true, Duration::zero()), WaitStep::Exited));
}

#[test]
fn runners_are_finished_once() {
    let mut runner = CommandRunner::new(Command::new("sleep 1"), Some(5));
    assert_eq!(runner.pid(), Some(5));
    assert_eq!(runner.signal_pid().ok(), Some(5));
    assert!(runner.get_command_result().is_none());
    assert_eq!(
        runner.drop_warning().unwrap(),
        "A `CommandRunner` was dropped without being properly finished, the command was: sleep 1"
    );
    assert!(runner.check_terminate().is_ok());
    runner.terminate(b"out".to_vec(), b"err".to_vec());
    assert!(runner.drop_warning().is_none());
    assert_eq!(runner.pid(), None);
    let e = runner.check_terminate().err().unwrap();
    assert_eq!(
        only_text(&e),
        "CommandRunner::terminate -> a termination method has already been called"
    );
    let r = runner.take_command_result().unwrap();
    assert!(r.status.is_none() && r.successful_or_terminated() && !r.successful());
    assert_eq!((&r.stdout[..], &r.stderr[..]), (&b"out"[..], &b"err"[..]));
    assert!(runner.get_command_result().is_none());
}

#[test]
fn environments_are_cleared_first() {
    let plan = Command::new("ls").env("A", "1").env("B", "2").env("A", "3").env_plan();
    assert!(!plan.clear);
    let pair = |a: &str, b: &str| (a.to_owned(), b.to_owned());
    assert_eq!(plan.vars, [pair("A", "1"), pair("B", "2"), pair("A", "3")]);
    assert!(Command::new("ls").env_clear(true).env_plan().clear);
}

#[test]
fn unified_commands_are_parted_again() {
    let command = Command::new("cargo r").arg("--example").arg("commands");
    let again = Command::new(&command.get_unified_command());
    assert_eq!((again.program, again.args), (command.program, command.args));
}

#[test]
fn lost_processes_leave_no_result() {
    let mut runner = CommandRunner::new(Command::new("true"), Some(5));
    runner.lose_process();
    assert!(runner.get_command_result().is_none() && runner.pid().is_none());
    assert!(runner.check_terminate().is_err() && runner.check_wait("x").is_err());
    assert!(runner.drop_warning().is_none());
}

#[test]
fn logs_within_the_limit_are_whole() {
    let mut len = 0;
    for read in [&b"ab"[..], b"cd", b"e"] {
        let w = log_bytes(&mut len, read, Some(5));
        assert!(!w.reset && w.start == 0);
    }
    assert!(log_bytes(&mut len, b"f", Some(5)).reset);
}

#[test]
fn finished_runners_have_a_result() {
    let mut runner = CommandRunner::new(Command::new("true"), None);
    assert!(runner.signal_pid().is_err());
    assert!(runner.check_wait("some text").is_ok());
    runner.wait_with_output(status(true).unwrap(), vec![1], vec![]);
    assert!(runner.check_wait("some text").is_err());
    assert!(runner.get_command_result().unwrap().successful());
    assert_eq!(runner.get_command_result().unwrap().stdout, vec![1]);
    let l = Location { file: "f".to_owned(), line: 1, col: 1 };
    assert!(CommandRunner::wait_timeout(l).is_timeout());
}

#[test]
fn process_ids_have_to_fit() {
    let runner = CommandRunner::new(Command::new("true"), Some(u32::MAX));
    assert!(runner.signal_pid().is_err());
    let e = Command::new("ls").run_error("x", Error::from_text("y".to_owned()));
    assert_eq!(e.error_stack.len(), 2);
}
