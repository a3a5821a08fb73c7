//! Commands to be run by the operating system, and their results.

use vstd::prelude::*;
use vstd::utf8::{decode_utf8, valid_utf8};

use crate::duration::Duration;
use crate::error::{Error, ErrorKind, ErrorView, KindView};
use crate::file_options::{bool_text, show_bool, FileOptions};
use crate::text::joining_parts_neighbours;
use crate::text::{
    decimal, is_word, join, joined, os_quote, os_quoted, split_words, texts, to_chars, to_decimal,
    words,
};
use crate::utf8::{from_utf8_lossy, utf8_error_text, utf8_fault, utf8_lossy};

verus! {

/// A command of the operating system with how its streams are handled.
#[derive(Clone)]
pub struct Command {
    /// The program to run.
    pub program: String,
    /// All the arguments that will be passed to the program
    pub args: Vec<String>,
    /// If set, the environment variable map is cleared (before the `envs` are
    /// applied)
    pub env_clear: bool,
    /// Environment variable mappings
    pub envs: Vec<(String, String)>,
    /// Working directory for process
    pub cwd: Option<String>,
    /// Set to true by default, this enables recording of the `stdout` which can
    /// be accessed from `stdout_record` in the runner or `stdout` in the
    /// command result later
    pub stdout_recording: bool,
    /// Set to true by default, this enables recording of the `stderr` which can
    /// be accessed from `stderr_record` in the runner or `stderr` in the
    /// command result later
    pub stderr_recording: bool,
    /// If set, the command will copy the `stdout` to the file
    pub stdout_log: Option<FileOptions>,
    /// If set, the command will copy the `stderr` to the file
    pub stderr_log: Option<FileOptions>,
    /// Forward stdout to the current process stdout
    pub stdout_debug: bool,
    /// Forward stderr to the current process stderr
    pub stderr_debug: bool,
    /// If the default stdout debug line prefix should be overridden
    pub stdout_debug_line_prefix: Option<String>,
    /// If the default stderr debug line prefix should be overridden
    pub stderr_debug_line_prefix: Option<String>,
    /// Sets a limit on the number of bytes recorded by the stdout and stderr
    /// records separately, after which the records become circular buffers.
    /// This limits the potential memory used by a long running command. `None`
    /// means there is no limit.
    pub record_limit: Option<u64>,
    /// Sets a limit on the size of log files. Each time the limit is reached,
    /// the file is truncated.
    pub log_limit: Option<u64>,
    /// When recording the standard streams for a long running command, reading
    /// buffers should be paused periodically to copy data to records, debug,
    /// and log files, or else they will not update in real time and the task
    /// memory can increase without bound for cases that should be limited. This
    /// defaults to 300 ms.
    pub read_loop_timeout: Duration,
    /// If `false`, then killing the command on drop is enabled.
    pub forget_on_drop: bool,
}

/// The views of a sequence of pairs of strings.
pub open spec fn text_pairs(v: Seq<(String, String)>) -> Seq<(Seq<char>, Seq<char>)> {
    Seq::new(v.len(), |i: int| (v[i].0@, v[i].1@))
}

/// The text that `{:?}` gives for a pair of strings of the operating system.
pub open spec fn pair_debug(p: (Seq<char>, Seq<char>)) -> Seq<char> {
    "("@ + os_quoted(p.0) + ", "@ + os_quoted(p.1) + ")"@
}

/// The text that `{:?}` gives for a list of such pairs.
pub open spec fn pairs_debug(v: Seq<(Seq<char>, Seq<char>)>) -> Seq<char> {
    "["@ + joined(Seq::new(v.len(), |i: int| pair_debug(v[i])), ", "@) + "]"@
}

fn pairs_text(v: &Vec<(String, String)>) -> (r: String)
    ensures
        r@ == pairs_debug(text_pairs(v@)),
{
    let mut parts: Vec<String> = Vec::new();
    let mut i: usize = 0;
    while i < v.len()
        invariant
            i <= v@.len(),
            parts@.len() == i,
            forall|k: int|
                0 <= k < i ==> (#[trigger] parts@[k])@ == pair_debug((v@[k].0@, v@[k].1@)),
        decreases v@.len() - i,
    {
        let mut t: String = "(".to_owned();
        t.append(os_quote(v[i].0.as_str()).as_str());
        t.append(", ");
        t.append(os_quote(v[i].1.as_str()).as_str());
        t.append(")");
        parts.push(t);
        i = i + 1;
    }
    proof {
        let p = text_pairs(v@);
        assert(texts(parts@) =~= Seq::new(p.len(), |i: int| pair_debug(p[i])));
    }
    let mut r: String = "[".to_owned();
    r.append(join(&parts, ", ").as_str());
    r.append("]");
    r
}

/// `a` if `b` holds, nothing otherwise.
pub open spec fn text_if(b: bool, a: Seq<char>) -> Seq<char> {
    if b {
        a
    } else {
        Seq::empty()
    }
}

/// The text of an optional labeled number.
pub open spec fn limit_debug(label: Seq<char>, limit: Option<u64>) -> Seq<char> {
    match limit {
        Some(n) => label + decimal(n as nat) + ","@,
        None => Seq::empty(),
    }
}

/// The text of an optional labeled path.
pub open spec fn path_debug(label: Seq<char>, path: Option<Seq<char>>) -> Seq<char> {
    match path {
        Some(p) => label + os_quoted(p) + ","@,
        None => Seq::empty(),
    }
}

/// The path of optional file options.
pub open spec fn log_path(log: Option<FileOptions>) -> Option<Seq<char>> {
    match log {
        Some(f) => Some(f.path@),
        None => None,
    }
}

/// The view of an optional string.
pub open spec fn optional(s: Option<String>) -> Option<Seq<char>> {
    match s {
        Some(s) => Some(s@),
        None => None,
    }
}

/// The text of a labeled pair of flags.
pub open spec fn flags_debug(label: Seq<char>, a: bool, b: bool) -> Seq<char> {
    label + bool_text(a) + ", "@ + bool_text(b) + "),"@
}

fn push_limit(r: &mut String, label: &str, limit: Option<u64>)
    ensures
        final(r)@ == old(r)@ + limit_debug(label@, limit),
{
    match limit {
        Some(n) => {
            r.append(label);
            r.append(to_decimal(n).as_str());
            r.append(",");
            assert(r@ =~= old(r)@ + limit_debug(label@, limit));
        },
        None => {
            assert(r@ =~= old(r)@ + limit_debug(label@, limit));
        },
    }
}

fn push_path_text(r: &mut String, label: &str, path: Option<&String>)
    ensures
        final(r)@ == old(r)@ + path_debug(
            label@,
            match path {
                Some(p) => Some(p@),
                None => None,
            },
        ),
{
    match path {
        Some(p) => {
            r.append(label);
            r.append(os_quote(p.as_str()).as_str());
            r.append(",");
            assert(r@ =~= old(r)@ + path_debug(label@, Some(p@)));
        },
        None => {
            assert(r@ =~= old(r)@ + path_debug(label@, None));
        },
    }
}

fn push_flags(r: &mut String, label: &str, a: bool, b: bool)
    ensures
        final(r)@ == old(r)@ + flags_debug(label@, a, b),
{
    r.append(label);
    r.append(show_bool(a));
    r.append(", ");
    r.append(show_bool(b));
    r.append("),");
    assert(r@ =~= old(r)@ + flags_debug(label@, a, b));
}

fn push_if(r: &mut String, b: bool, a: &str)
    ensures
        final(r)@ == old(r)@ + text_if(b, a@),
{
    if b {
        r.append(a);
    }
    assert(r@ =~= old(r)@ + text_if(b, a@));
}

impl Default for Command {
    fn default() -> (r: Self)
        ensures
            r.program@ == Seq::<char>::empty(),
            r.args@.len() == 0,
            r.is_plain(),
    {
        Command {
            program: String::new(),
            args: Vec::new(),
            env_clear: false,
            envs: Vec::new(),
            cwd: None,
            stdout_recording: true,
            stderr_recording: true,
            stdout_log: None,
            stderr_log: None,
            stdout_debug: false,
            stderr_debug: false,
            stdout_debug_line_prefix: None,
            stderr_debug_line_prefix: None,
            record_limit: None,
            log_limit: None,
            read_loop_timeout: Duration::from_millis(300),
            forget_on_drop: false,
        }
    }
}

impl Command {
    /// Everything but the program and its arguments is at its default.
    pub open spec fn is_plain(self) -> bool {
        &&& !self.env_clear
        &&& self.envs@.len() == 0
        &&& self.cwd is None
        &&& self.stdout_recording
        &&& self.stderr_recording
        &&& self.stdout_log is None
        &&& self.stderr_log is None
        &&& !self.stdout_debug
        &&& !self.stderr_debug
        &&& self.stdout_debug_line_prefix is None
        &&& self.stderr_debug_line_prefix is None
        &&& self.record_limit is None
        &&& self.log_limit is None
        &&& self.read_loop_timeout.wf()
        &&& self.read_loop_timeout.total() == 300_000_000
        &&& !self.forget_on_drop
    }

    /// The program and its arguments interspersed with spaces.
    pub open spec fn unified(self) -> Seq<char> {
        joined(seq![self.program@] + texts(self.args@), " "@)
    }

    /// What `Debug` shows of the command.
    pub open spec fn debug_view(self) -> Seq<char> {
        "Command {\nprogram: "@ + self.unified() + "\n,"@ + text_if(
            self.env_clear,
            " env_clear: true,"@,
        ) + text_if(
            self.envs@.len() > 0,
            " envs: "@ + pairs_debug(text_pairs(self.envs@)) + ","@,
        ) + path_debug(" cwd: "@, optional(self.cwd)) + text_if(
            !(self.stdout_recording && self.stderr_recording),
            flags_debug(" recording: ("@, self.stdout_recording, self.stderr_recording),
        ) + path_debug(" stdout_log: "@, log_path(self.stdout_log)) + path_debug(
            " stderr_log: "@,
            log_path(self.stderr_log),
        ) + text_if(
            self.stdout_debug || self.stderr_debug,
            flags_debug(" debug: ("@, self.stdout_debug, self.stderr_debug),
        ) + limit_debug(" record_limit: "@, self.record_limit) + limit_debug(
            " log_limit: "@,
            self.log_limit,
        ) + text_if(self.forget_on_drop, " forget_on_drop: true,"@) + "}"@
    }

    /// Creates a new `Command` for launching the `program`. This has no
    /// preprocessing of the input like [Command::new] does.
    pub fn new_os_str(program: &str) -> (r: Self)
        ensures
            r.program@ == program@,
            r.args@.len() == 0,
            r.is_plain(),
    {
        let mut r: Command = Command::default();
        r.program = program.to_owned();
        r
    }

    /// Creates a `Command` that only sets the `program` and `args` and leaves
    /// other things as their default values. `program_with_args` is separated
    /// by whitespace, the first part becomes the program, and the others
    /// are inserted as args.
    ///
    /// In case an argument has spaces, it should be put into `args` as an
    /// unbroken `&str`. In case the command name has spaces, `self.command`
    /// can be changed directly.
    pub fn new(program_with_args: &str) -> (r: Self)
        ensures
            r.is_plain(),
            words(program_with_args@).len() == 0 ==> r.program@ == Seq::<char>::empty()
                && r.args@.len() == 0,
            words(program_with_args@).len() > 0 ==> r.program@ == words(program_with_args@)[0]
                && texts(r.args@) == words(program_with_args@).skip(1),
    {
        let mut r: Command = Command::default();
        let mut parts: Vec<String> = split_words(program_with_args);
        assert(texts(parts@).len() == parts@.len());
        if parts.len() > 0 {
            assert(texts(parts@)[0] == parts@[0]@);
            let ghost all = parts@;
            r.program = parts.remove(0);
            assert(texts(parts@) =~= texts(all).skip(1));
            r.args = parts;
        }
        r
    }

    /// Adds an argument
    pub fn arg(self, arg: &str) -> (r: Self)
        ensures
            r == (Command { args: r.args, ..self }),
            texts(r.args@) == texts(self.args@).push(arg@),
    {
        let mut r: Command = self;
        r.args.push(arg.to_owned());
        assert(texts(r.args@) =~= texts(self.args@).push(arg@));
        r
    }

    /// Adds arguments to be passed to the program
    pub fn args(self, args: Vec<String>) -> (r: Self)
        ensures
            r == (Command { args: r.args, ..self }),
            r.args@ == self.args@ + args@,
    {
        let mut r: Command = self;
        let mut args: Vec<String> = args;
        r.args.append(&mut args);
        r
    }

    /// Sets `self.cwd`
    pub fn cwd(self, cwd: &str) -> (r: Self)
        ensures
            r == (Command { cwd: r.cwd, ..self }),
            optional(r.cwd) == Some(cwd@),
    {
        let mut r: Command = self;
        r.cwd = Some(cwd.to_owned());
        r
    }

    /// Set if environment variables should be cleared
    pub fn env_clear(self, env_clear: bool) -> (r: Self)
        ensures
            r == (Command { env_clear, ..self }),
    {
        let mut r: Command = self;
        r.env_clear = env_clear;
        r
    }

    /// Adds an environment variable
    pub fn env(self, env_key: &str, env_val: &str) -> (r: Self)
        ensures
            r == (Command { envs: r.envs, ..self }),
            text_pairs(r.envs@) == text_pairs(self.envs@).push((env_key@, env_val@)),
    {
        let mut r: Command = self;
        r.envs.push((env_key.to_owned(), env_val.to_owned()));
        assert(text_pairs(r.envs@) =~= text_pairs(self.envs@).push((env_key@, env_val@)));
        r
    }

    /// Adds environment variables
    pub fn envs(self, envs: Vec<(String, String)>) -> (r: Self)
        ensures
            r == (Command { envs: r.envs, ..self }),
            r.envs@ == self.envs@ + envs@,
    {
        let mut r: Command = self;
        let mut envs: Vec<(String, String)> = envs;
        r.envs.append(&mut envs);
        r
    }

    /// Sets `stdout_debug` and `stderr_debug` for passing command standard
    /// streams to the standard streams of this process.
    pub fn debug(self, std_stream_debug: bool) -> (r: Self)
        ensures
            r == (Command {
                stdout_debug: std_stream_debug,
                stderr_debug: std_stream_debug,
                ..self
            }),
    {
        let mut r: Command = self;
        r.stdout_debug = std_stream_debug;
        r.stderr_debug = std_stream_debug;
        r
    }

    /// Sets `stdout_recording`
    pub fn stdout_recording(self, stdout_recording: bool) -> (r: Self)
        ensures
            r == (Command { stdout_recording, ..self }),
    {
        let mut r: Command = self;
        r.stdout_recording = stdout_recording;
        r
    }

    /// Sets `stderr_recording`
    pub fn stderr_recording(self, stderr_recording: bool) -> (r: Self)
        ensures
            r == (Command { stderr_recording, ..self }),
    {
        let mut r: Command = self;
        r.stderr_recording = stderr_recording;
        r
    }

    /// Sets `stdout_recording` and `stderr_recording`
    pub fn recording(self, recording: bool) -> (r: Self)
        ensures
            r == (Command { stdout_recording: recording, stderr_recording: recording, ..self }),
    {
        let mut r: Command = self;
        r.stdout_recording = recording;
        r.stderr_recording = recording;
        r
    }

    /// Sets `stdout_debug` for passing command stdout to the stdout of this
    /// process.
    pub fn stdout_debug(self, stdout_debug: bool) -> (r: Self)
        ensures
            r == (Command { stdout_debug, ..self }),
    {
        let mut r: Command = self;
        r.stdout_debug = stdout_debug;
        r
    }

    /// Sets `stderr_debug` for passing command stderr to the stderr of this
    /// process.
    pub fn stderr_debug(self, stderr_debug: bool) -> (r: Self)
        ensures
            r == (Command { stderr_debug, ..self }),
    {
        let mut r: Command = self;
        r.stderr_debug = stderr_debug;
        r
    }

    /// Sets `stdout_log` and `stderr_log` for copying command standard streams
    /// to the same file. `None` changes nothing.
    pub fn log(self, std_stream_log: Option<&FileOptions>) -> (r: Self)
        ensures
            r == match std_stream_log {
                Some(f) => (Command { stdout_log: Some(*f), stderr_log: Some(*f), ..self }),
                None => self,
            },
    {
        let mut r: Command = self;
        if let Some(f) = std_stream_log {
            r.stdout_log = Some(f.clone());
            r.stderr_log = Some(f.clone());
        }
        r
    }

    /// Sets `stdout_log` for copying command stdout to a file
    pub fn stdout_log(self, stdout_log: Option<&FileOptions>) -> (r: Self)
        ensures
            r == (Command {
                stdout_log: match stdout_log {
                    Some(f) => Some(*f),
                    None => None,
                },
                ..self
            }),
    {
        let mut r: Command = self;
        r.stdout_log = match stdout_log {
            Some(f) => Some(f.clone()),
            None => None,
        };
        r
    }

    /// Sets `stderr_log` for copying command stderr to a file
    pub fn stderr_log(self, stderr_log: Option<&FileOptions>) -> (r: Self)
        ensures
            r == (Command {
                stderr_log: match stderr_log {
                    Some(f) => Some(*f),
                    None => None,
                },
                ..self
            }),
    {
        let mut r: Command = self;
        r.stderr_log = match stderr_log {
            Some(f) => Some(f.clone()),
            None => None,
        };
        r
    }

    /// Sets `record_limit` for limiting stdout and stderr record byte lengths
    pub fn record_limit(self, record_limit: Option<u64>) -> (r: Self)
        ensures
            r == (Command { record_limit, ..self }),
    {
        let mut r: Command = self;
        r.record_limit = record_limit;
        r
    }

    /// Sets `log_limit` for limiting stdout and stderr log file byte lengths
    pub fn log_limit(self, log_limit: Option<u64>) -> (r: Self)
        ensures
            r == (Command { log_limit, ..self }),
    {
        let mut r: Command = self;
        r.log_limit = log_limit;
        r
    }

    /// Sets both `record_limit` and `log_limit`
    pub fn limit(self, limit: Option<u64>) -> (r: Self)
        ensures
            r == (Command { record_limit: limit, log_limit: limit, ..self }),
    {
        let mut r: Command = self;
        r.record_limit = limit;
        r.log_limit = limit;
        r
    }

    /// Sets `read_loop_timeout`
    pub fn read_loop_timeout(self, read_loop_timeout: Duration) -> (r: Self)
        ensures
            r == (Command { read_loop_timeout, ..self }),
    {
        let mut r: Command = self;
        r.read_loop_timeout = read_loop_timeout;
        r
    }

    /// Sets `forget_on_drop`
    pub fn forget_on_drop(self, forget_on_drop: bool) -> (r: Self)
        ensures
            r == (Command { forget_on_drop, ..self }),
    {
        let mut r: Command = self;
        r.forget_on_drop = forget_on_drop;
        r
    }

    /// Changes the debug line prefix for stdout lines. If `None`, then the
    /// default of the command name and process ID is used.
    pub fn stdout_debug_line_prefix(self, line_prefix: Option<String>) -> (r: Self)
        ensures
            r == (Command { stdout_debug_line_prefix: line_prefix, ..self }),
    {
        let mut r: Command = self;
        r.stdout_debug_line_prefix = line_prefix;
        r
    }

    /// Changes the debug line prefix for stderr lines. If `None`, then the
    /// default of the command name and process ID is used.
    pub fn stderr_debug_line_prefix(self, line_prefix: Option<String>) -> (r: Self)
        ensures
            r == (Command { stderr_debug_line_prefix: line_prefix, ..self }),
    {
        let mut r: Command = self;
        r.stderr_debug_line_prefix = line_prefix;
        r
    }

    /// Gets the program and args interspersed with spaces
    pub fn get_unified_command(&self) -> (r: String)
        ensures
            r@ == self.unified(),
    {
        let ghost parts = seq![self.program@] + texts(self.args@);
        let mut command: String = self.program.clone();
        let mut i: usize = 0;
        proof {
            assert(parts.take(1) =~= seq![self.program@]);
        }
        while i < self.args.len()
            invariant
                i <= self.args@.len(),
                parts == seq![self.program@] + texts(self.args@),
                command@ == joined(parts.take(i + 1), " "@),
            decreases self.args@.len() - i,
        {
            command.append(" ");
            command.append(self.args[i].as_str());
            proof {
                assert(parts.take(i + 2).drop_last() =~= parts.take(i + 1));
                assert(parts.take(i + 2).last() == self.args@[i as int]@);
            }
            i = i + 1;
        }
        assert(parts.take(i + 1) =~= parts);
        command
    }

    /// What `Debug` shows of the command.
    pub fn debug_text(&self) -> (r: String)
        ensures
            r@ == self.debug_view(),
    {
        let mut r: String = "Command {\nprogram: ".to_owned();
        r.append(self.get_unified_command().as_str());
        r.append("\n,");
        push_if(&mut r, self.env_clear, " env_clear: true,");
        let mut envs: String = " envs: ".to_owned();
        envs.append(pairs_text(&self.envs).as_str());
        envs.append(",");
        push_if(&mut r, self.envs.len() > 0, envs.as_str());
        push_path_text(&mut r, " cwd: ", self.cwd.as_ref());
        // potential accident cases
        let mut recording: String = String::new();
        push_flags(&mut recording, " recording: (", self.stdout_recording, self.stderr_recording);
        assert(recording@ =~= flags_debug(
            " recording: ("@,
            self.stdout_recording,
            self.stderr_recording,
        ));
        push_if(&mut r, !(self.stdout_recording && self.stderr_recording), recording.as_str());
        let stdout_log: Option<&String> = match &self.stdout_log {
            Some(f) => Some(&f.path),
            None => None,
        };
        push_path_text(&mut r, " stdout_log: ", stdout_log);
        let stderr_log: Option<&String> = match &self.stderr_log {
            Some(f) => Some(&f.path),
            None => None,
        };
        push_path_text(&mut r, " stderr_log: ", stderr_log);
        let mut debug: String = String::new();
        push_flags(&mut debug, " debug: (", self.stdout_debug, self.stderr_debug);
        assert(debug@ =~= flags_debug(" debug: ("@, self.stdout_debug, self.stderr_debug));
        push_if(&mut r, self.stdout_debug || self.stderr_debug, debug.as_str());
        push_limit(&mut r, " record_limit: ", self.record_limit);
        push_limit(&mut r, " log_limit: ", self.log_limit);
        push_if(&mut r, self.forget_on_drop, " forget_on_drop: true,");
        r.append("}");
        r
    }
}

/// How a process ended: whether it was a success, and what `Debug` shows of the
/// status in its plain and in its indented form.
#[derive(Clone)]
pub struct ExitStatus {
    pub success: bool,
    pub shown: String,
    pub shown_pretty: String,
}

/// The result of a [Command]
#[derive(Clone)]
pub struct CommandResult {
    // the command information is kept around for failures
    pub command: Command,
    pub status: Option<ExitStatus>,
    pub stdout: Vec<u8>,
    pub stderr: Vec<u8>,
}

/// The same as a [CommandResult], but the stdout and stderr are not included in
/// the debug info
#[derive(Clone)]
pub struct CommandResultNoDebug {
    pub command: Command,
    pub status: Option<ExitStatus>,
    pub stdout: Vec<u8>,
    pub stderr: Vec<u8>,
}

/// The status of a command that completed with success.
pub open spec fn status_successful(status: Option<ExitStatus>) -> bool {
    status is Some && status->0.success
}

/// What `Debug` shows of a status.
pub open spec fn status_debug(status: Option<ExitStatus>) -> Seq<char> {
    match status {
        Some(s) => "Some("@ + s.shown@ + ")"@,
        None => "None"@,
    }
}

/// `s` with four spaces put in front of each line, given that `s` starts a line.
pub open spec fn indented(line_start: bool, s: Seq<char>) -> Seq<char>
    decreases s.len(),
{
    if s.len() == 0 {
        Seq::empty()
    } else {
        text_if(line_start, "    "@) + seq![s[0]] + indented(s[0] == '\n', s.skip(1))
    }
}

/// What the indented `Debug` shows of a status.
pub open spec fn status_pretty(status: Option<ExitStatus>) -> Seq<char> {
    match status {
        Some(s) => "Some(\n"@ + indented(true, s.shown_pretty@ + ",\n"@) + ")"@,
        None => "None"@,
    }
}

fn indent(s: &str) -> (r: String)
    ensures
        r@ == indented(true, s@),
{
    let chars: Vec<char> = to_chars(s);
    let mut r: String = String::new();
    let mut i: usize = 0;
    let mut start: bool = true;
    assert(s@.skip(0) =~= s@);
    assert(r@ + indented(true, s@) =~= indented(true, s@));
    while i < chars.len()
        invariant
            i <= chars@.len(),
            chars@ == s@,
            r@ + indented(start, s@.skip(i as int)) == indented(true, s@),
        decreases chars@.len() - i,
    {
        let ghost before = r@;
        let ghost was = start;
        push_if(&mut r, start, "    ");
        r.push(chars[i]);
        start = chars[i] == '\n';
        proof {
            let t = s@.skip(i as int);
            assert(t.skip(1) =~= s@.skip(i + 1));
            assert(t[0] == chars@[i as int]);
            assert(r@ + indented(start, s@.skip(i + 1)) =~= before + indented(was, t));
        }
        i = i + 1;
    }
    assert(s@.skip(i as int) =~= Seq::<char>::empty());
    assert(r@ + Seq::<char>::empty() =~= r@);
    r
}

fn status_text(status: &Option<ExitStatus>) -> (r: String)
    ensures
        r@ == status_debug(*status),
{
    match status {
        Some(s) => {
            let mut r: String = "Some(".to_owned();
            r.append(s.shown.as_str());
            r.append(")");
            r
        },
        None => "None".to_owned(),
    }
}

fn status_pretty_text(status: &Option<ExitStatus>) -> (r: String)
    ensures
        r@ == status_pretty(*status),
{
    match status {
        Some(s) => {
            let mut inner: String = s.shown_pretty.clone();
            inner.append(",\n");
            let mut r: String = "Some(\n".to_owned();
            r.append(indent(inner.as_str()).as_str());
            r.append(")");
            r
        },
        None => "None".to_owned(),
    }
}

impl CommandResult {
    /// What `Debug` and `Display` show of the result.
    pub open spec fn debug_view(self) -> Seq<char> {
        "CommandResult {\ncommand: "@ + self.command.debug_view() + ",\nstatus: "@ + status_debug(
            self.status,
        ) + ",\n"@ + text_if(
            utf8_lossy(self.stdout@).len() > 0,
            "stdout: "@ + utf8_lossy(self.stdout@) + "\n,"@,
        ) + text_if(
            utf8_lossy(self.stderr@).len() > 0,
            "stderr: "@ + utf8_lossy(self.stderr@) + "\n,"@,
        ) + "}"@
    }

    /// What `Debug` and `Display` show of the result.
    pub fn debug_text(&self) -> (r: String)
        ensures
            r@ == self.debug_view(),
    {
        let mut r: String = "CommandResult {\ncommand: ".to_owned();
        r.append(self.command.debug_text().as_str());
        r.append(",\nstatus: ");
        r.append(status_text(&self.status).as_str());
        r.append(",\n");
        // move the commas out of the way of the stdout and stderr
        let stdout: String = self.stdout_as_utf8_lossy();
        let mut t: String = "stdout: ".to_owned();
        t.append(stdout.as_str());
        t.append("\n,");
        push_if(&mut r, !stdout.as_str().is_empty(), t.as_str());
        let stderr: String = self.stderr_as_utf8_lossy();
        let mut t: String = "stderr: ".to_owned();
        t.append(stderr.as_str());
        t.append("\n,");
        push_if(&mut r, !stderr.as_str().is_empty(), t.as_str());
        r.append("}");
        r
    }

    /// The result with the streams hidden from the debug info.
    pub open spec fn hidden(self) -> CommandResultNoDebug {
        CommandResultNoDebug {
            command: self.command,
            status: self.status,
            stdout: self.stdout,
            stderr: self.stderr,
        }
    }

    /// Returns a `CommandResultNoDebug` version of `self`
    pub fn no_debug(self) -> (r: CommandResultNoDebug)
        ensures
            r == self.hidden(),
    {
        CommandResultNoDebug {
            command: self.command,
            status: self.status,
            stdout: self.stdout,
            stderr: self.stderr,
        }
    }

    /// Returns if the command completed (not terminated early) with a
    /// successful return status
    pub fn successful(&self) -> (r: bool)
        ensures
            r == status_successful(self.status),
            r <==> (self.status matches Some(status) && status.success),
    {
        match &self.status {
            Some(status) => status.success,
            None => false,
        }
    }

    /// Returns if the command completed with a successful return status or was
    /// terminated early
    pub fn successful_or_terminated(&self) -> (r: bool)
        ensures
            r == (self.status is None || status_successful(self.status)),
            r <==> (self.status matches Some(status) ==> status.success),
    {
        match &self.status {
            Some(status) => status.success,
            None => true,
        }
    }

    /// Returns a formatted error with relevant information if the command was
    /// not successful
    pub fn assert_success(&self) -> (r: Result<(), Error>)
        ensures
            r is Ok <==> status_successful(self.status),
            r is Ok <==> (self.status matches Some(status) && status.success),
            self.status is Some && r is Err ==> r->Err_0@ == ErrorView::message(
                self.debug_view() + ".assert_success() -> unsuccessful"@,
            ),
            self.status is None ==> r is Err && r->Err_0@ == ErrorView::message(
                self.debug_view()
                    + ".assert_success() -> termination was called before completion"@,
            ),
    {
        match &self.status {
            Some(status) => {
                if status.success {
                    Ok(())
                } else {
                    let mut text: String = self.debug_text();
                    text.append(".assert_success() -> unsuccessful");
                    Err(Error::from_text(text))
                }
            },
            None => {
                let mut text: String = self.debug_text();
                text.append(".assert_success() -> termination was called before completion");
                Err(Error::from_text(text))
            },
        }
    }

    /// Returns `str::from_utf8(&self.stdout)`
    pub fn stdout_as_utf8(&self) -> (r: Result<&str, std::str::Utf8Error>)
        ensures
            r is Ok <==> valid_utf8(self.stdout@),
            r is Ok ==> r->Ok_0@ == decode_utf8(self.stdout@),
    {
        std::str::from_utf8(self.stdout.as_slice())
    }

    /// Returns `str::from_utf8(&self.stderr)`
    pub fn stderr_as_utf8(&self) -> (r: Result<&str, std::str::Utf8Error>)
        ensures
            r is Ok <==> valid_utf8(self.stderr@),
            r is Ok ==> r->Ok_0@ == decode_utf8(self.stderr@),
    {
        std::str::from_utf8(self.stderr.as_slice())
    }

    /// Returns `String::from_utf8_lossy(&self.stdout)`
    pub fn stdout_as_utf8_lossy(&self) -> (r: String)
        ensures
            r@ == utf8_lossy(self.stdout@),
            valid_utf8(self.stdout@) ==> r@ == decode_utf8(self.stdout@),
    {
        from_utf8_lossy(self.stdout.as_slice())
    }

    /// Returns `String::from_utf8_lossy(&self.stderr)`
    pub fn stderr_as_utf8_lossy(&self) -> (r: String)
        ensures
            r@ == utf8_lossy(self.stderr@),
            valid_utf8(self.stderr@) ==> r@ == decode_utf8(self.stderr@),
    {
        from_utf8_lossy(self.stderr.as_slice())
    }
}

impl CommandResultNoDebug {
    /// What `Debug` shows of the result.
    pub open spec fn debug_view(self) -> Seq<char> {
        "CommandResult { command: "@ + self.command.debug_view() + ", status: "@ + status_debug(
            self.status,
        ) + " }"@
    }

    /// What the indented `Debug`, and `Display`, show of the result.
    pub open spec fn pretty_view(self) -> Seq<char> {
        "CommandResult {\n"@ + indented(
            true,
            "command: "@ + self.command.debug_view() + ",\n"@,
        ) + indented(true, "status: "@ + status_pretty(self.status) + ",\n"@) + "}"@
    }

    /// What `Debug` shows of the result.
    pub fn debug_text(&self) -> (r: String)
        ensures
            r@ == self.debug_view(),
    {
        let mut r: String = "CommandResult { command: ".to_owned();
        r.append(self.command.debug_text().as_str());
        r.append(", status: ");
        r.append(status_text(&self.status).as_str());
        r.append(" }");
        r
    }

    /// What the indented `Debug`, and `Display`, show of the result.
    pub fn pretty_text(&self) -> (r: String)
        ensures
            r@ == self.pretty_view(),
    {
        let mut command: String = "command: ".to_owned();
        command.append(self.command.debug_text().as_str());
        command.append(",\n");
        let mut status: String = "status: ".to_owned();
        status.append(status_pretty_text(&self.status).as_str());
        status.append(",\n");
        let mut r: String = "CommandResult {\n".to_owned();
        r.append(indent(command.as_str()).as_str());
        r.append(indent(status.as_str()).as_str());
        r.append("}");
        r
    }

    /// The result with the streams in its debug info.
    pub open spec fn shown(self) -> CommandResult {
        CommandResult {
            command: self.command,
            status: self.status,
            stdout: self.stdout,
            stderr: self.stderr,
        }
    }

    /// Returns the version of `self` with the streams in its debug info
    pub fn with_debug(self) -> (r: CommandResult)
        ensures
            r == self.shown(),
    {
        CommandResult {
            command: self.command,
            status: self.status,
            stdout: self.stdout,
            stderr: self.stderr,
        }
    }

    /// Returns if the command completed (not terminated early) with a
    /// successful return status
    pub fn successful(&self) -> (r: bool)
        ensures
            r == status_successful(self.status),
            r <==> (self.status matches Some(status) && status.success),
    {
        match &self.status {
            Some(status) => status.success,
            None => false,
        }
    }

    /// Returns if the command completed with a successful return status or was
    /// terminated early
    pub fn successful_or_terminated(&self) -> (r: bool)
        ensures
            r == (self.status is None || status_successful(self.status)),
            r <==> (self.status matches Some(status) ==> status.success),
    {
        match &self.status {
            Some(status) => status.success,
            None => true,
        }
    }

    /// Returns a formatted error with relevant information if the command was
    /// not successful
    pub fn assert_success(&self) -> (r: Result<(), Error>)
        ensures
            r is Ok <==> status_successful(self.status),
            r is Ok <==> (self.status matches Some(status) && status.success),
            self.status is Some && r is Err ==> r->Err_0@ == ErrorView::message(
                self.pretty_view() + ".assert_success() -> unsuccessful"@,
            ),
            self.status is None ==> r is Err && r->Err_0@ == ErrorView::message(
                self.pretty_view()
                    + ".assert_success() -> termination was called before completion"@,
            ),
    {
        match &self.status {
            Some(status) => {
                if status.success {
                    Ok(())
                } else {
                    let mut text: String = self.pretty_text();
                    text.append(".assert_success() -> unsuccessful");
                    Err(Error::from_text(text))
                }
            },
            None => {
                let mut text: String = self.pretty_text();
                text.append(".assert_success() -> termination was called before completion");
                Err(Error::from_text(text))
            },
        }
    }

    /// Returns `str::from_utf8(&self.stdout)`
    pub fn stdout_as_utf8(&self) -> (r: Result<&str, std::str::Utf8Error>)
        ensures
            r is Ok <==> valid_utf8(self.stdout@),
            r is Ok ==> r->Ok_0@ == decode_utf8(self.stdout@),
    {
        std::str::from_utf8(self.stdout.as_slice())
    }

    /// Returns `str::from_utf8(&self.stderr)`
    pub fn stderr_as_utf8(&self) -> (r: Result<&str, std::str::Utf8Error>)
        ensures
            r is Ok <==> valid_utf8(self.stderr@),
            r is Ok ==> r->Ok_0@ == decode_utf8(self.stderr@),
    {
        std::str::from_utf8(self.stderr.as_slice())
    }

    /// Returns `String::from_utf8_lossy(&self.stdout)`
    pub fn stdout_as_utf8_lossy(&self) -> (r: String)
        ensures
            r@ == utf8_lossy(self.stdout@),
            valid_utf8(self.stdout@) ==> r@ == decode_utf8(self.stdout@),
    {
        from_utf8_lossy(self.stdout.as_slice())
    }

    /// Returns `String::from_utf8_lossy(&self.stderr)`
    pub fn stderr_as_utf8_lossy(&self) -> (r: String)
        ensures
            r@ == utf8_lossy(self.stderr@),
            valid_utf8(self.stderr@) ==> r@ == decode_utf8(self.stderr@),
    {
        from_utf8_lossy(self.stderr.as_slice())
    }
}

/// The command of [sh]: `cmd_with_args` is separated by whitespace, then come
/// `args` unbroken. With `debug`, the streams are passed on to the streams of
/// this process.
pub fn sh_command(cmd_with_args: &str, args: Vec<String>, debug: bool) -> (r: Command)
    ensures
        seq![r.program@] + texts(r.args@) == (if words(cmd_with_args@).len() == 0 {
            seq![Seq::<char>::empty()]
        } else {
            words(cmd_with_args@)
        }) + texts(args@),
        r.stdout_debug == debug,
        r.stderr_debug == debug,
        (Command { stdout_debug: false, stderr_debug: false, ..r }).is_plain(),
{
    let r: Command = Command::new(cmd_with_args).args(args).debug(debug);
    proof {
        let w = words(cmd_with_args@);
        let all = seq![r.program@] + texts(r.args@);
        if w.len() == 0 {
            assert(all =~= seq![Seq::<char>::empty()] + texts(args@));
        } else {
            assert(texts(r.args@) =~= w.skip(1) + texts(args@));
            assert(all =~= w + texts(args@));
        }
    }
    r
}

/// The output of a command that is to succeed and to write UTF-8: the stdout, or
/// the error of [CommandResult::assert_success], or an error if the stdout is
/// not UTF-8
pub fn sh(comres: &CommandResult) -> (r: Result<String, Error>)
    ensures
        match r {
            Ok(s) => {
                &&& status_successful(comres.status)
                &&& comres.status matches Some(status) && status.success
                &&& valid_utf8(comres.stdout@)
                &&& s@ == decode_utf8(comres.stdout@)
            },
            Err(e) => if !status_successful(comres.status) {
                e@ == ErrorView::message(
                    comres.debug_view() + if comres.status is Some {
                        ".assert_success() -> unsuccessful"@
                    } else {
                        ".assert_success() -> termination was called before completion"@
                    },
                )
            } else {
                &&& !valid_utf8(comres.stdout@)
                &&& e@ == ErrorView::of(KindView::Boxed(utf8_fault(comres.stdout@))).with(
                    KindView::Str("`Command` output was not UTF-8"@),
                )
            },
        },
{
    match comres.assert_success() {
        Err(e) => Err(e),
        Ok(_) => match comres.stdout_as_utf8() {
            Ok(s) => Ok(s.to_owned()),
            Err(_) => {
                let text: String = utf8_error_text(comres.stdout.as_slice());
                Err(
                    Error::from_kind_locationless(
                        ErrorKind::BoxedError(text),
                    ).add_err_no_location(
                        ErrorKind::StrError("`Command` output was not UTF-8"),
                    ),
                )
            },
        },
    }
}

/// A command that [Command::new] makes of a unified command has the program and the
/// arguments that were unified, provided that they are words.
pub proof fn unified_command_is_parted_again(command: Command)
    requires
        is_word(command.program@),
        forall|i: int| 0 <= i < command.args@.len() ==> is_word((#[trigger] command.args@[i])@),
    ensures
        words(command.unified()).len() > 0,
        words(command.unified())[0] == command.program@,
        words(command.unified()).skip(1) == texts(command.args@),
{
    let parts = seq![command.program@] + texts(command.args@);
    assert forall|i: int| 0 <= i < parts.len() implies is_word(#[trigger] parts[i]) by {
        if i > 0 {
            assert(parts[i] == command.args@[i - 1]@);
        }
    }
    crate::text::lemma_words_of_joined(parts);
    assert(parts.skip(1) =~= texts(command.args@));
}

/// Hiding the streams from the debug info loses nothing, and neither does showing
/// them again: each undoes the other.
pub proof fn debug_round_trip(result: CommandResult, hidden: CommandResultNoDebug)
    ensures
        result.hidden().shown() == result,
        hidden.shown().hidden() == hidden,
{
}

/// A plain command passes no environment on, runs where this process does, records both
/// streams without limits, and neither forwards nor logs them.
pub proof fn plain_command_has_the_defaults(c: Command)
    requires
        c.is_plain(),
    ensures
        !c.env_clear && c.envs@.len() == 0 && c.cwd is None,
        c.stdout_recording && c.stderr_recording,
        c.stdout_log is None && c.stderr_log is None,
        !c.stdout_debug && !c.stderr_debug,
        c.stdout_debug_line_prefix is None && c.stderr_debug_line_prefix is None,
        c.record_limit is None && c.log_limit is None,
        c.read_loop_timeout.wf() && c.read_loop_timeout.total() == 300_000_000,
        !c.forget_on_drop,
        c.debug_view() == "Command {\nprogram: "@ + c.unified() + "\n,"@ + "}"@,
{
    assert(c.debug_view() =~= "Command {\nprogram: "@ + c.unified() + "\n,"@ + "}"@);
}

/// What is shown of a result begins with its command and its status; where both streams
/// are empty that is all, and a stream that is not is shown behind them, stdout first.
pub proof fn streams_are_shown(result: CommandResult)
    ensures
        ({
            let head = "CommandResult {\ncommand: "@ + result.command.debug_view()
                + ",\nstatus: "@ + (match result.status {
                Some(s) => "Some("@ + s.shown@ + ")"@,
                None => "None"@,
            }) + ",\n"@;
            let out = utf8_lossy(result.stdout@);
            let err = utf8_lossy(result.stderr@);
            let shown_out = "stdout: "@ + out + "\n,"@;
            let shown_err = "stderr: "@ + err + "\n,"@;
            &&& out.len() == 0 && err.len() == 0 ==> result.debug_view() == head + "}"@
            &&& out.len() > 0 && err.len() == 0 ==> result.debug_view() == head + shown_out + "}"@
            &&& out.len() == 0 && err.len() > 0 ==> result.debug_view() == head + shown_err + "}"@
            &&& out.len() > 0 && err.len() > 0 ==> result.debug_view() == head + shown_out
                + shown_err + "}"@
        }),
{
    let head = "CommandResult {\ncommand: "@ + result.command.debug_view() + ",\nstatus: "@
        + status_debug(result.status) + ",\n"@;
    let none = Seq::<char>::empty();
    let shown_out = "stdout: "@ + utf8_lossy(result.stdout@) + "\n,"@;
    assert(head + none =~= head);
    assert(head + shown_out + none =~= head + shown_out);
}

proof fn lemma_indented_line(line: Seq<char>, rest: Seq<char>)
    requires
        !line.contains('\n'),
    ensures
        indented(false, line + seq!['\n'] + rest) == line + seq!['\n'] + indented(true, rest),
    decreases line.len(),
{
    let s = line + seq!['\n'] + rest;
    if line.len() == 0 {
        assert(s.skip(1) =~= rest);
    } else {
        let tail = line.skip(1);
        assert(line[0] != '\n');
        assert(!tail.contains('\n')) by {
            if tail.contains('\n') {
                let k = choose|k: int| 0 <= k < tail.len() && tail[k] == '\n';
                assert(line[k + 1] == '\n');
            }
        }
        lemma_indented_line(tail, rest);
        assert(s.skip(1) =~= tail + seq!['\n'] + rest);
        assert(line =~= seq![line[0]] + tail);
    }
}

/// Indenting puts four spaces in front of each line, an empty one included, and changes
/// nothing else.
pub proof fn each_line_is_indented(line: Seq<char>, rest: Seq<char>)
    requires
        !line.contains('\n'),
    ensures
        indented(true, line + seq!['\n'] + rest) == "    "@ + line + seq!['\n'] + indented(
            true,
            rest,
        ),
        indented(true, Seq::empty()) == Seq::<char>::empty(),
{
    let s = line + seq!['\n'] + rest;
    if line.len() == 0 {
        assert(s.skip(1) =~= rest);
    } else {
        let tail = line.skip(1);
        assert(line[0] != '\n');
        assert(!tail.contains('\n')) by {
            if tail.contains('\n') {
                let k = choose|k: int| 0 <= k < tail.len() && tail[k] == '\n';
                assert(line[k + 1] == '\n');
            }
        }
        lemma_indented_line(tail, rest);
        assert(s.skip(1) =~= tail + seq!['\n'] + rest);
        assert(line =~= seq![line[0]] + tail);
    }
}

/// A list of pairs is shown pair by pair, in its order.
pub proof fn pairs_are_shown_in_order(
    pairs: Seq<(Seq<char>, Seq<char>)>,
    pair: (Seq<char>, Seq<char>),
)
    ensures
        pairs_debug(Seq::empty()) == "["@ + "]"@,
        pairs_debug(seq![pair]) == "["@ + ("("@ + os_quoted(pair.0) + ", "@ + os_quoted(pair.1)
            + ")"@) + "]"@,
        pairs.len() > 0 ==> pairs_debug(pairs.push(pair)) + ", "@ == pairs_debug(
            pairs,
        ).drop_last() + ", "@ + pairs_debug(seq![pair]).skip(1) + ", "@,
{
    let shown = |v: Seq<(Seq<char>, Seq<char>)>| Seq::new(v.len(), |i: int| pair_debug(v[i]));
    reveal_strlit("[");
    reveal_strlit("]");
    assert(shown(Seq::empty()) =~= Seq::<Seq<char>>::empty());
    assert(shown(seq![pair]) =~= seq![pair_debug(pair)]);
    assert(joined(shown(seq![pair]), ", "@) == pair_debug(pair));
    assert(pairs_debug(Seq::empty()) =~= "["@ + "]"@);
    assert(pairs_debug(seq![pair]).skip(1) =~= pair_debug(pair) + "]"@);
    if pairs.len() > 0 {
        let a = shown(pairs);
        let b = seq![pair_debug(pair)];
        assert(shown(pairs.push(pair)) =~= a + b);
        joining_parts_neighbours(a, b, ", "@);
        assert(pairs_debug(pairs).drop_last() =~= "["@ + joined(a, ", "@));
        assert(joined(b, ", "@) == pair_debug(pair));
        assert(pairs_debug(pairs.push(pair)) =~= "["@ + joined(a, ", "@) + ", "@ + (pair_debug(pair)
            + "]"@));
    }
}

/// What is shown of a command has its parts in this order, each only if it is set.
pub proof fn settings_are_shown_in_order(c: Command)
    ensures
        ({
            let none = Seq::<char>::empty();
            c.debug_view() == "Command {\nprogram: "@ + joined(
                seq![c.program@] + texts(c.args@),
                " "@,
            ) + "\n,"@ + (if c.env_clear {
                " env_clear: true,"@
            } else {
                none
            }) + (if c.envs@.len() > 0 {
                " envs: "@ + pairs_debug(text_pairs(c.envs@)) + ","@
            } else {
                none
            }) + (match c.cwd {
                Some(d) => " cwd: "@ + os_quoted(d@) + ","@,
                None => none,
            }) + (if !c.stdout_recording || !c.stderr_recording {
                " recording: ("@ + bool_text(c.stdout_recording) + ", "@ + bool_text(
                    c.stderr_recording,
                ) + "),"@
            } else {
                none
            }) + (match c.stdout_log {
                Some(f) => " stdout_log: "@ + os_quoted(f.path@) + ","@,
                None => none,
            }) + (match c.stderr_log {
                Some(f) => " stderr_log: "@ + os_quoted(f.path@) + ","@,
                None => none,
            }) + (if c.stdout_debug || c.stderr_debug {
                " debug: ("@ + bool_text(c.stdout_debug) + ", "@ + bool_text(c.stderr_debug)
                    + "),"@
            } else {
                none
            }) + (match c.record_limit {
                Some(n) => " record_limit: "@ + decimal(n as nat) + ","@,
                None => none,
            }) + (match c.log_limit {
                Some(n) => " log_limit: "@ + decimal(n as nat) + ","@,
                None => none,
            }) + (if c.forget_on_drop {
                " forget_on_drop: true,"@
            } else {
                none
            }) + "}"@
        }),
{
}

/// What the indented form shows of a result has its command and its status on lines of
/// their own, and no streams.
pub proof fn indented_results_have_no_streams(a: CommandResultNoDebug, b: CommandResultNoDebug)
    ensures
        a.command == b.command && a.status == b.status ==> a.pretty_view() == b.pretty_view()
            && a.debug_view() == b.debug_view(),
        a.pretty_view() == "CommandResult {\n"@ + indented(
            true,
            "command: "@ + a.command.debug_view() + ",\n"@,
        ) + indented(
            true,
            "status: "@ + (match a.status {
                Some(s) => "Some(\n"@ + indented(true, s.shown_pretty@ + ",\n"@) + ")"@,
                None => "None"@,
            }) + ",\n"@,
        ) + "}"@,
        a.debug_view() == "CommandResult { command: "@ + a.command.debug_view() + ", status: "@ + (
        match a.status {
            Some(s) => "Some("@ + s.shown@ + ")"@,
            None => "None"@,
        }) + " }"@,
{
}

} // verus!
