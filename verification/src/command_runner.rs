//! The running of commands: what is set up for one, how its end is waited for,
//! and what its runner holds.

use vstd::prelude::*;

use crate::command::{optional, text_pairs, Command, CommandResult, ExitStatus};
use crate::dockerfile::push_pairs;
use crate::duration::Duration;
use crate::error::{Error, ErrorKind, ErrorView, KindView, Location};
use crate::misc::{color_cycle, color_text, colored, next_terminal_color, TerminalColor};
use crate::recorder::{byte_views, log_bytes, log_write, Forward, ForwardView, LogWrite};
use crate::text::{decimal, to_decimal};
use vstd::utf8::encode_utf8;

verus! {

/// What is done with one output stream of a command.
pub struct StreamPlan {
    /// The stream is taken from the process and read by a recorder
    pub read: bool,
    /// The recorder copies to the record
    pub record: bool,
    /// The recorder copies to the log file
    pub log: bool,
    /// The recorder forwards with this line prefix
    pub prefix: Option<String>,
}

/// What is set up for a command besides the program, its arguments, its
/// environment and its working directory.
pub struct SpawnPlan {
    pub kill_on_drop: bool,
    pub stdout: StreamPlan,
    pub stderr: StreamPlan,
}

/// The line prefix for a stream: the override, or the colored program name,
/// process ID and mark of the stream.
pub open spec fn line_prefix(
    line_prefix: Option<String>,
    program: Seq<char>,
    child_id: u32,
    mark: Seq<char>,
    color: TerminalColor,
) -> Seq<char> {
    match line_prefix {
        Some(p) => p@,
        None => colored(program + " "@ + decimal(child_id as nat) + mark, color),
    }
}

fn make_line_prefix(
    line_prefix: &Option<String>,
    program: &str,
    child_id: u32,
    mark: &str,
    color: TerminalColor,
) -> (r: String)
    ensures
        r@ == self::line_prefix(*line_prefix, program@, child_id, mark@, color),
{
    match line_prefix {
        Some(p) => p.clone(),
        None => {
            let mut t: String = program.to_owned();
            t.append(" ");
            t.append(to_decimal(child_id as u64).as_str());
            t.append(mark);
            color_text(t.as_str(), color)
        },
    }
}

impl Command {
    /// The color of the default line prefixes: only a command that forwards
    /// something takes a color.
    pub open spec fn prefix_color(self, color_num: usize) -> TerminalColor {
        if self.stdout_debug || self.stderr_debug {
            color_cycle()[color_num as int % 8]
        } else {
            TerminalColor::Default
        }
    }

    /// Whether running the command takes a number of the color cycle
    pub fn takes_color(&self) -> (r: bool)
        ensures
            r == (self.stdout_debug || self.stderr_debug),
    {
        self.stdout_debug || self.stderr_debug
    }

    /// What is set up for the command once the process with `child_id` has been
    /// spawned, `color_num` being the number that was taken of the color cycle.
    /// A stream that is neither recorded nor forwarded nor logged is left to the
    /// handle of the process. A record limit of 0 bytes turns the record off.
    pub fn spawn_plan(&self, child_id: u32, color_num: usize) -> (r: SpawnPlan)
        ensures
            r.kill_on_drop == !self.forget_on_drop,
            r.stdout.read == (self.stdout_recording || self.stdout_debug || self.stdout_log
                is Some),
            r.stderr.read == (self.stderr_recording || self.stderr_debug || self.stderr_log
                is Some),
            r.stdout.record == (self.stdout_recording && self.record_limit != Some(0u64)),
            r.stderr.record == (self.stderr_recording && self.record_limit != Some(0u64)),
            r.stdout.log == self.stdout_log is Some,
            r.stderr.log == self.stderr_log is Some,
            optional(r.stdout.prefix) == if self.stdout_debug {
                Some(
                    line_prefix(
                        self.stdout_debug_line_prefix,
                        self.program@,
                        child_id,
                        "  | "@,
                        self.prefix_color(color_num),
                    ),
                )
            } else {
                None
            },
            optional(r.stderr.prefix) == if self.stderr_debug {
                Some(
                    line_prefix(
                        self.stderr_debug_line_prefix,
                        self.program@,
                        child_id,
                        " E| "@,
                        self.prefix_color(color_num),
                    ),
                )
            } else {
                None
            },
    {
        let recording: bool = match self.record_limit {
            Some(n) => n != 0,
            None => true,
        };
        let color: TerminalColor = if self.takes_color() {
            next_terminal_color(color_num)
        } else {
            TerminalColor::Default
        };
        let stdout_prefix: Option<String> = if self.stdout_debug {
            Some(
                make_line_prefix(
                    &self.stdout_debug_line_prefix,
                    self.program.as_str(),
                    child_id,
                    "  | ",
                    color,
                ),
            )
        } else {
            None
        };
        let stderr_prefix: Option<String> = if self.stderr_debug {
            Some(
                make_line_prefix(
                    &self.stderr_debug_line_prefix,
                    self.program.as_str(),
                    child_id,
                    " E| ",
                    color,
                ),
            )
        } else {
            None
        };
        SpawnPlan {
            kill_on_drop: !self.forget_on_drop,
            stdout: StreamPlan {
                read: self.stdout_recording || self.stdout_debug || self.stdout_log.is_some(),
                record: self.stdout_recording && recording,
                log: self.stdout_log.is_some(),
                prefix: stdout_prefix,
            },
            stderr: StreamPlan {
                read: self.stderr_recording || self.stderr_debug || self.stderr_log.is_some(),
                record: self.stderr_recording && recording,
                log: self.stderr_log.is_some(),
                prefix: stderr_prefix,
            },
        }
    }

    /// Adds what was being done to an error of running the command
    pub fn run_error(&self, what: &str, e: Error) -> (r: Error)
        ensures
            r@ == e@.with(KindView::Text(self.debug_view() + ".run() -> "@ + what@)),
    {
        let mut text: String = self.debug_text();
        text.append(".run() -> ");
        text.append(what);
        e.add_err_no_location(ErrorKind::StringError(text))
    }
}

/// How the environment of a process is made from the one that it inherits: it is
/// first cleared if `clear` is set, then the variables are set in their order.
pub struct EnvPlan {
    pub clear: bool,
    pub vars: Vec<(String, String)>,
}

/// An environment in which the variables were set in their order.
pub open spec fn with_vars(
    env: Map<Seq<char>, Seq<char>>,
    vars: Seq<(Seq<char>, Seq<char>)>,
) -> Map<Seq<char>, Seq<char>>
    decreases vars.len(),
{
    if vars.len() == 0 {
        env
    } else {
        with_vars(env, vars.drop_last()).insert(vars.last().0, vars.last().1)
    }
}

impl EnvPlan {
    /// The environment of the process, `inherited` being that of this one.
    pub open spec fn applied(self, inherited: Map<Seq<char>, Seq<char>>) -> Map<
        Seq<char>,
        Seq<char>,
    > {
        with_vars(
            if self.clear {
                Map::empty()
            } else {
                inherited
            },
            text_pairs(self.vars@),
        )
    }
}

impl Command {
    /// How the environment of the process is made: the map is cleared, if that is
    /// set, before the `envs` are applied
    pub fn env_plan(&self) -> (r: EnvPlan)
        ensures
            r.clear == self.env_clear,
            text_pairs(r.vars@) == text_pairs(self.envs@),
    {
        let mut vars: Vec<(String, String)> = Vec::new();
        push_pairs(&mut vars, &self.envs);
        assert(text_pairs(vars@) =~= text_pairs(self.envs@));
        EnvPlan { clear: self.env_clear, vars }
    }
}

/// Clearing comes before the variables are set: a process whose environment was
/// cleared has exactly the variables of its command, whatever this process has,
/// and one whose environment was not cleared keeps what the command does not set.
/// Of several mappings of a variable the last one counts.
pub proof fn environment_is_cleared_before_variables_are_set(
    plan: EnvPlan,
    inherited: Map<Seq<char>, Seq<char>>,
    key: Seq<char>,
)
    ensures
        ({
            let vars = text_pairs(plan.vars@);
            let env = plan.applied(inherited);
            if exists|i: int| 0 <= i < vars.len() && #[trigger] vars[i].0 == key {
                exists|i: int|
                    {
                        &&& 0 <= i < vars.len()
                        &&& #[trigger] vars[i].0 == key
                        &&& env.dom().contains(key)
                        &&& env[key] == vars[i].1
                        &&& forall|k: int| i < k < vars.len() ==> #[trigger] vars[k].0 != key
                    }
            } else if plan.clear {
                !env.dom().contains(key)
            } else {
                &&& env.dom().contains(key) == inherited.dom().contains(key)
                &&& env[key] == inherited[key]
            }
        }),
{
    lemma_with_vars(
        if plan.clear {
            Map::empty()
        } else {
            inherited
        },
        text_pairs(plan.vars@),
        key,
    );
}

proof fn lemma_with_vars(
    env: Map<Seq<char>, Seq<char>>,
    vars: Seq<(Seq<char>, Seq<char>)>,
    key: Seq<char>,
)
    ensures
        if exists|i: int| 0 <= i < vars.len() && #[trigger] vars[i].0 == key {
            exists|i: int|
                {
                    &&& 0 <= i < vars.len()
                    &&& #[trigger] vars[i].0 == key
                    &&& with_vars(env, vars).dom().contains(key)
                    &&& with_vars(env, vars)[key] == vars[i].1
                    &&& forall|k: int| i < k < vars.len() ==> #[trigger] vars[k].0 != key
                }
        } else {
            &&& with_vars(env, vars).dom().contains(key) == env.dom().contains(key)
            &&& with_vars(env, vars)[key] == env[key]
        },
    decreases vars.len(),
{
    if vars.len() > 0 {
        let before = vars.drop_last();
        let n = vars.len() - 1;
        lemma_with_vars(env, before, key);
        if vars[n].0 != key && exists|i: int| 0 <= i < vars.len() && #[trigger] vars[i].0 == key {
            let j = choose|i: int| 0 <= i < vars.len() && #[trigger] vars[i].0 == key;
            assert(before[j].0 == key);
            let i = choose|i: int|
                {
                    &&& 0 <= i < before.len()
                    &&& #[trigger] before[i].0 == key
                    &&& with_vars(env, before).dom().contains(key)
                    &&& with_vars(env, before)[key] == before[i].1
                    &&& forall|k: int| i < k < before.len() ==> #[trigger] before[k].0 != key
                };
            assert(vars[i].0 == key);
            assert forall|k: int| i < k < vars.len() implies #[trigger] vars[k].0 != key by {
                if k < n {
                    assert(before[k].0 != key);
                }
            }
        } else if vars[n].0 != key {
            assert forall|i: int| 0 <= i < before.len() implies #[trigger] before[i].0 != key by {
                assert(vars[i].0 != key);
            }
        }
    }
}

/// What a read of a stream came back with.
pub enum ReadEvent {
    /// Nothing was read within the read loop timeout
    Timeout,
    /// These bytes were read, none of them at the end of the stream
    Bytes(Vec<u8>),
}

/// What is to be done after a read of a stream. The bytes that were read are
/// also copied to the record, if there is one.
pub struct RecorderStep {
    /// The stream has ended
    pub finished: bool,
    /// How the bytes that were read go to the log file
    pub log: Option<LogWrite>,
    /// What is forwarded, each element in one write, before a flush
    pub forward: Vec<Vec<u8>>,
}

/// The state of the recording of one stream.
pub struct Recorder {
    pub log: bool,
    pub log_limit: Option<u64>,
    pub prefix: Option<String>,
    /// for tracking how much has been written to the file
    pub log_len: u64,
    pub forward: Forward,
}

impl Recorder {
    /// The recording of a stream before anything was read.
    pub fn new(plan: &StreamPlan, log_limit: Option<u64>) -> (r: Self)
        ensures
            r.log == plan.log,
            r.log_limit == log_limit,
            optional(r.prefix) == optional(plan.prefix),
            r.log_len == 0,
            r.forward@ == ForwardView::initial(),
    {
        let prefix: Option<String> = match &plan.prefix {
            Some(p) => Some(p.clone()),
            None => None,
        };
        Recorder { log: plan.log, log_limit, prefix, log_len: 0, forward: Forward::new() }
    }

    /// Decides what is done after a read. The log file is to hold `log_len`
    /// bytes since it was last emptied.
    pub fn step(&mut self, event: &ReadEvent) -> (r: RecorderStep)
        requires
            old(self).log ==> (event matches ReadEvent::Bytes(bytes) ==> old(self).log_len
                + bytes@.len() <= u64::MAX),
        ensures
            final(self).log == old(self).log,
            final(self).log_limit == old(self).log_limit,
            final(self).prefix == old(self).prefix,
            match *event {
                ReadEvent::Timeout => {
                    &&& !r.finished
                    &&& r.log is None
                    &&& r.forward@.len() == 0
                    &&& *final(self) == *old(self)
                },
                ReadEvent::Bytes(bytes) => if bytes@.len() == 0 {
                    &&& r.finished
                    &&& r.log is None
                    &&& *final(self) == *old(self)
                    &&& byte_views(r.forward@) == if old(self).prefix is Some
                        && old(self).forward@.end_write().len() > 0 {
                        seq![old(self).forward@.end_write()]
                    } else {
                        Seq::empty()
                    }
                } else {
                    &&& !r.finished
                    &&& r.log is Some <==> old(self).log
                    &&& !old(self).log ==> final(self).log_len == old(self).log_len
                    &&& r.log matches Some(w) ==> {
                        &&& w == log_write(
                            old(self).log_len as int,
                            bytes@.len() as int,
                            old(self).log_limit,
                        )
                        &&& final(self).log_len == (if w.reset {
                            0
                        } else {
                            old(self).log_len as int
                        }) + bytes@.len() - w.start
                    }
                    &&& match old(self).prefix {
                        Some(prefix) => {
                            &&& final(self).forward@ == old(self).forward@.after_read(bytes@)
                            &&& byte_views(r.forward@) == old(self).forward@.read_writes(
                                encode_utf8(prefix@),
                                bytes@,
                            )
                        },
                        None => r.forward@.len() == 0 && final(self).forward == old(self).forward,
                    }
                },
            },
    {
        match event {
            ReadEvent::Timeout => RecorderStep { finished: false, log: None, forward: Vec::new() },
            ReadEvent::Bytes(bytes) => {
                let mut forward: Vec<Vec<u8>> = Vec::new();
                if bytes.len() == 0 {
                    if self.prefix.is_some() {
                        let w: Vec<u8> = self.forward.forward_end();
                        if w.len() > 0 {
                            forward.push(w);
                            assert(byte_views(forward@) =~= seq![self.forward@.end_write()]);
                            return RecorderStep { finished: true, log: None, forward };
                        }
                    }
                    assert(byte_views(forward@) =~= Seq::empty());
                    return RecorderStep { finished: true, log: None, forward };
                }
                let log: Option<LogWrite> = if self.log {
                    Some(log_bytes(&mut self.log_len, bytes.as_slice(), self.log_limit))
                } else {
                    None
                };
                if let Some(prefix) = &self.prefix {
                    forward = self.forward.forward(prefix.as_str(), bytes.as_slice());
                }
                RecorderStep { finished: false, log, forward }
            },
        }
    }
}

/// What is to be done after the process was looked at.
pub enum WaitStep {
    /// The process has exited
    Exited,
    /// The time is over
    TimedOut,
    /// Look again after this time
    Sleep(Duration),
}

/// The waiting for a process with increasing intervals.
pub struct WaitBackoff {
    pub interval: Duration,
    pub elapsed: Duration,
}

/// The interval that is not increased any more, in nanoseconds.
pub open spec fn max_interval() -> nat {
    128_000_000
}

/// The interval that follows one of `interval` nanoseconds: twice as long, unless
/// it is long enough.
pub open spec fn next_interval(interval: nat) -> nat {
    if interval < max_interval() {
        2 * interval
    } else {
        interval
    }
}

impl WaitBackoff {
    /// The durations are valid ones, and the interval is at least a millisecond and
    /// was not increased beyond need.
    pub open spec fn wf(self) -> bool {
        &&& self.interval.wf()
        &&& self.elapsed.wf()
        &&& 1_000_000 <= self.interval.total() < 2 * max_interval()
    }

    /// The waiting before the process was looked at.
    pub fn new() -> (r: Self)
        ensures
            r.wf(),
            r.interval.total() == 1_000_000,
            r.elapsed.total() == 0,
    {
        WaitBackoff { interval: Duration::from_millis(1), elapsed: Duration::zero() }
    }

    /// Decides after the process was looked at. The interval doubles up to 128
    /// milliseconds. A `duration` of zero means a single attempt.
    pub fn step(&mut self, exited: bool, duration: Duration) -> (r: WaitStep)
        requires
            old(self).wf(),
            duration.wf(),
            !exited && 0 < duration.total() && old(self).elapsed.total() <= duration.total() ==> old(
                self,
            ).elapsed.total() + old(self).interval.total() <= Duration::max_total(),
        ensures
            final(self).wf(),
            exited ==> r is Exited && *final(self) == *old(self),
            !exited && (duration.total() == 0 || old(self).elapsed.total() > duration.total()) ==> r
                is TimedOut && *final(self) == *old(self),
            !exited && duration.total() > 0 && old(self).elapsed.total() <= duration.total() ==> {
                &&& r matches WaitStep::Sleep(d) && d == old(self).interval
                &&& final(self).elapsed.total() == old(self).elapsed.total()
                    + old(self).interval.total()
                &&& final(self).interval.total() == next_interval(old(self).interval.total())
            },
    {
        if exited {
            return WaitStep::Exited;
        }
        if duration.is_zero() || self.elapsed.exceeds(&duration) {
            return WaitStep::TimedOut;
        }
        let interval: Duration = self.interval;
        if let Some(elapsed) = self.elapsed.checked_add(interval) {
            self.elapsed = elapsed;
        }
        if Duration::from_millis(128).exceeds(&interval) {
            if let Some(double) = interval.checked_add(interval) {
                self.interval = double;
            }
        }
        WaitStep::Sleep(interval)
    }
}

/// The interval before the look with number `n`, in nanoseconds: a millisecond
/// that doubles up to the maximum.
pub open spec fn nth_interval(n: nat) -> nat
    decreases n,
{
    if n == 0 {
        1_000_000
    } else {
        next_interval(nth_interval((n - 1) as nat))
    }
}

/// The intervals are powers of two of a millisecond up to 128 of them: doubling
/// one meets the maximum exactly.
pub proof fn intervals_meet_the_maximum(n: nat)
    ensures
        n <= 7 ==> nth_interval(n) == 1_000_000 * vstd::arithmetic::power2::pow2(n),
        n >= 7 ==> nth_interval(n) == max_interval(),
    decreases n,
{
    vstd::arithmetic::power2::lemma2_to64();
    if n > 0 {
        intervals_meet_the_maximum((n - 1) as nat);
        if n <= 7 {
            vstd::arithmetic::power2::lemma_pow2_unfold(n);
        }
    }
}

/// What the runner of a command holds besides the handles of the operating
/// system. The command is kept around for failures until there is a result.
pub struct CommandRunner {
    /// The command this runner was started with
    pub command: Option<Command>,
    /// The handle to the process has not been given up
    pub active: bool,
    /// The process ID of the process, as long as the system knows it
    pub child_id: Option<u32>,
    pub result: Option<CommandResult>,
}

impl CommandRunner {
    /// A runner whose process has not been finished holds its command.
    pub open spec fn wf(self) -> bool {
        self.active ==> self.command is Some && self.result is None
    }

    /// The runner of a command whose process was spawned
    pub fn new(command: Command, child_id: Option<u32>) -> (r: Self)
        ensures
            r.wf(),
            r.active,
            r.command == Some(command),
            r.child_id == child_id,
            r.result is None,
    {
        CommandRunner { command: Some(command), active: true, child_id, result: None }
    }

    /// A process can be terminated as long as no termination method has been
    /// called
    pub fn check_terminate(&self) -> (r: Result<(), Error>)
        ensures
            r is Ok <==> self.active,
            r is Err ==> r->Err_0@ == ErrorView::message(
                "CommandRunner::terminate -> a termination method has already been called"@,
            ),
    {
        if self.active {
            Ok(())
        } else {
            Err(
                Error::from_text(
                    "CommandRunner::terminate -> a termination method has already been called".to_owned(),
                ),
            )
        }
    }

    /// Gives up the handle once the process was killed. `self.result` is set,
    /// and `self.result.status` is set to `None`.
    pub fn terminate(&mut self, stdout: Vec<u8>, stderr: Vec<u8>)
        requires
            old(self).wf(),
            old(self).active,
        ensures
            final(self).wf(),
            !final(self).active,
            final(self).command is None,
            final(self).child_id is None,
            final(self).result == Some(
                (CommandResult { command: old(self).command->0, status: None, stdout, stderr }),
            ),
    {
        self.finish(None, stdout, stderr);
    }

    fn finish(&mut self, status: Option<ExitStatus>, stdout: Vec<u8>, stderr: Vec<u8>)
        requires
            old(self).wf(),
            old(self).active,
        ensures
            final(self).wf(),
            !final(self).active,
            final(self).command is None,
            final(self).child_id is None,
            final(self).result == Some(
                (CommandResult { command: old(self).command->0, status, stdout, stderr }),
            ),
    {
        self.active = false;
        self.child_id = None;
        if let Some(command) = self.command.take() {
            self.result = Some(CommandResult { command, status, stdout, stderr });
        }
    }

    /// Returns the `pid` of the child process. Returns `None` if the command
    /// has been terminated or the system does not know it any more.
    pub fn pid(&self) -> (r: Option<u32>)
        ensures
            r == if self.active {
                self.child_id
            } else {
                None
            },
    {
        if self.active {
            self.child_id
        } else {
            None
        }
    }

    /// The number by which a signal is sent to the process
    pub fn signal_pid(&self) -> (r: Result<i32, Error>)
        ensures
            match r {
                Ok(n) => self.active && self.child_id == Some(n as u32) && 0 <= n,
                Err(e) => {
                    ||| (!self.active || self.child_id is None) && e@ == ErrorView::message(
                        "CommandRunner::send_unix_signal -> PID overflow"@,
                    )
                    ||| self.active && self.child_id is Some && self.child_id->0 > i32::MAX && e@
                        == ErrorView::of(KindView::TryFromInt("TryFromIntError(())"@)).with(
                        KindView::Str("CommandRunner::send_unix_signal -> PID creation fail"@),
                    )
                },
            },
            r is Ok <==> self.active && self.child_id is Some && self.child_id->0 <= i32::MAX,
    {
        match self.pid() {
            None => Err(
                Error::from_text("CommandRunner::send_unix_signal -> PID overflow".to_owned()),
            ),
            Some(n) => {
                if n > i32::MAX as u32 {
                    Err(
                        Error::from_kind_locationless(
                            ErrorKind::TryFromIntError("TryFromIntError(())".to_owned()),
                        ).add_err_no_location(
                            ErrorKind::StrError(
                                "CommandRunner::send_unix_signal -> PID creation fail",
                            ),
                        ),
                    )
                } else {
                    Ok(n as i32)
                }
            },
        }
    }

    /// Waiting needs the handle to the process
    pub fn check_wait(&self, text: &str) -> (r: Result<(), Error>)
        ensures
            r is Ok <==> self.active,
            r is Err ==> r->Err_0@ == ErrorView::message(text@),
    {
        if self.active {
            Ok(())
        } else {
            Err(Error::from_text(text.to_owned()))
        }
    }

    /// Finishes the `CommandResult` once the process has exited and its streams
    /// have ended.
    pub fn wait_with_output(&mut self, status: ExitStatus, stdout: Vec<u8>, stderr: Vec<u8>)
        requires
            old(self).wf(),
            old(self).active,
        ensures
            final(self).wf(),
            !final(self).active,
            final(self).command is None,
            final(self).child_id is None,
            final(self).result == Some(
                (CommandResult {
                    command: old(self).command->0,
                    status: Some(status),
                    stdout,
                    stderr,
                }),
            ),
    {
        self.finish(Some(status), stdout, stderr);
    }

    /// Gives up the handle when waiting on the process or on its streams failed:
    /// there is no result then.
    pub fn lose_process(&mut self)
        requires
            old(self).wf(),
            old(self).active,
        ensures
            final(self).wf(),
            *final(self) == (CommandRunner { active: false, child_id: None, ..*old(self) }),
            final(self).result is None,
    {
        self.active = false;
        self.child_id = None;
    }

    /// The error of [CommandRunner::wait_with_timeout] when the time is over
    pub fn wait_timeout(l: Location) -> (r: Error)
        ensures
            r@ == ErrorView::of(KindView::Timeout).at(l@),
            r@.timed_out(),
    {
        let r: Error = Error::timeout(l);
        assert(r@.kinds[0] == KindView::Timeout);
        r
    }

    /// After waiting is successful, this will return a reference to the
    /// `CommandResult`
    pub fn get_command_result(&self) -> (r: Option<&CommandResult>)
        ensures
            match r {
                Some(c) => self.result == Some(*c),
                None => self.result is None,
            },
    {
        self.result.as_ref()
    }

    /// After waiting is successful, this will take the `CommandResult` from
    /// `self`, replacing it with `None`.
    pub fn take_command_result(&mut self) -> (r: Option<CommandResult>)
        ensures
            r == old(self).result,
            *final(self) == (CommandRunner { result: None, ..*old(self) }),
    {
        self.result.take()
    }

    /// The warning for a runner that is dropped without having been properly
    /// finished
    pub fn drop_warning(&self) -> (r: Option<String>)
        ensures
            r is Some <==> self.active,
            r is Some ==> r->0@
                == "A `CommandRunner` was dropped without being properly finished, the command was: "@
                + match self.command {
                Some(c) => c.unified(),
                None => Seq::empty(),
            },
    {
        if self.active {
            let mut r: String =
                "A `CommandRunner` was dropped without being properly finished, the command was: ".to_owned();
            match &self.command {
                Some(c) => r.append(c.get_unified_command().as_str()),
                None => {
                    assert(r@ + Seq::<char>::empty() =~= r@);
                },
            }
            Some(r)
        } else {
            None
        }
    }
}

/// A line prefix that was set is used as it is; the default one has the program, the
/// process ID and the mark of the stream, in the color of the command, and only a command
/// that forwards something has a color of the cycle.
pub proof fn line_prefixes_name_the_process(
    command: Command,
    child_id: u32,
    mark: Seq<char>,
    color: TerminalColor,
    set: String,
    color_num: usize,
)
    ensures
        line_prefix(Some(set), command.program@, child_id, mark, color) == set@,
        line_prefix(None, command.program@, child_id, mark, color) == colored(
            command.program@ + " "@ + decimal(child_id as nat) + mark,
            color,
        ),
        command.stdout_debug || command.stderr_debug ==> command.prefix_color(color_num)
            == color_cycle()[color_num as int % 8],
        !command.stdout_debug && !command.stderr_debug ==> command.prefix_color(color_num)
            == TerminalColor::Default,
{
}

/// An interval below 128 milliseconds is doubled, any other stays.
pub proof fn intervals_double_up_to_the_maximum(interval: nat)
    ensures
        interval < 128_000_000 ==> next_interval(interval) == 2 * interval,
        interval >= 128_000_000 ==> next_interval(interval) == interval,
{
}

} // verus!
