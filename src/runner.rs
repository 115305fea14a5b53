//! The tmux session backend and the lifecycle decisions of every runner.
//!
//! Running `tmux` is left to the caller: this module says which command
//! lines to run, and what their outcomes mean. The restart algorithm is a
//! small state machine that the caller drives: it queries, stops, sleeps and
//! starts as each step says.

use vstd::prelude::*;
use crate::error::LarsError;
use crate::models::{id_text, lemma_uuid_text_injective, uuid_text, RunnerType, Service};
use crate::text::{chars_of, decimal_value, parse_decimal, trim_end, trim_start, trimmed};
use crate::validation::{shell_quote, shell_quoted};

verus! {

/// The texts held by a vector of strings.
pub open spec fn texts(v: Seq<String>) -> Seq<Seq<char>> {
    v.map_values(|s: String| s@)
}

/// The session that hosts the service with identity `id`.
pub open spec fn session_of(id: u128) -> Seq<char> {
    "lar_"@ + uuid_text(id)
}

/// Sessions are named after identities alone, so distinct services never
/// share a session, and renaming a service keeps its session.
pub proof fn lemma_session_names_distinct(a: u128, b: u128)
    ensures
        session_of(a) == session_of(b) <==> a == b,
{
    if session_of(a) == session_of(b) {
        let p = "lar_"@;
        assert(uuid_text(a) =~= session_of(a).subrange(p.len() as int, session_of(a).len() as int));
        assert(uuid_text(b) =~= session_of(b).subrange(p.len() as int, session_of(b).len() as int));
        lemma_uuid_text_injective(a, b);
    }
}

/// The shell line that runs `command` with its output sent to `log_path`.
pub open spec fn launch_line(command: Seq<char>, log_path: Seq<char>) -> Seq<char> {
    command + " > "@ + shell_quoted(log_path) + " 2>&1"@
}

/// The arguments of `tmux` that create the detached session of a service.
pub open spec fn start_arguments(session: Seq<char>, cwd: Option<Seq<char>>, line: Seq<char>) -> Seq<Seq<char>> {
    seq!["new-session"@, "-d"@, "-s"@, session]
        + (match cwd {
            Some(d) => seq!["-c"@, d],
            None => Seq::<Seq<char>>::empty(),
        })
        + seq!["sh"@, "-c"@, line]
}

/// The working directory of a service, as text.
pub open spec fn cwd_text(service: Service) -> Option<Seq<char>> {
    match service.cwd {
        Some(d) => Some(d@),
        None => None,
    }
}

/// What a start does once the backend has been probed.
#[derive(Debug, Clone, Copy, PartialEq, Eq, Structural)]
pub enum StartStep {
    /// The session exists: nothing is launched.
    AlreadyRunning,
    /// Create the session.
    Launch,
}

/// What a restart does after a query of the session.
#[derive(Debug, Clone, Copy, PartialEq, Eq, Structural)]
pub enum RestartStep {
    /// Stop the service, then query again.
    Stop,
    /// Sleep one poll interval, then query again.
    Poll,
    /// Start the service; its result is the restart's.
    Start,
    /// Give up with `StopTimeout`.
    TimedOut,
}

/// Milliseconds between two queries while a restart waits for a stop.
pub const POLL_INTERVAL_MS: u64 = 100;

/// Nanoseconds in a second.
pub const NANOS_PER_SEC: u128 = 1_000_000_000;

/// The step after the first query of a restart.
pub open spec fn restart_first(running: bool) -> RestartStep {
    if running { RestartStep::Stop } else { RestartStep::Start }
}

/// The step after a query made `elapsed_nanos` after the stop was issued.
pub open spec fn restart_after_stop(running: bool, elapsed_nanos: u128, timeout_secs: u64) -> RestartStep {
    if !running {
        RestartStep::Start
    } else if elapsed_nanos > timeout_secs as u128 * NANOS_PER_SEC {
        RestartStep::TimedOut
    } else {
        RestartStep::Poll
    }
}

/// First step of a restart: stop a running service, start a stopped one.
pub fn restart_begin(running: bool) -> (r: RestartStep)
    ensures
        r == restart_first(running),
{
    if running { RestartStep::Stop } else { RestartStep::Start }
}

/// Later steps of a restart: start once the service is stopped; while it runs,
/// poll again until more than `timeout_secs` have passed since the stop,
/// then give up.
pub fn restart_next(running: bool, elapsed_nanos: u128, timeout_secs: u64) -> (r: RestartStep)
    ensures
        r == restart_after_stop(running, elapsed_nanos, timeout_secs),
{
    if !running {
        RestartStep::Start
    } else if elapsed_nanos > timeout_secs as u128 * NANOS_PER_SEC {
        RestartStep::TimedOut
    } else {
        RestartStep::Poll
    }
}

/// The error of a restart that gave up waiting for `name` to stop.
pub fn stop_timeout_error(name: &str) -> (r: LarsError)
    ensures
        r matches LarsError::StopTimeout(n) && n@ == name@,
{
    LarsError::StopTimeout(name.to_owned())
}

/// A restart gives up only on a query that still finds the service running
/// more than `timeout_secs` after the stop, and always on the first such
/// query; a service found stopped is started.
pub proof fn lemma_restart_gives_up_after_timeout(running: bool, elapsed_nanos: u128, timeout_secs: u64)
    ensures
        restart_after_stop(running, elapsed_nanos, timeout_secs) == RestartStep::TimedOut
            <==> running && elapsed_nanos as int > timeout_secs as int * 1_000_000_000,
        !running ==> restart_after_stop(running, elapsed_nanos, timeout_secs) == RestartStep::Start,
        running && elapsed_nanos as int <= timeout_secs as int * 1_000_000_000
            ==> restart_after_stop(running, elapsed_nanos, timeout_secs) == RestartStep::Poll,
{
}

/// Why a runner of kind `t` cannot be had.
pub open spec fn unavailable_message(t: RunnerType) -> Seq<char> {
    match t {
        RunnerType::Tmux => "tmux is not installed or not in PATH"@,
        RunnerType::Screen => "screen runner is not yet implemented"@,
        RunnerType::Direct => "direct runner is not yet implemented"@,
    }
}

/// Runner kinds this library can provide.
pub open spec fn runner_available(t: RunnerType, tmux_available: bool) -> bool {
    t == RunnerType::Tmux && tmux_available
}

/// The tmux backend.
#[derive(Debug, Clone, Copy, PartialEq, Eq, Structural)]
pub struct TmuxRunner;

impl TmuxRunner {
    pub fn new() -> (r: TmuxRunner) {
        TmuxRunner
    }

    pub fn runner_type(&self) -> (r: RunnerType)
        ensures
            r == RunnerType::Tmux,
    {
        RunnerType::Tmux
    }

    /// `tmux` itself.
    pub fn program() -> (r: String)
        ensures
            r@ == "tmux"@,
    {
        String::from_str("tmux")
    }

    /// The arguments of the availability probe: `-V`.
    pub fn probe_args() -> (r: Vec<String>)
        ensures
            texts(r@) == seq!["-V"@],
    {
        let mut v: Vec<String> = Vec::new();
        v.push(String::from_str("-V"));
        assert(texts(v@) =~= seq!["-V"@]);
        v
    }

    /// The session of `service`: `lar_` and its identity, never its name.
    pub fn session_name(service: &Service) -> (r: String)
        ensures
            r@ == session_of(service.id),
    {
        String::from_str("lar_").concat(id_text(service.id).as_str())
    }

    /// The shell line of a launch: `<command> > <quoted log path> 2>&1`.
    pub fn launch_command(command: &str, log_path: &str) -> (r: String)
        ensures
            r@ == launch_line(command@, log_path@),
    {
        let quoted = shell_quote(log_path);
        command.to_owned().concat(" > ").concat(quoted.as_str()).concat(" 2>&1")
    }

    /// The arguments that create the service's detached session in its
    /// working directory, if any, running its command through `sh -c`.
    /// The environment overrides go to the spawned process, not into the line.
    pub fn start_args(&self, service: &Service, log_path: &str) -> (r: Vec<String>)
        ensures
            texts(r@) == start_arguments(
                session_of(service.id),
                cwd_text(*service),
                launch_line(service.command@, log_path@),
            ),
    {
        let mut v: Vec<String> = Vec::new();
        v.push(String::from_str("new-session"));
        v.push(String::from_str("-d"));
        v.push(String::from_str("-s"));
        v.push(TmuxRunner::session_name(service));
        match &service.cwd {
            Some(d) => {
                v.push(String::from_str("-c"));
                v.push(d.clone());
            },
            None => {},
        }
        v.push(String::from_str("sh"));
        v.push(String::from_str("-c"));
        v.push(TmuxRunner::launch_command(service.command.as_str(), log_path));
        assert(texts(v@) =~= start_arguments(
            session_of(service.id),
            cwd_text(*service),
            launch_line(service.command@, log_path@),
        ));
        v
    }

    fn session_command(verb: &str, service: &Service) -> (r: Vec<String>)
        ensures
            texts(r@) == seq![verb@, "-t"@, session_of(service.id)],
    {
        let mut v: Vec<String> = Vec::new();
        v.push(verb.to_owned());
        v.push(String::from_str("-t"));
        v.push(TmuxRunner::session_name(service));
        assert(texts(v@) =~= seq![verb@, "-t"@, session_of(service.id)]);
        v
    }

    /// The arguments that kill the service's session.
    pub fn stop_args(&self, service: &Service) -> (r: Vec<String>)
        ensures
            texts(r@) == seq!["kill-session"@, "-t"@, session_of(service.id)],
    {
        TmuxRunner::session_command("kill-session", service)
    }

    /// The arguments that ask whether the service's session exists.
    pub fn is_running_args(&self, service: &Service) -> (r: Vec<String>)
        ensures
            texts(r@) == seq!["has-session"@, "-t"@, session_of(service.id)],
    {
        TmuxRunner::session_command("has-session", service)
    }

    /// The arguments that list the process ids of the session's panes.
    pub fn pid_args(&self, service: &Service) -> (r: Vec<String>)
        ensures
            texts(r@) == seq!["list-panes"@, "-t"@, session_of(service.id), "-F"@, "#{pane_pid}"@],
    {
        let mut v = TmuxRunner::session_command("list-panes", service);
        let ghost v0 = texts(v@);
        v.push(String::from_str("-F"));
        v.push(String::from_str("#{pane_pid}"));
        assert(texts(v@) =~= v0 + seq!["-F"@, "#{pane_pid}"@]);
        v
    }

    /// The command line that enters the service's session interactively.
    pub fn attach_command(&self, service: &Service) -> (r: Option<Vec<String>>)
        ensures
            r is Some && texts(r->Some_0@) == seq!["tmux"@, "attach"@, "-t"@, session_of(service.id)],
    {
        let mut v: Vec<String> = Vec::new();
        v.push(TmuxRunner::program());
        v.push(String::from_str("attach"));
        v.push(String::from_str("-t"));
        v.push(TmuxRunner::session_name(service));
        assert(texts(v@) =~= seq!["tmux"@, "attach"@, "-t"@, session_of(service.id)]);
        Some(v)
    }

    /// What a start does: fail when tmux is missing, nothing when the session
    /// already runs, otherwise launch.
    pub fn start_step(&self, available: bool, running: bool) -> (r: Result<StartStep, LarsError>)
        ensures
            !available ==> (r matches Err(LarsError::RunnerNotAvailable(m))
                && m@ == "tmux is not installed or not in PATH"@),
            available && running ==> r == Ok::<StartStep, LarsError>(StartStep::AlreadyRunning),
            available && !running ==> r == Ok::<StartStep, LarsError>(StartStep::Launch),
    {
        if !available {
            return Err(LarsError::RunnerNotAvailable(String::from_str("tmux is not installed or not in PATH")));
        }
        if running {
            Ok(StartStep::AlreadyRunning)
        } else {
            Ok(StartStep::Launch)
        }
    }

    /// The result of a launch whose exit status was `success`, described by `status`.
    pub fn launch_outcome(&self, success: bool, status: &str) -> (r: Result<(), LarsError>)
        ensures
            r is Ok <==> success,
            !success ==> (r matches Err(LarsError::ProcessFailed(m))
                && m@ == "tmux new-session failed with status: "@ + status@),
    {
        if success {
            Ok(())
        } else {
            Err(LarsError::ProcessFailed(String::from_str("tmux new-session failed with status: ").concat(status)))
        }
    }

    /// Whether a stop must query the session after the kill: only when the
    /// kill reported failure.
    pub fn stop_needs_check(&self, kill_succeeded: bool) -> (r: bool)
        ensures
            r == !kill_succeeded,
    {
        !kill_succeeded
    }

    /// The result of a stop: a failed kill is an error only while the
    /// session still runs, so stopping a stopped service succeeds.
    pub fn stop_outcome(&self, kill_succeeded: bool, still_running: bool, status: &str) -> (r: Result<(), LarsError>)
        ensures
            r is Ok <==> (kill_succeeded || !still_running),
            !(kill_succeeded || !still_running) ==> (r matches Err(LarsError::ProcessFailed(m))
                && m@ == "tmux kill-session failed with status: "@ + status@),
    {
        if !kill_succeeded && still_running {
            Err(LarsError::ProcessFailed(String::from_str("tmux kill-session failed with status: ").concat(status)))
        } else {
            Ok(())
        }
    }

    /// Whether the session query's exit status means the service runs.
    pub fn is_running_outcome(&self, query_succeeded: bool) -> (r: bool)
        ensures
            r == query_succeeded,
    {
        query_succeeded
    }

    /// The process id in the pane listing: none when the listing failed or
    /// does not hold exactly one number.
    pub fn pid_outcome(&self, success: bool, stdout: &str) -> (r: Option<u32>)
        ensures
            !success ==> r is None,
            success ==> r == match decimal_value(trim_end(trim_start(stdout@)), u32::MAX as nat) {
                Some(v) => Some(v as u32),
                None => None,
            },
    {
        if !success {
            return None;
        }
        let cs = chars_of(stdout);
        let (lo, hi) = trimmed(&cs);
        match parse_decimal(&cs, lo, hi, u32::MAX as u64) {
            Some(v) => Some(v as u32),
            None => None,
        }
    }
}

/// The runner for `runner_type`, given whether `tmux -V` succeeded. Only tmux
/// is implemented; the other kinds fail with `RunnerNotAvailable`.
pub fn create_runner(runner_type: RunnerType, tmux_available: bool) -> (r: Result<TmuxRunner, LarsError>)
    ensures
        r is Ok <==> runner_available(runner_type, tmux_available),
        !runner_available(runner_type, tmux_available) ==> (r matches Err(LarsError::RunnerNotAvailable(m))
            && m@ == unavailable_message(runner_type)),
{
    match runner_type {
        RunnerType::Tmux => {
            if !tmux_available {
                return Err(LarsError::RunnerNotAvailable(String::from_str("tmux is not installed or not in PATH")));
            }
            Ok(TmuxRunner::new())
        },
        RunnerType::Screen => Err(LarsError::RunnerNotAvailable(String::from_str("screen runner is not yet implemented"))),
        RunnerType::Direct => Err(LarsError::RunnerNotAvailable(String::from_str("direct runner is not yet implemented"))),
    }
}

} // verus!
