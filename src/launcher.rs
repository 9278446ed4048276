//! How a driver process is launched and reached: its command line, its
//! process-creation flags, the runtime it needs, and its address.
use vstd::prelude::*;

use crate::cache::parts;
use crate::catalog::Platform;
use crate::error::ManagerError;
use crate::port::{Port, PortRequest};
use crate::readiness::{ready_port, reported_port};
use crate::text::{decimal, push_decimal};

verus! {

/// How long a driver may take to report readiness.
pub const READINESS_TIMEOUT_MS: u64 = 10000;

/// The deadline of each termination phase when none is given.
pub const DEFAULT_PHASE_TIMEOUT_MS: u64 = 3000;

/// The Windows process-creation flag that keeps a console program from
/// opening a visible console window.
pub const CREATE_NO_WINDOW: u32 = 0x08000000;

/// The verbosity a driver logs with.
#[derive(Debug, Clone, Copy, PartialEq, Eq, Structural)]
pub enum LogLevel {
    All,
    Debug,
    Info,
    Warning,
    Severe,
    Off,
}

pub open spec fn log_level_text(l: LogLevel) -> Seq<char> {
    match l {
        LogLevel::All => "ALL"@,
        LogLevel::Debug => "DEBUG"@,
        LogLevel::Info => "INFO"@,
        LogLevel::Warning => "WARNING"@,
        LogLevel::Severe => "SEVERE"@,
        LogLevel::Off => "OFF"@,
    }
}

impl LogLevel {
    /// The level as the driver's command line spells it.
    pub fn as_str(&self) -> (r: &'static str)
        ensures
            r@ == log_level_text(*self),
    {
        match self {
            LogLevel::All => "ALL",
            LogLevel::Debug => "DEBUG",
            LogLevel::Info => "INFO",
            LogLevel::Warning => "WARNING",
            LogLevel::Severe => "SEVERE",
            LogLevel::Off => "OFF",
        }
    }
}

/// The driver's arguments: `--port=<n>` where a port is asked for, then
/// `--log-level=<level>`.
pub open spec fn driver_args_spec(port: PortRequest, level: LogLevel) -> Seq<Seq<char>> {
    let port_args: Seq<Seq<char>> = match port {
        PortRequest::Any => seq![],
        PortRequest::Specific(p) => seq!["--port="@ + decimal(p.0 as nat)],
    };
    port_args + seq!["--log-level="@ + log_level_text(level)]
}

/// The command-line arguments a driver is launched with.
pub fn driver_args(port: PortRequest, level: LogLevel) -> (r: Vec<String>)
    ensures
        parts(r@) == driver_args_spec(port, level),
{
    let mut args: Vec<String> = Vec::new();
    match port {
        PortRequest::Any => {},
        PortRequest::Specific(p) => {
            let mut a = "--port=".to_owned();
            push_decimal(&mut a, p.0 as u32);
            args.push(a);
        },
    }
    let mut l = "--log-level=".to_owned();
    l.append(level.as_str());
    args.push(l);
    assert(parts(args@) =~= driver_args_spec(port, level));
    args
}

/// The process-creation flags a driver is launched with on `platform`: on
/// Windows the flag that suppresses a console window, elsewhere none.
pub fn creation_flags(platform: Platform) -> (r: u32)
    ensures
        r == (if platform is Win32 || platform is Win64 {
            CREATE_NO_WINDOW
        } else {
            0u32
        }),
{
    match platform {
        Platform::Win32 | Platform::Win64 => CREATE_NO_WINDOW,
        _ => 0,
    }
}

/// Refuses to start a driver unless the async runtime is multi-threaded, the
/// only kind on which an abandoned process handle is still cleaned up.
/// `flavor` names the runtime found.
pub fn check_runtime(multi_threaded: bool, flavor: String) -> (r: Result<(), ManagerError>)
    ensures
        multi_threaded ==> r is Ok,
        !multi_threaded ==> r == Err::<(), ManagerError>(ManagerError::UnsupportedRuntime { flavor }),
{
    if multi_threaded {
        Ok(())
    } else {
        Err(ManagerError::UnsupportedRuntime { flavor })
    }
}

/// The address sessions connect to: `http://localhost:<port>`.
pub fn driver_url(port: Port) -> (r: String)
    ensures
        r@ == "http://localhost:"@ + decimal(port.0 as nat),
{
    let mut s = "http://localhost:".to_owned();
    push_decimal(&mut s, port.0 as u32);
    s
}

/// Where a launch stands while it waits for the driver's readiness line.
#[derive(Debug, Clone, Copy, PartialEq, Eq, Structural)]
pub enum LaunchState {
    /// The process runs; no readiness line has been seen.
    AwaitingReadiness,
    /// The driver reported that it listens on this port.
    Ready(Port),
    /// The deadline passed in silence; the process is being terminated.
    Terminating,
    /// The half-started process has been terminated; the launch failed.
    TimedOut,
}

/// What the driver of a launch must do next.
#[derive(Debug, Clone, Copy, PartialEq, Eq, Structural)]
pub enum LaunchAction {
    /// Read the next line, until the readiness deadline.
    KeepWaiting,
    /// The driver is ready on this port.
    Listening(Port),
    /// Terminate the process.
    Terminate,
    /// Report the launch as failed.
    Fail,
    /// Nothing: the event does not apply in this state.
    Idle,
}

/// A launch waiting for the driver's readiness line, with its deadline.
#[derive(Debug, Clone, Copy, PartialEq, Eq, Structural)]
pub struct Launch {
    pub state: LaunchState,
    pub readiness_timeout_ms: u64,
}

/// A stdout line arrives.
pub open spec fn launch_on_line(s: LaunchState, line: Seq<char>) -> (LaunchState, LaunchAction) {
    match s {
        LaunchState::AwaitingReadiness => match reported_port(line) {
            Some(p) => (LaunchState::Ready(p), LaunchAction::Listening(p)),
            None => (LaunchState::AwaitingReadiness, LaunchAction::KeepWaiting),
        },
        _ => (s, LaunchAction::Idle),
    }
}

/// The readiness deadline passes, or the output ends.
pub open spec fn launch_on_deadline(s: LaunchState) -> (LaunchState, LaunchAction) {
    match s {
        LaunchState::AwaitingReadiness => (LaunchState::Terminating, LaunchAction::Terminate),
        _ => (s, LaunchAction::Idle),
    }
}

/// Termination of the half-started process ended, whatever its result.
pub open spec fn launch_on_terminated(s: LaunchState) -> (LaunchState, LaunchAction) {
    match s {
        LaunchState::Terminating => (LaunchState::TimedOut, LaunchAction::Fail),
        _ => (s, LaunchAction::Idle),
    }
}

/// The result of a launch once it has ended.
pub open spec fn launch_outcome(s: LaunchState) -> Option<Result<Port, ManagerError>> {
    match s {
        LaunchState::Ready(p) => Some(Ok(p)),
        LaunchState::TimedOut => Some(Err(ManagerError::ReadinessTimeout)),
        _ => None,
    }
}

/// The state after the lines `lines`.
pub open spec fn after_lines(s: LaunchState, lines: Seq<Seq<char>>) -> LaunchState
    decreases lines.len(),
{
    if lines.len() == 0 {
        s
    } else {
        after_lines(launch_on_line(s, lines[0]).0, lines.drop_first())
    }
}

impl Launch {
    /// A launch whose process has just been spawned.
    pub fn new() -> (r: Launch)
        ensures
            r.state == LaunchState::AwaitingReadiness,
            r.readiness_timeout_ms == READINESS_TIMEOUT_MS,
    {
        Launch { state: LaunchState::AwaitingReadiness, readiness_timeout_ms: READINESS_TIMEOUT_MS }
    }

    pub fn on_line(&mut self, line: &str) -> (a: LaunchAction)
        ensures
            (final(self).state, a) == launch_on_line(old(self).state, line@),
            final(self).readiness_timeout_ms == old(self).readiness_timeout_ms,
    {
        match self.state {
            LaunchState::AwaitingReadiness => match ready_port(line) {
                Some(p) => {
                    self.state = LaunchState::Ready(p);
                    LaunchAction::Listening(p)
                },
                None => LaunchAction::KeepWaiting,
            },
            _ => LaunchAction::Idle,
        }
    }

    pub fn on_deadline(&mut self) -> (a: LaunchAction)
        ensures
            (final(self).state, a) == launch_on_deadline(old(self).state),
            final(self).readiness_timeout_ms == old(self).readiness_timeout_ms,
    {
        match self.state {
            LaunchState::AwaitingReadiness => {
                self.state = LaunchState::Terminating;
                LaunchAction::Terminate
            },
            _ => LaunchAction::Idle,
        }
    }

    pub fn on_terminated(&mut self) -> (a: LaunchAction)
        ensures
            (final(self).state, a) == launch_on_terminated(old(self).state),
            final(self).readiness_timeout_ms == old(self).readiness_timeout_ms,
    {
        match self.state {
            LaunchState::Terminating => {
                self.state = LaunchState::TimedOut;
                LaunchAction::Fail
            },
            _ => LaunchAction::Idle,
        }
    }

    /// The port the driver listens on, or the launch's failure, once known.
    pub fn outcome(&self) -> (r: Option<Result<Port, ManagerError>>)
        ensures
            r == launch_outcome(self.state),
    {
        match self.state {
            LaunchState::Ready(p) => Some(Ok(p)),
            LaunchState::TimedOut => Some(Err(ManagerError::ReadinessTimeout)),
            _ => None,
        }
    }
}

/// A driver none of whose lines reports readiness before the deadline is
/// still awaited when the deadline passes; it is then terminated, and the
/// launch fails with `ReadinessTimeout` once termination has ended.
pub proof fn lemma_silent_driver_times_out(lines: Seq<Seq<char>>)
    requires
        forall|i: int| 0 <= i < lines.len() ==> reported_port(#[trigger] lines[i]) is None,
    ensures
        after_lines(LaunchState::AwaitingReadiness, lines) == LaunchState::AwaitingReadiness,
        launch_on_deadline(after_lines(LaunchState::AwaitingReadiness, lines)) == (
            LaunchState::Terminating,
            LaunchAction::Terminate,
        ),
        launch_on_terminated(LaunchState::Terminating) == (
            LaunchState::TimedOut,
            LaunchAction::Fail,
        ),
        launch_outcome(LaunchState::TimedOut) == Some(
            Err::<Port, ManagerError>(ManagerError::ReadinessTimeout),
        ),
    decreases lines.len(),
{
    if lines.len() > 0 {
        assert(reported_port(lines[0]) is None);
        assert forall|i: int| 0 <= i < lines.drop_first().len() implies reported_port(
            #[trigger] lines.drop_first()[i],
        ) is None by {
            assert(lines.drop_first()[i] == lines[i + 1]);
        }
        lemma_silent_driver_times_out(lines.drop_first());
    }
}

/// A driver whose first readiness line reports port `p` is ready on `p`,
/// whatever silent lines came before.
pub proof fn lemma_first_readiness_line_decides(lines: Seq<Seq<char>>, line: Seq<char>, p: Port)
    requires
        forall|i: int| 0 <= i < lines.len() ==> reported_port(#[trigger] lines[i]) is None,
        reported_port(line) == Some(p),
    ensures
        launch_on_line(after_lines(LaunchState::AwaitingReadiness, lines), line) == (
            LaunchState::Ready(p),
            LaunchAction::Listening(p),
        ),
        launch_outcome(LaunchState::Ready(p)) == Some(Ok::<Port, ManagerError>(p)),
{
    lemma_silent_driver_times_out(lines);
}

} // verus!
