//! The single slot that holds the running job, and the events that tell of
//! its state.
//!
//! The supervisor decides; it starts and stops nothing itself. A caller that
//! owns the process asks it for leave to start, tells it when the process
//! runs, asks it which terminal state an exit amounts to, and frees the slot.
//! Every operation takes the supervisor by one exclusive reference, so a
//! check and the change that follows it are one step.

use vstd::prelude::*;
use crate::builder::{build_ffmpeg_args, ffmpeg_args, BuildError, Failure};
use crate::paths::resolved_program;
use crate::paths::resolve_executable_path;
use crate::preview::{command_preview, format_command_preview};
use crate::request::{mode_from_text, mode_of, JobPayload, JobRequest, Mode};
use crate::text::{
    decimal, decimal_text, option_text, text_eq, text_from_option, text_view, texts,
};

verus! {

/// A status broadcast to observers.
#[derive(Debug, Clone, PartialEq, Eq)]
pub struct StateEvent {
    /// One of `running`, `completed`, `stopped` and `failed`.
    pub status: String,
    pub mode: Option<String>,
    /// The command line, as it is displayed.
    pub args: Option<String>,
    pub message: Option<String>,
}

/// A `StateEvent` with its texts as sequences of characters.
pub struct StateEventView {
    pub status: Seq<char>,
    pub mode: Option<Seq<char>>,
    pub args: Option<Seq<char>>,
    pub message: Option<Seq<char>>,
}

impl View for StateEvent {
    type V = StateEventView;

    open spec fn view(&self) -> StateEventView {
        StateEventView {
            status: self.status@,
            mode: text_view(self.mode),
            args: text_view(self.args),
            message: text_view(self.message),
        }
    }
}

/// The event of a job that runs in `mode` with the command line `args`.
pub open spec fn running_event(mode: Seq<char>, args: Seq<char>) -> StateEventView {
    StateEventView { status: "running"@, mode: Some(mode), args: Some(args), message: None }
}

/// The event of a job that ended well.
pub open spec fn completed_event() -> StateEventView {
    StateEventView { status: "completed"@, mode: None, args: None, message: None }
}

/// The event of a job that was cancelled.
pub open spec fn stopped_event() -> StateEventView {
    StateEventView { status: "stopped"@, mode: None, args: None, message: None }
}

/// The event of a job that failed, with the reason.
pub open spec fn failed_event(message: Seq<char>) -> StateEventView {
    StateEventView { status: "failed"@, mode: None, args: None, message: Some(message) }
}

impl StateEvent {
    /// The event of a job that runs in `mode` with the command line `args`.
    pub fn running(mode: String, args: String) -> (r: Self)
        ensures
            r@ == running_event(mode@, args@),
    {
        Self { status: "running".to_string(), mode: Some(mode), args: Some(args), message: None }
    }

    /// The event of a job that ended well.
    pub fn completed() -> (r: Self)
        ensures
            r@ == completed_event(),
    {
        Self { status: "completed".to_string(), mode: None, args: None, message: None }
    }

    /// The event of a job that was cancelled.
    pub fn stopped() -> (r: Self)
        ensures
            r@ == stopped_event(),
    {
        Self { status: "stopped".to_string(), mode: None, args: None, message: None }
    }

    /// The event of a job that failed, with the reason.
    pub fn failed(message: String) -> (r: Self)
        ensures
            r@ == failed_event(message@),
    {
        Self { status: "failed".to_string(), mode: None, args: None, message: Some(message) }
    }

    /// Whether the event tells of a job that ended well.
    pub fn is_completed(&self) -> (r: bool)
        ensures
            r == (self@.status == "completed"@),
    {
        text_eq(self.status.as_str(), "completed")
    }
}

/// How the wait for a process ended.
#[derive(Debug, Clone, PartialEq, Eq)]
pub enum ExitReport {
    /// The process exited. `code` is absent where the platform gave none.
    Exited { success: bool, code: Option<i32> },
    /// The wait itself failed, with the reason.
    WaitFailed(String),
}

/// The three ways in which a job ends.
pub enum Terminal {
    Completed,
    Stopped,
    Failed(Seq<char>),
}

/// The exit code as it is shown: its decimal text, or `unknown`.
pub open spec fn exit_code_text(code: Option<i32>) -> Seq<char> {
    match code {
        Some(c) => decimal(c as int),
        None => "unknown"@,
    }
}

/// The terminal state that an exit amounts to. A failed wait is a failure
/// with its reason. Of a process that exited, cancellation wins: the job is
/// stopped whatever the exit status; else it is completed on success, and
/// failed with the exit code otherwise.
pub open spec fn terminal_of(cancelled: bool, report: ExitReport) -> Terminal {
    match report {
        ExitReport::WaitFailed(reason) => Terminal::Failed(reason@),
        ExitReport::Exited { success, code } => if cancelled {
            Terminal::Stopped
        } else if success {
            Terminal::Completed
        } else {
            Terminal::Failed("ffmpeg 退出码 "@ + exit_code_text(code))
        },
    }
}

/// The event that tells of a terminal state.
pub open spec fn event_of(terminal: Terminal) -> StateEventView {
    match terminal {
        Terminal::Completed => completed_event(),
        Terminal::Stopped => stopped_event(),
        Terminal::Failed(message) => failed_event(message),
    }
}

/// The event that tells how a job ended.
pub fn terminal_event(cancelled: bool, report: &ExitReport) -> (r: StateEvent)
    ensures
        r@ == event_of(terminal_of(cancelled, *report)),
{
    match report {
        ExitReport::WaitFailed(reason) => StateEvent::failed(reason.clone()),
        ExitReport::Exited { success, code } => {
            if cancelled {
                StateEvent::stopped()
            } else if *success {
                StateEvent::completed()
            } else {
                let mut message = "ffmpeg 退出码 ".to_string();
                match code {
                    Some(c) => {
                        let wide: i64 = *c as i64;
                        message.append(decimal_text(wide).as_str());
                    },
                    None => {
                        message.append("unknown");
                    },
                }
                StateEvent::failed(message)
            }
        },
    }
}

/// What the slot holds.
#[derive(Debug, Clone, Copy, PartialEq, Eq)]
pub enum Phase {
    /// No job.
    Idle,
    /// A job that has leave to start and does not run yet.
    Starting { task: u64 },
    /// A job that runs; `cancelled` says whether its end was asked for.
    Running { task: u64, cancelled: bool },
}

/// The slot of the one job that may run at a time, and the number of the
/// task that was last let in.
#[derive(Debug, Clone, Copy, PartialEq, Eq)]
pub struct Supervisor {
    pub phase: Phase,
    pub issued: u64,
}

/// Why a job was not let in.
#[derive(Debug, Clone, PartialEq, Eq)]
pub enum StartError {
    /// Another job holds the slot.
    ConcurrencyConflict,
    /// The request gives no argument list.
    Build(BuildError),
}

/// A `StartError` with its text as a sequence of characters.
pub enum StartFailure {
    ConcurrencyConflict,
    Build(Failure),
}

impl View for StartError {
    type V = StartFailure;

    open spec fn view(&self) -> StartFailure {
        match self {
            StartError::ConcurrencyConflict => StartFailure::ConcurrencyConflict,
            StartError::Build(e) => StartFailure::Build(e@),
        }
    }
}

impl StartError {
    /// The message shown to the user.
    pub fn message(&self) -> (r: String)
        ensures
            r@ == match self@ {
                StartFailure::ConcurrencyConflict =>
                    "当前已有任务在运行，请先停止后再启动新任务。"@,
                StartFailure::Build(failure) => crate::builder::failure_message(failure),
            },
    {
        match self {
            StartError::ConcurrencyConflict =>
                "当前已有任务在运行，请先停止后再启动新任务。".to_string(),
            StartError::Build(e) => e.message(),
        }
    }
}

/// What a caller needs to start the process of a job that was let in.
#[derive(Debug, Clone, PartialEq, Eq)]
pub struct LaunchPlan {
    /// The number under which the slot holds the job.
    pub task: u64,
    /// The program to run.
    pub program: String,
    /// The program as the request names it, for messages.
    pub configured_path: String,
    pub args: Vec<String>,
    /// The event to broadcast before the process is started.
    pub running: StateEvent,
}

/// The name of a mode, as events carry it.
pub open spec fn mode_label(mode: Mode) -> Seq<char> {
    match mode {
        Mode::Raw => "raw"@,
        Mode::Visual => "visual"@,
        Mode::Preset => "preset"@,
    }
}

/// The number of the task after `issued`.
pub open spec fn next_task(issued: u64) -> u64 {
    if issued == u64::MAX {
        0
    } else {
        (issued + 1) as u64
    }
}

/// The program that a request's job runs.
pub open spec fn program_of(job: JobRequest, found: Seq<bool>) -> Seq<char> {
    resolved_program(Some(option_text(job.ffmpeg_path)), "ffmpeg"@, found)
}

impl Supervisor {
    /// No job holds the slot.
    pub open spec fn is_idle(self) -> bool {
        self.phase is Idle
    }

    /// The task that holds the slot, starting or running.
    pub open spec fn active_task(self) -> Option<u64> {
        match self.phase {
            Phase::Idle => None,
            Phase::Starting { task } => Some(task),
            Phase::Running { task, cancelled } => Some(task),
        }
    }

    /// The supervisor after a new task was let into the free slot.
    pub open spec fn claimed(self) -> Supervisor {
        Supervisor {
            phase: Phase::Starting { task: next_task(self.issued) },
            issued: next_task(self.issued),
        }
    }

    /// The supervisor after the process of the starting task `task` was
    /// started; unchanged when `task` is not the starting task.
    pub open spec fn published(self, task: u64) -> Supervisor {
        if self.phase == (Phase::Starting { task }) {
            Supervisor { phase: Phase::Running { task, cancelled: false }, ..self }
        } else {
            self
        }
    }

    /// The supervisor after the starting task `task` was given up; unchanged
    /// when `task` is not the starting task.
    pub open spec fn abandoned(self, task: u64) -> Supervisor {
        if self.phase == (Phase::Starting { task }) {
            Supervisor { phase: Phase::Idle, ..self }
        } else {
            self
        }
    }

    /// The supervisor after the end of the running task was asked for;
    /// unchanged when no task runs.
    pub open spec fn cancel_requested(self) -> Supervisor {
        match self.phase {
            Phase::Running { task, cancelled } => Supervisor {
                phase: Phase::Running { task, cancelled: true },
                ..self
            },
            _ => self,
        }
    }

    /// Whether the end of the running task `task` was asked for.
    pub open spec fn cancelled(self, task: u64) -> bool {
        self.phase == (Phase::Running { task, cancelled: true })
    }

    /// The supervisor after the running task `task` ended; unchanged when the
    /// slot holds another task or none.
    pub open spec fn cleared(self, task: u64) -> Supervisor {
        match self.phase {
            Phase::Running { task: held, cancelled } => if held == task {
                Supervisor { phase: Phase::Idle, ..self }
            } else {
                self
            },
            _ => self,
        }
    }

    /// What a start on this supervisor leads to: a conflict while the slot is
    /// held, the failure of a request that gives no argument list, and else
    /// the supervisor with the new task let in.
    pub open spec fn start_outcome(self, job: JobRequest) -> Result<Supervisor, StartFailure> {
        if !self.is_idle() {
            Err(StartFailure::ConcurrencyConflict)
        } else {
            match ffmpeg_args(job) {
                Err(failure) => Err(StartFailure::Build(failure)),
                Ok(args) => Ok(self.claimed()),
            }
        }
    }

    /// A supervisor with a free slot.
    pub fn new() -> (r: Supervisor)
        ensures
            r.is_idle(),
            r.issued == 0,
    {
        Supervisor { phase: Phase::Idle, issued: 0 }
    }

    /// Whether a job holds the slot.
    pub fn is_busy(&self) -> (r: bool)
        ensures
            r == !self.is_idle(),
    {
        match self.phase {
            Phase::Idle => false,
            _ => true,
        }
    }

    /// Lets a job in, if the slot is free and the request gives an argument
    /// list, and says what to run.
    ///
    /// `found[i]` says whether place `i` of the search list for `ffmpeg`
    /// exists. On success the slot holds the new task as starting; on any
    /// failure the supervisor is as it was.
    pub fn begin(&mut self, payload: &JobPayload, found: &[bool]) -> (r: Result<
        LaunchPlan,
        StartError,
    >)
        ensures
            match r {
                Ok(plan) => {
                    &&& old(self).start_outcome(payload@) == Ok::<Supervisor, StartFailure>(
                        *final(self),
                    )
                    &&& plan.task == next_task(old(self).issued)
                    &&& ffmpeg_args(payload@) == Ok::<Seq<Seq<char>>, Failure>(texts(plan.args@))
                    &&& plan.configured_path@ == option_text(payload@.ffmpeg_path)
                    &&& plan.program@ == program_of(payload@, found@)
                    &&& plan.running@ == running_event(
                        mode_label(mode_of(option_text(payload@.mode))),
                        command_preview(plan.program@, texts(plan.args@)),
                    )
                },
                Err(e) => {
                    &&& old(self).start_outcome(payload@) == Err::<Supervisor, StartFailure>(e@)
                    &&& *final(self) == *old(self)
                },
            },
    {
        if self.is_busy() {
            return Err(StartError::ConcurrencyConflict);
        }
        let configured_path = text_from_option(&payload.ffmpeg_path);
        let program = resolve_executable_path(Some(configured_path.as_str()), "ffmpeg", found);
        let args = match build_ffmpeg_args(payload) {
            Ok(args) => args,
            Err(e) => {
                return Err(StartError::Build(e));
            },
        };
        let mode_text = text_from_option(&payload.mode);
        let mode = match mode_from_text(mode_text.as_str()) {
            Mode::Raw => "raw".to_string(),
            Mode::Visual => "visual".to_string(),
            Mode::Preset => "preset".to_string(),
        };
        let command = format_command_preview(program.as_str(), args.as_slice());
        let task: u64 = if self.issued == u64::MAX {
            0
        } else {
            self.issued + 1
        };
        self.phase = Phase::Starting { task };
        self.issued = task;
        Ok(
            LaunchPlan {
                task,
                program,
                configured_path,
                args,
                running: StateEvent::running(mode, command),
            },
        )
    }

    /// Records that the process of the starting task `task` runs. Says
    /// whether `task` was the starting task.
    pub fn publish(&mut self, task: u64) -> (r: bool)
        ensures
            r == (old(self).phase == (Phase::Starting { task })),
            *final(self) == old(self).published(task),
    {
        match self.phase {
            Phase::Starting { task: held } => {
                if held == task {
                    self.phase = Phase::Running { task, cancelled: false };
                    true
                } else {
                    false
                }
            },
            _ => false,
        }
    }

    /// Gives up the starting task `task`, whose process could not be started,
    /// and frees the slot.
    pub fn abandon(&mut self, task: u64)
        ensures
            *final(self) == old(self).abandoned(task),
    {
        match self.phase {
            Phase::Starting { task: held } => {
                if held == task {
                    self.phase = Phase::Idle;
                }
            },
            _ => {},
        }
    }

    /// Asks for the end of the running task. Says whether a task was running;
    /// with none running nothing changes.
    pub fn cancel(&mut self) -> (r: bool)
        ensures
            r == (old(self).phase is Running),
            *final(self) == old(self).cancel_requested(),
    {
        match self.phase {
            Phase::Running { task, cancelled } => {
                self.phase = Phase::Running { task, cancelled: true };
                true
            },
            _ => false,
        }
    }

    /// Whether the end of the running task `task` was asked for.
    pub fn is_cancelled(&self, task: u64) -> (r: bool)
        ensures
            r == self.cancelled(task),
    {
        match self.phase {
            Phase::Running { task: held, cancelled } => held == task && cancelled,
            _ => false,
        }
    }

    /// The event that tells how the task `task` ended.
    pub fn conclude(&self, task: u64, report: &ExitReport) -> (r: StateEvent)
        ensures
            r@ == event_of(terminal_of(self.cancelled(task), *report)),
    {
        terminal_event(self.is_cancelled(task), report)
    }

    /// Frees the slot after the running task `task` ended. A slot that holds
    /// another task is left alone.
    pub fn clear(&mut self, task: u64)
        ensures
            *final(self) == old(self).cleared(task),
    {
        match self.phase {
            Phase::Running { task: held, cancelled } => {
                if held == task {
                    self.phase = Phase::Idle;
                }
            },
            _ => {},
        }
    }
}

/// While a job holds the slot, starting or running, cancelled or not, every
/// start is refused as a conflict, whatever it asks for.
pub proof fn lemma_busy_slot_refuses(s: Supervisor, job: JobRequest)
    requires
        !s.is_idle(),
    ensures
        s.start_outcome(job) == Err::<Supervisor, StartFailure>(StartFailure::ConcurrencyConflict),
        s.cancel_requested().start_outcome(job) == Err::<Supervisor, StartFailure>(
            StartFailure::ConcurrencyConflict,
        ),
        forall|task: u64| #[trigger]
            s.published(task).start_outcome(job) == Err::<Supervisor, StartFailure>(
                StartFailure::ConcurrencyConflict,
            ),
{
}

/// Of two starts on a free slot, with requests that both give an argument
/// list, exactly one succeeds, whichever comes first: the first is let in and
/// the second is refused as a conflict, and it leaves the slot to the first.
pub proof fn lemma_one_of_two_starts(s: Supervisor, first: JobRequest, second: JobRequest)
    requires
        s.is_idle(),
        ffmpeg_args(first) is Ok,
        ffmpeg_args(second) is Ok,
    ensures
        s.start_outcome(first) == Ok::<Supervisor, StartFailure>(s.claimed()),
        s.claimed().start_outcome(second) == Err::<Supervisor, StartFailure>(
            StartFailure::ConcurrencyConflict,
        ),
        s.start_outcome(second) == Ok::<Supervisor, StartFailure>(s.claimed()),
        s.claimed().start_outcome(first) == Err::<Supervisor, StartFailure>(
            StartFailure::ConcurrencyConflict,
        ),
        s.claimed().active_task() == Some(next_task(s.issued)),
{
}

/// A task that was cancelled while it ran is reported as stopped when its
/// process exits, whatever the exit status, and never as failed.
pub proof fn lemma_cancel_wins(s: Supervisor, task: u64, success: bool, code: Option<i32>)
    requires
        s.phase is Running,
        s.active_task() == Some(task),
    ensures
        s.cancel_requested().cancelled(task),
        terminal_of(s.cancel_requested().cancelled(task), ExitReport::Exited { success, code })
            == Terminal::Stopped,
        event_of(
            terminal_of(s.cancel_requested().cancelled(task), ExitReport::Exited { success, code }),
        ).status == "stopped"@,
{
}

/// The slot returns to idle only through the end of the task that holds it:
/// clearing for any other task changes nothing.
pub proof fn lemma_clear_guards_task(s: Supervisor, task: u64)
    ensures
        s.active_task() != Some(task) ==> s.cleared(task) == s,
        s.phase is Running && s.active_task() == Some(task) ==> s.cleared(task).is_idle(),
{
}

/// The life of a task: let into a free slot it is starting; a start that
/// fails frees the slot at once; a start that succeeds makes it run, not
/// cancelled, and its end frees the slot, cancelled or not.
pub proof fn lemma_task_lifecycle(s: Supervisor)
    requires
        s.is_idle(),
    ensures
        s.claimed().phase == (Phase::Starting { task: next_task(s.issued) }),
        s.claimed().abandoned(next_task(s.issued)).is_idle(),
        s.claimed().published(next_task(s.issued)).phase == (Phase::Running {
            task: next_task(s.issued),
            cancelled: false,
        }),
        s.claimed().published(next_task(s.issued)).cleared(next_task(s.issued)).is_idle(),
        s.claimed().published(next_task(s.issued)).cancel_requested().cleared(
            next_task(s.issued),
        ).is_idle(),
        !s.claimed().cancel_requested().cancelled(next_task(s.issued)),
{
}

} // verus!
