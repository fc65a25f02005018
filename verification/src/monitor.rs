//! The background monitor of the selected repository.
//!
//! The monitor's thread waits for a command or for its interval to pass; what it
//! does with each of these, and how it keeps count of failed reads, is decided
//! here (`worker_step`, `refresh_once`).  Waiting and the channels to the user
//! interface are the caller's.
use crate::git::{fetched_from, opt_text_view, runner_ready, GitCommand, GitOutput};
use crate::models::{CommitInfo, RepoSnapshot};
use vstd::prelude::*;

verus! {

#[verifier::external_type_specification]
#[verifier::external_body]
#[verifier::reject_recursive_types(T)]
pub struct ExSender<T>(std::sync::mpsc::Sender<T>);

#[verifier::external_type_specification]
#[verifier::external_body]
#[verifier::reject_recursive_types(T)]
pub struct ExReceiver<T>(std::sync::mpsc::Receiver<T>);

/// What the user interface asks the monitor to do.
#[derive(Debug)]
pub enum MonitorCommand {
    SetRepo(String),
    SetIntervalSeconds(u64),
    ManualRefresh,
    Stop,
}

/// What the monitor reports.
#[derive(Debug)]
pub enum MonitorEvent {
    Snapshot(RepoSnapshot),
    Error { message: String, consecutive_failures: u32 },
}

/// Calls `Sender::send`; a monitor that has stopped ignores the command, so the
/// outcome is dropped and nothing is promised.
#[verifier::external_body]
fn send_command(tx: &std::sync::mpsc::Sender<MonitorCommand>, command: MonitorCommand) {
    let _ = tx.send(command);
}

/// Calls `Receiver::try_recv`; whether an event is waiting depends on the monitor's
/// thread, so nothing is promised of the result.
#[verifier::external_body]
fn receive_event(rx: &std::sync::mpsc::Receiver<MonitorEvent>) -> Option<MonitorEvent> {
    rx.try_recv().ok()
}

/// The user interface's end of the channels to the monitor.
pub struct MonitorController {
    command_tx: std::sync::mpsc::Sender<MonitorCommand>,
    event_rx: std::sync::mpsc::Receiver<MonitorEvent>,
}

impl MonitorController {
    /// The end through which commands go to the monitor.
    pub closed spec fn command_sender(self) -> std::sync::mpsc::Sender<MonitorCommand> {
        self.command_tx
    }

    /// The end from which the monitor's events are taken.
    pub closed spec fn event_receiver(self) -> std::sync::mpsc::Receiver<MonitorEvent> {
        self.event_rx
    }

    /// Wraps the channel ends of a monitor whose thread has been started.
    pub fn from_channels(
        command_tx: std::sync::mpsc::Sender<MonitorCommand>,
        event_rx: std::sync::mpsc::Receiver<MonitorEvent>,
    ) -> (res: Self)
        ensures
            res.command_sender() == command_tx,
            res.event_receiver() == event_rx,
    {
        MonitorController { command_tx, event_rx }
    }

    /// Hands a command to the monitor.
    pub fn send(&self, command: MonitorCommand) {
        send_command(&self.command_tx, command)
    }

    /// The next event from the monitor, if one is waiting.
    pub fn try_recv(&self) -> Option<MonitorEvent> {
        receive_event(&self.event_rx)
    }
}

/// The interval that the monitor waits for `seconds`: clamped to `1..=3600`.
pub open spec fn interval_spec(seconds: u64) -> u64 {
    if seconds < 1 {
        1
    } else if seconds > 3600 {
        3600
    } else {
        seconds
    }
}

/// The monitor's interval for a requested number of seconds, clamped to `1..=3600`.
pub fn interval_from_seconds(seconds: u64) -> (res: u64)
    ensures
        res == interval_spec(seconds),
        1 <= res <= 3600,
{
    if seconds < 1 {
        1
    } else if seconds > 3600 {
        3600
    } else {
        seconds
    }
}

/// What the monitor's thread keeps between steps.
#[derive(Debug)]
pub struct WorkerState {
    pub repo_path: Option<String>,
    pub interval_sec: u64,
    pub previous_head: Option<String>,
    pub previous_commits: Vec<CommitInfo>,
    pub consecutive_failures: u32,
}

impl WorkerState {
    /// The interval is always an accepted one.
    pub open spec fn wf(self) -> bool {
        1 <= self.interval_sec <= 3600
    }
}

/// What woke the monitor's thread.
#[derive(Debug)]
pub enum WorkerInput {
    Command(MonitorCommand),
    /// The interval passed without a command.
    Timeout,
    /// The user interface's end of the channel is gone.
    Disconnected,
}

/// What the monitor's thread does next.
#[derive(Debug, Clone, Copy, PartialEq, Eq, Structural)]
pub enum WorkerAction {
    /// Wait again, for the state's interval.
    Wait,
    /// Read the repository (`refresh_once`), then wait again.
    Refresh,
    /// End the thread.
    Stop,
}

/// The state of a monitor started with `initial_interval_sec`: no repository yet.
pub fn new_worker_state(initial_interval_sec: u64) -> (res: WorkerState)
    ensures
        res.wf(),
        res.repo_path is None,
        res.interval_sec == interval_spec(initial_interval_sec),
        res.previous_head is None,
        res.previous_commits@.len() == 0,
        res.consecutive_failures == 0,
{
    WorkerState {
        repo_path: None,
        interval_sec: interval_from_seconds(initial_interval_sec),
        previous_head: None,
        previous_commits: Vec::new(),
        consecutive_failures: 0,
    }
}

/// How the monitor's thread, woken by `input`, goes from `before` to `after` and what it
/// does next.  Selecting a repository forgets what was read before and resets the
/// failure count; a manual refresh forgets what was read before; both read at once, as
/// does the passing of the interval.
pub open spec fn stepped(before: WorkerState, input: WorkerInput, after: WorkerState, action: WorkerAction) -> bool {
    &&& after.wf()
    &&& match input {
        WorkerInput::Command(MonitorCommand::SetRepo(path)) => {
            &&& action == WorkerAction::Refresh
            &&& after.repo_path == Some(path)
            &&& after.previous_head is None
            &&& after.previous_commits@.len() == 0
            &&& after.consecutive_failures == 0
            &&& after.interval_sec == before.interval_sec
        },
        WorkerInput::Command(MonitorCommand::SetIntervalSeconds(seconds)) => {
            &&& action == WorkerAction::Wait
            &&& after.interval_sec == interval_spec(seconds)
            &&& after.repo_path == before.repo_path
            &&& after.previous_head == before.previous_head
            &&& after.previous_commits@ == before.previous_commits@
            &&& after.consecutive_failures == before.consecutive_failures
        },
        WorkerInput::Command(MonitorCommand::ManualRefresh) => {
            &&& action == WorkerAction::Refresh
            &&& after.previous_head is None
            &&& after.previous_commits@.len() == 0
            &&& after.repo_path == before.repo_path
            &&& after.interval_sec == before.interval_sec
            &&& after.consecutive_failures == before.consecutive_failures
        },
        WorkerInput::Timeout => {
            &&& action == WorkerAction::Refresh
            &&& after.repo_path == before.repo_path
            &&& after.previous_head == before.previous_head
            &&& after.previous_commits@ == before.previous_commits@
            &&& after.interval_sec == before.interval_sec
            &&& after.consecutive_failures == before.consecutive_failures
        },
        WorkerInput::Command(MonitorCommand::Stop) | WorkerInput::Disconnected => {
            &&& action == WorkerAction::Stop
            &&& after == before
        },
    }
}

/// What the monitor's thread does with what woke it (see `stepped`).
pub fn worker_step(state: &mut WorkerState, input: WorkerInput) -> (res: WorkerAction)
    requires
        old(state).wf(),
    ensures
        stepped(*old(state), input, *final(state), res),
{
    match input {
        WorkerInput::Command(command) => match command {
            MonitorCommand::SetRepo(repo_path) => {
                state.repo_path = Some(repo_path);
                state.previous_head = None;
                state.previous_commits = Vec::new();
                state.consecutive_failures = 0;
                WorkerAction::Refresh
            },
            MonitorCommand::SetIntervalSeconds(seconds) => {
                state.interval_sec = interval_from_seconds(seconds);
                WorkerAction::Wait
            },
            MonitorCommand::ManualRefresh => {
                state.previous_head = None;
                state.previous_commits = Vec::new();
                WorkerAction::Refresh
            },
            MonitorCommand::Stop => WorkerAction::Stop,
        },
        WorkerInput::Timeout => WorkerAction::Refresh,
        WorkerInput::Disconnected => WorkerAction::Stop,
    }
}

/// The failure count after one more failed read (it stops at `u32::MAX`).
pub open spec fn next_failure_count(count: u32) -> u32 {
    if count == u32::MAX {
        count
    } else {
        (count + 1) as u32
    }
}

/// How recording the outcome `fetched` of a read takes the monitor from `before` to
/// `after` and which event it reports: a snapshot resets the failure count and becomes
/// the base for the next read; a failure counts one more failure in a row.
pub open spec fn recorded(before: WorkerState, after: WorkerState, fetched: Result<RepoSnapshot, String>, event: MonitorEvent) -> bool {
    &&& after.wf()
    &&& after.repo_path == before.repo_path
    &&& after.interval_sec == before.interval_sec
    &&& match fetched {
        Ok(snap) => {
            &&& event matches MonitorEvent::Snapshot(s) && s.same_as(
                RepoSnapshot { consecutive_update_failures: 0, ..snap },
            )
            &&& after.consecutive_failures == 0
            &&& after.previous_head is Some && after.previous_head->0@ == snap.head_full_id@
            &&& after.previous_commits@ == snap.recent_commits@
        },
        Err(message) => {
            &&& event matches MonitorEvent::Error { message: m, consecutive_failures: n } && m
                == message && n == after.consecutive_failures
            &&& after.consecutive_failures == next_failure_count(before.consecutive_failures)
            &&& after.previous_head == before.previous_head
            &&& after.previous_commits@ == before.previous_commits@
        },
    }
}

/// Records the outcome of reading the repository: a snapshot resets the failure count
/// and becomes the base for the next read; a failure counts one more failure in a row.
pub fn record_refresh(state: &mut WorkerState, fetched: Result<RepoSnapshot, String>) -> (res: MonitorEvent)
    requires
        old(state).wf(),
    ensures
        recorded(*old(state), *final(state), fetched, res),
{
    match fetched {
        Ok(mut snapshot) => {
            state.consecutive_failures = 0;
            state.previous_head = Some(snapshot.head_full_id.clone());
            state.previous_commits = crate::models::clone_commits(&snapshot.recent_commits);
            snapshot.consecutive_update_failures = 0;
            MonitorEvent::Snapshot(snapshot)
        },
        Err(message) => {
            state.consecutive_failures = state.consecutive_failures.saturating_add(1);
            MonitorEvent::Error { message, consecutive_failures: state.consecutive_failures }
        },
    }
}

/// Reads the selected repository through `run` (which runs `git` in it), if one is
/// selected, and records the outcome; `None` when no repository is selected.
pub fn refresh_once<R: Fn(GitCommand) -> Result<GitOutput, String>>(state: &mut WorkerState, now: i64, run: &R) -> (res: Option<MonitorEvent>)
    requires
        old(state).wf(),
        runner_ready(*run),
    ensures
        old(state).repo_path is None ==> res is None && *final(state) == *old(state),
        old(state).repo_path matches Some(path) ==> exists|fetched: Result<RepoSnapshot, String>|
            #![trigger recorded(*old(state), *final(state), fetched, res->0)]
            {
                &&& fetched_from(
                    *run,
                    path@,
                    opt_text_view(old(state).previous_head),
                    old(state).previous_commits@,
                    now,
                    fetched,
                )
                &&& res is Some
                &&& recorded(*old(state), *final(state), fetched, res->0)
            },
{
    let repo_path = match &state.repo_path {
        Some(p) => p.clone(),
        None => {
            return None;
        },
    };
    let fetched = crate::git::fetch_snapshot(
        repo_path.as_str(),
        &state.previous_head,
        &state.previous_commits,
        now,
        run,
    );
    let ghost kept = fetched;
    let res = Some(record_refresh(state, fetched));
    assert(recorded(*old(state), *state, kept, res->0));
    res
}

} // verus!
