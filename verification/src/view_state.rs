//! Decisions of the main window that do not depend on drawing: row colours, how
//! many rows the commit table shows, the countdown of the confirmation dialogs,
//! which actions are allowed, the log buffer and how monitor events change what is
//! shown.
use crate::config::normalize_spec;
use crate::models::{normalized_interval, AppStatus, RepoSnapshot, ScanScope, Settings, WorkState};
use crate::monitor::MonitorEvent;
use crate::text::{decimal_spec, trim_spec, views};
use vstd::prelude::*;
use vstd::string::*;

verus! {

/// How many commit rows the table shows at least.
pub const VISIBLE_ROWS: usize = 10;

/// How many commit rows the table shows at most.
pub const MAX_COMMITS: usize = 50;

/// Seconds counted down before a history action can be confirmed.
pub const REVERT_CONFIRM_COUNTDOWN_SECONDS: u64 = 5;

/// How long `0` stays shown before the confirmation is enabled, in milliseconds.
pub const REVERT_CONFIRM_ZERO_DISPLAY_MILLIS: u64 = 800;

/// How many log lines are kept.
pub const LOG_CAPACITY: usize = 400;

/// The number of rows the commit table shows for `commit_count` commits: at most 50
/// commits, padded with empty rows to at least `visible_rows`.
pub open spec fn display_row_count_spec(commit_count: usize, visible_rows: usize) -> usize {
    let bounded = if commit_count < 50 { commit_count } else { 50 };
    if bounded > visible_rows { bounded } else { visible_rows }
}

/// The number of rows the commit table shows.
pub fn commit_display_row_count(commit_count: usize, visible_rows: usize) -> (res: usize)
    ensures
        res == display_row_count_spec(commit_count, visible_rows),
{
    let bounded = if commit_count < 50 { commit_count } else { 50 };
    if bounded > visible_rows { bounded } else { visible_rows }
}

/// A colour as red, green and blue components.
#[derive(Debug, Clone, Copy, PartialEq, Eq, Structural)]
pub struct RowColor {
    pub r: u8,
    pub g: u8,
    pub b: u8,
}

/// The fill of a commit row: the selection first, then `HEAD`, then `main` history.
pub open spec fn row_fill_spec(selected: bool, is_master_scope: bool, is_head: bool) -> RowColor {
    if selected {
        RowColor { r: 236, g: 236, b: 236 }
    } else if is_head {
        RowColor { r: 255, g: 224, b: 224 }
    } else if is_master_scope {
        RowColor { r: 228, g: 245, b: 228 }
    } else {
        RowColor { r: 252, g: 252, b: 252 }
    }
}

/// The fill of a commit row: grey when selected, red for `HEAD`, green for `main`
/// history, white otherwise.
pub fn table_row_fill_color(selected: bool, is_master_scope: bool, is_head: bool) -> (res: RowColor)
    ensures
        res == row_fill_spec(selected, is_master_scope, is_head),
{
    if selected {
        RowColor { r: 236, g: 236, b: 236 }
    } else if is_head {
        RowColor { r: 255, g: 224, b: 224 }
    } else if is_master_scope {
        RowColor { r: 228, g: 245, b: 228 }
    } else {
        RowColor { r: 252, g: 252, b: 252 }
    }
}

/// `message` with every `\r\n` and every lone `\r` turned into `\n`.
pub open spec fn normalize_newlines_spec(message: Seq<char>) -> Seq<char>
    decreases message.len(),
{
    if message.len() == 0 {
        Seq::empty()
    } else if message[0] == '\r' {
        if message.len() > 1 && message[1] == '\n' {
            seq!['\n'] + normalize_newlines_spec(message.skip(2))
        } else {
            seq!['\n'] + normalize_newlines_spec(message.drop_first())
        }
    } else {
        seq![message[0]] + normalize_newlines_spec(message.drop_first())
    }
}

/// Turns `\r\n` and lone `\r` line ends into `\n`.
pub fn normalize_message_newlines(message: String) -> (res: String)
    ensures
        res@ == normalize_newlines_spec(message@),
{
    let chars = crate::text::chars_of(message.as_str());
    let n = chars.len();
    let mut out: Vec<char> = Vec::new();
    let mut i: usize = 0;
    assert(message@.skip(0) == message@);
    while i < n
        invariant
            i <= n == chars@.len(),
            chars@ == message@,
            out@ + normalize_newlines_spec(message@.skip(i as int)) == normalize_newlines_spec(
                message@,
            ),
        decreases n - i,
    {
        let ghost rest = message@.skip(i as int);
        if chars[i] == '\r' {
            out.push('\n');
            if i + 1 < n && chars[i + 1] == '\n' {
                assert(rest.skip(2) == message@.skip(i + 2));
                i = i + 2;
            } else {
                assert(rest.drop_first() == message@.skip(i + 1));
                i = i + 1;
            }
        } else {
            out.push(chars[i]);
            assert(rest.drop_first() == message@.skip(i + 1));
            i = i + 1;
        }
    }
    assert(message@.skip(n as int) == Seq::<char>::empty());
    assert(out@ + Seq::<char>::empty() == out@);
    crate::text::string_from_chars(out.as_slice())
}

/// The countdown shown while confirming a history action, and whether it may be
/// confirmed, for a deadline and a current time given in nanoseconds on one clock:
/// the remaining whole seconds rounded up before the deadline, then `0` for 800 ms,
/// then `OK`.
pub open spec fn confirm_state_spec(deadline_nanos: u128, now_nanos: u128) -> (Seq<char>, bool) {
    if now_nanos < deadline_nanos {
        let remaining_millis = (deadline_nanos - now_nanos) / 1_000_000;
        (decimal_spec(((remaining_millis + 999) / 1000) as nat), false)
    } else if now_nanos - deadline_nanos < 800_000_000 {
        ("0"@, false)
    } else {
        ("OK"@, true)
    }
}

/// The countdown text and whether the action may be confirmed.
pub fn revert_confirm_state_from_deadline(deadline_nanos: u128, now_nanos: u128) -> (res: (String, bool))
    ensures
        (res.0@, res.1) == confirm_state_spec(deadline_nanos, now_nanos),
{
    if now_nanos < deadline_nanos {
        let remaining_millis = (deadline_nanos - now_nanos) / 1_000_000;
        let seconds = (remaining_millis + 999) / 1000;
        return (crate::text::decimal_u128(seconds), false);
    }
    if now_nanos - deadline_nanos < 800_000_000 {
        return (crate::text::owned("0"), false);
    }
    (crate::text::owned("OK"), true)
}

/// The countdown state when no deadline is set: confirmable.
pub fn confirm_state_without_deadline() -> (res: (String, bool))
    ensures
        res.0@ == "OK"@,
        res.1,
{
    (crate::text::owned("OK"), true)
}

/// The working-tree state as far as the actions are concerned.
#[derive(Debug, Clone, Copy, PartialEq, Eq, Structural)]
pub struct SnapshotActivity {
    pub work_state: WorkState,
    /// A merge, rebase or similar operation is in progress.
    pub operation_in_progress: bool,
}

/// The working-tree state shown: unknown while in error or before a snapshot.
pub open spec fn displayed_work_state_spec(app_status: AppStatus, snapshot: Option<SnapshotActivity>) -> WorkState {
    if app_status == AppStatus::Error {
        WorkState::Unknown
    } else {
        match snapshot {
            Some(s) => s.work_state,
            None => WorkState::Unknown,
        }
    }
}

/// The working-tree state shown.
pub fn displayed_work_state(app_status: AppStatus, snapshot: Option<SnapshotActivity>) -> (res: WorkState)
    ensures
        res == displayed_work_state_spec(app_status, snapshot),
{
    if app_status == AppStatus::Error {
        return WorkState::Unknown;
    }
    match snapshot {
        Some(s) => s.work_state,
        None => WorkState::Unknown,
    }
}

/// Whether uncommitted work may be committed: git is available, nothing failed, no
/// operation is in progress and the working tree is dirty.
pub open spec fn can_commit_spec(git_available: bool, app_status: AppStatus, snapshot: Option<SnapshotActivity>) -> bool {
    &&& git_available
    &&& app_status != AppStatus::Error
    &&& snapshot matches Some(s)
    &&& !s.operation_in_progress
    &&& displayed_work_state_spec(app_status, snapshot) == WorkState::Dirty
}

/// Whether uncommitted work may be committed.
pub fn can_run_commit_action(git_available: bool, app_status: AppStatus, snapshot: Option<SnapshotActivity>) -> (res: bool)
    ensures
        res == can_commit_spec(git_available, app_status, snapshot),
{
    if !git_available || app_status == AppStatus::Error {
        return false;
    }
    match snapshot {
        None => false,
        Some(s) => {
            if s.operation_in_progress {
                return false;
            }
            displayed_work_state(app_status, snapshot) == WorkState::Dirty
        },
    }
}

/// Whether the history may be changed: nothing failed, the working tree is clean and no
/// operation is in progress.
pub fn can_run_history_action(app_status: AppStatus, snapshot: SnapshotActivity) -> (res: bool)
    ensures
        res == (app_status != AppStatus::Error && snapshot.work_state == WorkState::Clean
            && !snapshot.operation_in_progress),
{
    app_status != AppStatus::Error && snapshot.work_state == WorkState::Clean
        && !snapshot.operation_in_progress
}

/// `<lead>「<action>」は実行できません` (the action cannot run because of `lead`).
pub open spec fn block_text(lead: Seq<char>, action: Seq<char>) -> Seq<char> {
    lead + "「"@ + action + "」は実行できません"@
}

/// Why a history action named `action` cannot run, or `None` when it can.
pub open spec fn block_reason_spec(action: Seq<char>, app_status: AppStatus, snapshot: SnapshotActivity) -> Option<
    Seq<char>,
> {
    if app_status == AppStatus::Error {
        Some(block_text("作業状態が不明のため"@, action))
    } else if snapshot.operation_in_progress {
        Some(block_text("Git操作中のため"@, action))
    } else {
        match snapshot.work_state {
            WorkState::Clean => None,
            WorkState::Dirty => Some(block_text("未コミット変更があるため"@, action)),
            WorkState::Unknown => Some(block_text("作業状態が不明のため"@, action)),
        }
    }
}

fn block_message(lead: &str, action: &str) -> (res: String)
    ensures
        res@ == block_text(lead@, action@),
{
    let mut m = crate::text::owned(lead);
    m.append("「");
    m.append(action);
    m.append("」は実行できません");
    m
}

fn action_block_reason(action: &str, app_status: AppStatus, snapshot: SnapshotActivity) -> (res: Option<String>)
    ensures
        crate::config::opt_view(res) == block_reason_spec(action@, app_status, snapshot),
{
    if app_status == AppStatus::Error {
        return Some(block_message("作業状態が不明のため", action));
    }
    if snapshot.operation_in_progress {
        return Some(block_message("Git操作中のため", action));
    }
    match snapshot.work_state {
        WorkState::Clean => None,
        WorkState::Dirty => Some(block_message("未コミット変更があるため", action)),
        WorkState::Unknown => Some(block_message("作業状態が不明のため", action)),
    }
}

/// Why the rollback cannot run, or `None` when it can.
pub fn history_action_block_reason(app_status: AppStatus, snapshot: SnapshotActivity) -> (res: Option<String>)
    ensures
        crate::config::opt_view(res) == block_reason_spec("ロルバ"@, app_status, snapshot),
{
    action_block_reason("ロルバ", app_status, snapshot)
}

/// Why moving `main` to `HEAD` cannot run, or `None` when it can.
pub fn move_main_action_block_reason(app_status: AppStatus, snapshot: SnapshotActivity) -> (res: Option<String>)
    ensures
        crate::config::opt_view(res) == block_reason_spec("main更新"@, app_status, snapshot),
{
    action_block_reason("main更新", app_status, snapshot)
}

/// `logs` after appending `message` and dropping the oldest lines beyond the capacity.
pub open spec fn push_log_spec(logs: Seq<Seq<char>>, message: Seq<char>) -> Seq<Seq<char>> {
    let all = logs.push(message);
    if all.len() > LOG_CAPACITY {
        all.skip(all.len() - LOG_CAPACITY)
    } else {
        all
    }
}

/// Appends a log line, keeping the newest 400.
pub fn push_log(logs: &mut Vec<String>, message: String)
    ensures
        views(final(logs)@) == push_log_spec(views(old(logs)@), message@),
{
    let ghost all = views(logs@).push(message@);
    logs.push(message);
    assert(views(logs@) == all);
    if logs.len() > LOG_CAPACITY {
        let remove_count = logs.len() - LOG_CAPACITY;
        let kept = logs.split_off(remove_count);
        *logs = kept;
        assert(views(logs@) == all.skip(all.len() - LOG_CAPACITY));
    }
}

/// What the main window shows about the monitored repository.
#[derive(Debug)]
pub struct MonitorView {
    pub app_status: AppStatus,
    pub last_error: Option<String>,
    pub consecutive_failures: u32,
    pub selected_target_commit: Option<String>,
    pub snapshot: Option<RepoSnapshot>,
}

/// Whether `target` is among the listed commits of `snapshot`.
pub open spec fn lists_commit(snapshot: RepoSnapshot, target: Seq<char>) -> bool {
    exists|i: int| 0 <= i < snapshot.recent_commits@.len() && #[trigger] snapshot.recent_commits@[i].full_id@ == target
}

/// The error line shown for the `n`-th failed read in a row.
pub open spec fn failure_message_spec(n: u32, message: Seq<char>) -> Seq<char> {
    "更新失敗("@ + decimal_spec(n as nat) + "回連続): "@ + message
}

/// Applies one monitor event to what the window shows; returns the line to log, if any.
/// A snapshot marks the project selected, clears the error and the failure count, and
/// drops the selected commit when it is no longer listed; an error marks the window
/// in error with a message counting the failures in a row.
pub fn apply_monitor_event(view: &mut MonitorView, event: MonitorEvent) -> (res: Option<String>)
    ensures
        match event {
            MonitorEvent::Snapshot(snap) => {
                &&& res is None
                &&& final(view).app_status == AppStatus::Selected
                &&& final(view).last_error is None
                &&& final(view).consecutive_failures == 0
                &&& final(view).snapshot matches Some(s) && s.same_as(snap)
                &&& match old(view).selected_target_commit {
                    Some(t) => if lists_commit(snap, t@) {
                        final(view).selected_target_commit == Some(t)
                    } else {
                        final(view).selected_target_commit is None
                    },
                    None => final(view).selected_target_commit is None,
                }
            },
            MonitorEvent::Error { message, consecutive_failures } => {
                &&& final(view).app_status == AppStatus::Error
                &&& final(view).consecutive_failures == consecutive_failures
                &&& final(view).last_error matches Some(e) && e@ == failure_message_spec(
                    consecutive_failures,
                    message@,
                )
                &&& res matches Some(l) && l@ == failure_message_spec(consecutive_failures, message@)
                &&& final(view).selected_target_commit == old(view).selected_target_commit
                &&& final(view).snapshot == old(view).snapshot
            },
        },
{
    match event {
        MonitorEvent::Snapshot(snapshot) => {
            view.app_status = AppStatus::Selected;
            view.last_error = None;
            view.consecutive_failures = 0;
            let keep = match &view.selected_target_commit {
                Some(target) => {
                    let commits = &snapshot.recent_commits;
                    let mut found = false;
                    let mut i: usize = 0;
                    while i < commits.len()
                        invariant
                            i <= commits@.len(),
                            commits@ == snapshot.recent_commits@,
                            found == exists|j: int| 0 <= j < i && #[trigger] commits@[j].full_id@ == target@,
                        decreases commits@.len() - i,
                    {
                        if commits[i].full_id == *target {
                            found = true;
                        }
                        i = i + 1;
                    }
                    found
                },
                None => false,
            };
            if !keep {
                view.selected_target_commit = None;
            }
            view.snapshot = Some(snapshot);
            None
        },
        MonitorEvent::Error { message, consecutive_failures } => {
            view.app_status = AppStatus::Error;
            view.consecutive_failures = consecutive_failures;
            let mut decorated = crate::text::owned("更新失敗(");
            let count = crate::text::decimal(consecutive_failures as u64);
            decorated.append(count.as_str());
            decorated.append("回連続): ");
            decorated.append(message.as_str());
            view.last_error = Some(decorated.clone());
            Some(decorated)
        },
    }
}


/// How start-up leaves the window.
#[derive(Debug)]
pub struct StartupDecision {
    pub app_status: AppStatus,
    pub last_error: Option<String>,
    pub logs: Vec<String>,
    /// Whether the monitor is told the selected repository at once.
    pub start_monitoring: bool,
    pub show_project_change_dialog: bool,
}

/// How start-up leaves the window, given whether `git` was found and whether the saved
/// repository still exists: without `git` the window is in error and nothing is
/// monitored; with a repository and `git` it is monitored at once; without a
/// repository the project dialog opens.
pub fn startup_decision(git_available: bool, has_selected_repo: bool) -> (res: StartupDecision)
    ensures
        res.show_project_change_dialog == !has_selected_repo,
        res.start_monitoring == (git_available && has_selected_repo),
        !git_available ==> (res.app_status == AppStatus::Error && (res.last_error matches Some(e)
            && e@ == "git が見つかりません"@) && views(res.logs@) == seq![
            "git が見つからないため監視更新を停止しています"@,
        ]),
        git_available ==> res.last_error is None && res.logs@.len() == 0 && res.app_status == (
        if has_selected_repo {
            AppStatus::Updating
        } else {
            AppStatus::ProjectUnselected
        }),
{
    let mut logs: Vec<String> = Vec::new();
    if !git_available {
        logs.push(crate::text::owned("git が見つからないため監視更新を停止しています"));
        assert(views(logs@) == seq!["git が見つからないため監視更新を停止しています"@]);
        return StartupDecision {
            app_status: AppStatus::Error,
            last_error: Some(crate::text::owned("git が見つかりません")),
            logs,
            start_monitoring: false,
            show_project_change_dialog: !has_selected_repo,
        };
    }
    StartupDecision {
        app_status: if has_selected_repo {
            AppStatus::Updating
        } else {
            AppStatus::ProjectUnselected
        },
        last_error: None,
        logs,
        start_monitoring: has_selected_repo,
        show_project_change_dialog: !has_selected_repo,
    }
}

/// The settings as start-up uses them: normalized, with the scan limited to direct
/// children.
pub fn startup_settings(loaded: Settings) -> (res: Settings)
    ensures
        res == (Settings { scan_scope: ScanScope::Direct, ..normalize_spec(loaded) }),
{
    let mut settings = loaded;
    settings.normalize();
    settings.scan_scope = ScanScope::Direct;
    settings
}

/// The root folder shown at start-up: the saved one, else the project root.
pub fn startup_root_folder_input(settings: &Settings, project_root_text: &str) -> (res: String)
    ensures
        res@ == match settings.root_folder_path {
            Some(p) => p@,
            None => project_root_text@,
        },
{
    match &settings.root_folder_path {
        Some(p) => p.clone(),
        None => crate::text::owned(project_root_text),
    }
}

/// The settings saved from the window: the root folder as typed (trimmed; none when
/// blank), the scan scope and the selected repository, normalized.
pub fn settings_for_persist(
    settings: &Settings,
    root_folder_input: &str,
    scan_scope: ScanScope,
    selected_repo_path: Option<String>,
) -> (res: Settings)
    ensures
        res.schema_version == settings.schema_version,
        crate::config::opt_view(res.root_folder_path) == (if trim_spec(root_folder_input@).len() == 0 {
            None
        } else {
            Some(trim_spec(root_folder_input@))
        }),
        res.scan_scope == scan_scope,
        res.selected_repo_path == selected_repo_path,
        res.update_interval_sec == normalized_interval(settings.update_interval_sec),
{
    let trimmed = crate::text::trim(root_folder_input);
    let root_folder_path = if trimmed.as_str().is_empty() {
        None
    } else {
        Some(trimmed)
    };
    let mut out = Settings {
        schema_version: settings.schema_version,
        root_folder_path,
        scan_scope,
        update_interval_sec: settings.update_interval_sec,
        selected_repo_path,
    };
    out.normalize();
    out
}

/// The number of `\n` in `s`.
pub open spec fn newline_count(s: Seq<char>) -> nat
    decreases s.len(),
{
    if s.len() == 0 {
        0
    } else {
        newline_count(s.drop_last()) + if s.last() == '\n' { 1nat } else { 0nat }
    }
}

/// The message shown for a commit and the lines logged: the fetched full message, or
/// the listed one when fetching failed (which is logged), with line ends normalized;
/// then the number of lines is logged.
pub fn commit_message_for_dialog(commit_id: &str, fetched: Result<String, String>, fallback: String) -> (res: (
    String,
    Vec<String>,
))
    ensures
        res.0@ == normalize_newlines_spec(
            match fetched {
                Ok(m) => m@,
                Err(_) => fallback@,
            },
        ),
        views(res.1@) == (match fetched {
            Ok(_) => Seq::<Seq<char>>::empty(),
            Err(e) => seq![
                "コミット全文取得失敗: id="@ + commit_id@ + " reason="@ + e@ + " (fallback使用)"@,
            ],
        }).push("commit message lines="@ + decimal_spec(newline_count(res.0@) + 1)),
{
    let mut logs: Vec<String> = Vec::new();
    assert(views(logs@) == Seq::<Seq<char>>::empty());
    let message = match fetched {
        Ok(full) => full,
        Err(err) => {
            let mut m = crate::text::owned("コミット全文取得失敗: id=");
            m.append(commit_id);
            m.append(" reason=");
            m.append(err.as_str());
            m.append(" (fallback使用)");
            logs.push(m);
            assert(views(logs@) == seq![m@]);
            fallback
        },
    };
    let normalized = normalize_message_newlines(message);
    let chars = crate::text::chars_of(normalized.as_str());
    let mut count: u64 = 0;
    let mut i: usize = 0;
    while i < chars.len()
        invariant
            i <= chars@.len(),
            chars@ == normalized@,
            count == newline_count(normalized@.take(i as int)),
            count <= i,
        decreases chars@.len() - i,
    {
        assert(normalized@.take(i + 1).drop_last() == normalized@.take(i as int));
        if chars[i] == '\n' {
            count = count + 1;
        }
        i = i + 1;
    }
    assert(normalized@.take(chars@.len() as int) == normalized@);
    let digits = crate::text::decimal_u128(count as u128 + 1);
    let mut line = crate::text::owned("commit message lines=");
    line.append(digits.as_str());
    let ghost before = views(logs@);
    logs.push(line);
    assert(views(logs@) == before.push(line@));
    (normalized, logs)
}

/// How many failed reads in a row bring up the warning line.
pub const FAILURE_WARNING_THRESHOLD: u32 = 3;

/// Whether the window warns that reads keep failing: at three or more in a row.
pub fn failure_warning_shown(consecutive_failures: u32) -> (res: bool)
    ensures
        res == (consecutive_failures >= FAILURE_WARNING_THRESHOLD),
{
    consecutive_failures >= FAILURE_WARNING_THRESHOLD
}

} // verus!
