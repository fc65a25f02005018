//! The data the application shows and persists: settings, repository
//! candidates, commits and repository snapshots.
use vstd::prelude::*;

verus! {

/// How deep below the scan root repositories are looked for.
#[derive(Debug, Clone, Copy, PartialEq, Eq, Structural)]
pub enum ScanScope {
    Direct,
    Depth2,
}

impl Default for ScanScope {
    fn default() -> (res: Self)
        ensures
            res == ScanScope::Direct,
    {
        ScanScope::Direct
    }
}

/// The persisted settings.
#[derive(Debug)]
pub struct Settings {
    pub schema_version: u32,
    pub root_folder_path: Option<String>,
    pub scan_scope: ScanScope,
    pub update_interval_sec: u64,
    pub selected_repo_path: Option<String>,
}

/// The interval used when a configured one is outside `1..=3600` seconds.
pub const DEFAULT_UPDATE_INTERVAL_SEC: u64 = 3;

/// The smallest accepted update interval, in seconds.
pub const MIN_UPDATE_INTERVAL_SEC: u64 = 1;

/// The largest accepted update interval, in seconds.
pub const MAX_UPDATE_INTERVAL_SEC: u64 = 3600;

/// Whether `seconds` is an accepted update interval.
pub open spec fn interval_in_range(seconds: u64) -> bool {
    MIN_UPDATE_INTERVAL_SEC <= seconds <= MAX_UPDATE_INTERVAL_SEC
}

/// The interval that `Settings::normalize` leaves in place of `seconds`.
pub open spec fn normalized_interval(seconds: u64) -> u64 {
    if interval_in_range(seconds) {
        seconds
    } else {
        DEFAULT_UPDATE_INTERVAL_SEC
    }
}

/// The settings in force before any configuration file is read.
pub open spec fn default_settings() -> Settings {
    Settings {
        schema_version: 1,
        root_folder_path: None,
        scan_scope: ScanScope::Direct,
        update_interval_sec: DEFAULT_UPDATE_INTERVAL_SEC,
        selected_repo_path: None,
    }
}

/// A copy of an optional string.
pub fn clone_opt_string(s: &Option<String>) -> (res: Option<String>)
    ensures
        res == *s,
{
    match s {
        Some(text) => Some(text.clone()),
        None => None,
    }
}

impl Clone for Settings {
    fn clone(&self) -> (res: Self)
        ensures
            res == *self,
    {
        Settings {
            schema_version: self.schema_version,
            root_folder_path: clone_opt_string(&self.root_folder_path),
            scan_scope: self.scan_scope,
            update_interval_sec: self.update_interval_sec,
            selected_repo_path: clone_opt_string(&self.selected_repo_path),
        }
    }
}

impl Default for Settings {
    fn default() -> (res: Self)
        ensures
            res == default_settings(),
    {
        Settings {
            schema_version: 1,
            root_folder_path: None,
            scan_scope: ScanScope::Direct,
            update_interval_sec: DEFAULT_UPDATE_INTERVAL_SEC,
            selected_repo_path: None,
        }
    }
}

impl Settings {
    /// Replaces an update interval outside `1..=3600` seconds by the default of 3;
    /// every other field is kept.
    pub fn normalize(&mut self)
        ensures
            final(self).update_interval_sec == normalized_interval(old(self).update_interval_sec),
            final(self).schema_version == old(self).schema_version,
            final(self).root_folder_path == old(self).root_folder_path,
            final(self).scan_scope == old(self).scan_scope,
            final(self).selected_repo_path == old(self).selected_repo_path,
    {
        if !(MIN_UPDATE_INTERVAL_SEC <= self.update_interval_sec
            && self.update_interval_sec <= MAX_UPDATE_INTERVAL_SEC) {
            self.update_interval_sec = DEFAULT_UPDATE_INTERVAL_SEC;
        }
    }
}

/// What the application is doing with the selected project.
#[derive(Debug, Clone, Copy, PartialEq, Eq, Structural)]
pub enum AppStatus {
    ProjectUnselected,
    Selected,
    Updating,
    Error,
}

/// The label shown for each status.
pub open spec fn status_label(status: AppStatus) -> Seq<char> {
    match status {
        AppStatus::ProjectUnselected => "プロジェクト未選択"@,
        AppStatus::Selected => "選択済み"@,
        AppStatus::Updating => "更新中"@,
        AppStatus::Error => "エラー状態"@,
    }
}

impl AppStatus {
    /// The label shown for the status.
    pub fn label(self) -> (res: &'static str)
        ensures
            res@ == status_label(self),
    {
        match self {
            AppStatus::ProjectUnselected => "プロジェクト未選択",
            AppStatus::Selected => "選択済み",
            AppStatus::Updating => "更新中",
            AppStatus::Error => "エラー状態",
        }
    }
}

/// Whether the working tree of the selected repository has uncommitted changes.
#[derive(Debug, Clone, Copy, PartialEq, Eq, Structural)]
pub enum WorkState {
    Clean,
    Dirty,
    Unknown,
}

/// A git repository found below the scan root.
#[derive(Debug)]
pub struct RepoCandidate {
    pub requirement_headline: String,
    pub path: String,
    pub last_commit_datetime: String,
}

impl Clone for RepoCandidate {
    fn clone(&self) -> (res: Self)
        ensures
            res == *self,
    {
        RepoCandidate {
            requirement_headline: self.requirement_headline.clone(),
            path: self.path.clone(),
            last_commit_datetime: self.last_commit_datetime.clone(),
        }
    }
}

/// One commit of the repository history as listed in the commit table.
#[derive(Debug)]
pub struct CommitInfo {
    pub scope_mark: String,
    pub in_main_history: bool,
    pub datetime: String,
    pub short_id: String,
    pub subject: String,
    pub body_full: String,
    pub full_id: String,
}

/// A commit as plain text values.
pub struct CommitView {
    pub scope_mark: Seq<char>,
    pub in_main_history: bool,
    pub datetime: Seq<char>,
    pub short_id: Seq<char>,
    pub subject: Seq<char>,
    pub body_full: Seq<char>,
    pub full_id: Seq<char>,
}

impl View for CommitInfo {
    type V = CommitView;

    open spec fn view(&self) -> CommitView {
        CommitView {
            scope_mark: self.scope_mark@,
            in_main_history: self.in_main_history,
            datetime: self.datetime@,
            short_id: self.short_id@,
            subject: self.subject@,
            body_full: self.body_full@,
            full_id: self.full_id@,
        }
    }
}

/// The views of a list of commits.
pub open spec fn commit_views(commits: Seq<CommitInfo>) -> Seq<CommitView> {
    commits.map_values(|c: CommitInfo| c@)
}

impl Clone for CommitInfo {
    fn clone(&self) -> (res: Self)
        ensures
            res == *self,
    {
        CommitInfo {
            scope_mark: self.scope_mark.clone(),
            in_main_history: self.in_main_history,
            datetime: self.datetime.clone(),
            short_id: self.short_id.clone(),
            subject: self.subject.clone(),
            body_full: self.body_full.clone(),
            full_id: self.full_id.clone(),
        }
    }
}

/// A copy of a list of commits.
pub fn clone_commits(commits: &Vec<CommitInfo>) -> (res: Vec<CommitInfo>)
    ensures
        res@ == commits@,
{
    let mut out: Vec<CommitInfo> = Vec::new();
    let mut i: usize = 0;
    while i < commits.len()
        invariant
            i <= commits@.len(),
            out@ == commits@.take(i as int),
        decreases commits@.len() - i,
    {
        out.push(commits[i].clone());
        assert(commits@.take(i + 1) == commits@.take(i as int).push(commits@[i as int]));
        i = i + 1;
    }
    assert(commits@.take(commits@.len() as int) == commits@);
    out
}

/// What the monitor last read from the selected repository.
#[derive(Debug)]
pub struct RepoSnapshot {
    pub repo_path: String,
    pub current_branch: String,
    pub head_full_id: String,
    pub head_message: String,
    pub head_message_full: String,
    pub head_datetime: String,
    pub dirty: bool,
    pub status_porcelain: String,
    pub recent_commits: Vec<CommitInfo>,
    pub head_changed: bool,
    pub consecutive_update_failures: u32,
}

impl RepoSnapshot {
    /// Field-by-field equality, the commit list compared by its contents.
    pub open spec fn same_as(self, other: RepoSnapshot) -> bool {
        &&& self.repo_path == other.repo_path
        &&& self.current_branch == other.current_branch
        &&& self.head_full_id == other.head_full_id
        &&& self.head_message == other.head_message
        &&& self.head_message_full == other.head_message_full
        &&& self.head_datetime == other.head_datetime
        &&& self.dirty == other.dirty
        &&& self.status_porcelain == other.status_porcelain
        &&& self.recent_commits@ == other.recent_commits@
        &&& self.head_changed == other.head_changed
        &&& self.consecutive_update_failures == other.consecutive_update_failures
    }
}

impl Clone for RepoSnapshot {
    fn clone(&self) -> (res: Self)
        ensures
            res.same_as(*self),
    {
        RepoSnapshot {
            repo_path: self.repo_path.clone(),
            current_branch: self.current_branch.clone(),
            head_full_id: self.head_full_id.clone(),
            head_message: self.head_message.clone(),
            head_message_full: self.head_message_full.clone(),
            head_datetime: self.head_datetime.clone(),
            dirty: self.dirty,
            status_porcelain: self.status_porcelain.clone(),
            recent_commits: clone_commits(&self.recent_commits),
            head_changed: self.head_changed,
            consecutive_update_failures: self.consecutive_update_failures,
        }
    }
}

} // verus!
