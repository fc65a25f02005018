//! Watching the hand-over file through which another tool selects a repository.
//!
//! Once per second the window looks at the file; it reads it again only when its
//! location or modification time changed (or when asked to), and switches to the
//! repository it names only when that value changed and names a repository.
//! Repeated identical errors are logged once.
use crate::paths::same_path_spec;
use crate::text::{trim_spec, views};
use vstd::prelude::*;
use vstd::string::*;

verus! {

/// What the window remembers of the hand-over file between looks.
#[derive(Debug)]
pub struct ExternalPollState {
    /// The value last read (`Some(None)` when the file named nothing).
    pub last_value: Option<Option<String>>,
    pub last_path: Option<String>,
    /// The modification time last seen, in nanoseconds since the Unix epoch
    /// (`Some(None)` when the file did not exist).
    pub last_modified: Option<Option<u128>>,
    pub last_read_error: Option<String>,
}

/// Nothing remembered yet.
pub fn new_external_poll_state() -> (res: ExternalPollState)
    ensures
        res.last_value is None,
        res.last_path is None,
        res.last_modified is None,
        res.last_read_error is None,
{
    ExternalPollState { last_value: None, last_path: None, last_modified: None, last_read_error: None }
}

/// Whether it is time to look at the file: when asked to, or once the next look is due.
pub fn poll_due(force: bool, now_nanos: u128, next_poll_nanos: u128) -> (res: bool)
    ensures
        res == (force || now_nanos >= next_poll_nanos),
{
    force || now_nanos >= next_poll_nanos
}

/// Records an error met while looking at the file; returns `log_line` when the error
/// differs from the one last recorded, so that a repeated error is logged once.
pub fn record_poll_error(state: &mut ExternalPollState, error: String, log_line: String) -> (res: Option<String>)
    ensures
        final(state).last_read_error == Some(error),
        final(state).last_value == old(state).last_value,
        final(state).last_path == old(state).last_path,
        final(state).last_modified == old(state).last_modified,
        match old(state).last_read_error {
            Some(previous) => if previous@ == error@ {
                res is None
            } else {
                res == Some(log_line)
            },
            None => res == Some(log_line),
        },
{
    let should_log = match &state.last_read_error {
        Some(previous) => !(*previous == error),
        None => true,
    };
    state.last_read_error = Some(error);
    if should_log {
        Some(log_line)
    } else {
        None
    }
}

/// Whether the file must be read: when asked to, or when its location (compared as a
/// path) or modification time differs from the last look; the location and time are
/// then remembered.
pub fn poll_change_detected(
    state: &mut ExternalPollState,
    force: bool,
    path: &str,
    sep: char,
    modified: Option<u128>,
) -> (res: bool)
    ensures
        res == (force || match old(state).last_path {
            Some(p) => !same_path_spec(p@, path@, sep),
            None => true,
        } || old(state).last_modified != Some(modified)),
        res ==> (final(state).last_path matches Some(p) && p@ == path@),
        res ==> final(state).last_modified == Some(modified),
        !res ==> final(state).last_path == old(state).last_path && final(state).last_modified == old(
            state,
        ).last_modified,
        final(state).last_value == old(state).last_value,
        final(state).last_read_error == old(state).last_read_error,
{
    let path_changed = match &state.last_path {
        Some(previous) => !crate::paths::same_path(previous.as_str(), path, sep),
        None => true,
    };
    let modified_changed = match state.last_modified {
        Some(previous) => previous != modified,
        None => true,
    };
    if !force && !path_changed && !modified_changed {
        return false;
    }
    state.last_path = Some(crate::text::owned(path));
    state.last_modified = Some(modified);
    true
}

/// Whether two optional strings hold the same text.
pub open spec fn same_opt_text(a: Option<String>, b: Option<String>) -> bool {
    crate::config::opt_view(a) == crate::config::opt_view(b)
}

fn opt_text_eq(a: &Option<String>, b: &Option<String>) -> (res: bool)
    ensures
        res == same_opt_text(*a, *b),
{
    match (a, b) {
        (Some(x), Some(y)) => *x == *y,
        (None, None) => true,
        _ => false,
    }
}

/// Takes a value read from the file: when it differs from the value last read it is
/// remembered and, when it names something, that name is returned trimmed.
pub fn accept_external_value(state: &mut ExternalPollState, value: Option<String>) -> (res: Option<String>)
    ensures
        final(state).last_read_error is None,
        final(state).last_path == old(state).last_path,
        final(state).last_modified == old(state).last_modified,
        match old(state).last_value {
            Some(previous) => same_opt_text(previous, value),
            None => false,
        } ==> res is None && final(state).last_value == old(state).last_value,
        !match old(state).last_value {
            Some(previous) => same_opt_text(previous, value),
            None => false,
        } ==> final(state).last_value == Some(value) && match value {
            Some(v) => (res matches Some(c) && c@ == trim_spec(v@)),
            None => res is None,
        },
{
    state.last_read_error = None;
    let unchanged = match &state.last_value {
        Some(previous) => opt_text_eq(previous, &value),
        None => false,
    };
    if unchanged {
        return None;
    }
    let candidate = match &value {
        Some(v) => Some(crate::text::trim(v.as_str())),
        None => None,
    };
    state.last_value = Some(value);
    candidate
}

/// What the window does with a repository named in the file.
#[derive(Debug)]
pub enum ExternalSelection {
    /// The name is not a repository; the line to log.
    Ignore(String),
    /// It is the repository already selected.
    Unchanged,
    /// Select it; the line to log.
    Select(String),
}

/// Decides on a repository named in the file, given whether it is a directory holding
/// a repository and which repository is selected (paths compared as `Path` compares
/// them, on a platform whose separator is `sep`).
pub fn external_selection_decision(candidate: &str, is_repository: bool, selected: &Option<String>, sep: char) -> (res: ExternalSelection)
    ensures
        !is_repository ==> (res matches ExternalSelection::Ignore(l) && l@ == "外部選択ファイルの値を無視しました: "@
            + candidate@),
        is_repository && (selected matches Some(s) && same_path_spec(s@, candidate@, sep)) ==> res is Unchanged,
        is_repository && !(selected matches Some(s) && same_path_spec(s@, candidate@, sep)) ==> (res matches ExternalSelection::Select(l)
            && l@ == "外部選択ファイルの変更を反映: "@ + candidate@),
{
    if !is_repository {
        let mut m = crate::text::owned("外部選択ファイルの値を無視しました: ");
        m.append(candidate);
        return ExternalSelection::Ignore(m);
    }
    let same = match selected {
        Some(s) => crate::paths::same_path(s.as_str(), candidate, sep),
        None => false,
    };
    if same {
        return ExternalSelection::Unchanged;
    }
    let mut m = crate::text::owned("外部選択ファイルの変更を反映: ");
    m.append(candidate);
    ExternalSelection::Select(m)
}

} // verus!
