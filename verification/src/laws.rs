//! Properties that hold across the library's functions, stated over the same
//! specifications that the functions' contracts use.
use crate::config::{
    apply_partial_spec, external_contents_spec, extract_partial_spec, json_document, json_lookup,
    load_external_spec, load_settings_spec, normalize_external_spec, normalize_spec, opt_view,
    runtime_override_path_spec, ExternalFileProbe, JsonDocument, JsonValue, PartialSettings,
    EXTERNAL_SELECTED_REPO_FILE,
};
use crate::models::{interval_in_range, ScanScope, Settings};
use crate::git::{
    commit_from_record, commits_from_records_spec, commits_result_view, fetched_from, parse_records_spec, git_args_spec, needs_commit_listing, opt_text_view,
    recent_commits_spec, snapshot_assembled, snapshot_outcome, GitCommand, GitOutput,
};
use crate::material::{detailed_text_spec, DetailedMaterial};
use crate::models::{CommitInfo, CommitView};
use crate::models::RepoSnapshot;
use crate::monitor::{
    interval_spec, recorded, stepped, MonitorCommand, MonitorEvent, WorkerAction, WorkerInput,
    WorkerState,
};
use crate::paths::{is_separator, parent_prefix_len, with_file_name_spec};
use crate::text::{join_spec, trim_end_char_spec, trim_end_spec, trim_spec, trim_start_spec, white_space};
use crate::view_state::{
    confirm_state_spec, display_row_count_spec, normalize_newlines_spec, push_log_spec,
    LOG_CAPACITY,
};
use vstd::prelude::*;
use vstd::string::*;

verus! {

/// After normalization the update interval is always an accepted one, an accepted
/// interval is left as it was, and normalizing twice changes nothing more.
pub proof fn law_normalize_interval(settings: Settings)
    ensures
        interval_in_range(normalize_spec(settings).update_interval_sec),
        interval_in_range(settings.update_interval_sec) ==> normalize_spec(settings)
            == settings,
        normalize_spec(normalize_spec(settings)) == normalize_spec(settings),
{
}

/// A value that the override file supplies replaces the default file's; a key that the
/// override file does not supply keeps the default file's value.
pub proof fn law_override_precedence(base: Settings, from_default: PartialSettings, from_override: PartialSettings)
    ensures
        ({
            let merged = apply_partial_spec(apply_partial_spec(base, from_default), from_override);
            &&& merged.schema_version == match from_override.schema_version {
                Some(v) => v,
                None => match from_default.schema_version {
                    Some(v) => v,
                    None => base.schema_version,
                },
            }
            &&& merged.root_folder_path == match from_override.root_folder_path {
                Some(v) => v,
                None => match from_default.root_folder_path {
                    Some(v) => v,
                    None => base.root_folder_path,
                },
            }
            &&& merged.scan_scope == match from_override.scan_scope {
                Some(v) => v,
                None => match from_default.scan_scope {
                    Some(v) => v,
                    None => base.scan_scope,
                },
            }
            &&& merged.update_interval_sec == match from_override.update_interval_sec {
                Some(v) => v,
                None => match from_default.update_interval_sec {
                    Some(v) => v,
                    None => base.update_interval_sec,
                },
            }
            &&& merged.selected_repo_path == match from_override.selected_repo_path {
                Some(v) => v,
                None => match from_default.selected_repo_path {
                    Some(v) => v,
                    None => base.selected_repo_path,
                },
            }
        }),
{
}

/// The JSON value under which a settings document stores an optional path.
pub open spec fn nullable_text(v: Option<String>) -> JsonValue {
    match v {
        Some(t) => JsonValue::Text(t),
        None => JsonValue::Null,
    }
}

/// A settings document that holds every value of `settings`, each as the settings file
/// stores it, is read back as exactly those settings, whatever they are applied to, and
/// nothing is logged.
pub proof fn law_complete_document_read_back(
    entries: Seq<(String, JsonValue)>,
    settings: Settings,
    base: Settings,
    source: Seq<char>,
    strict: bool,
)
    requires
        json_lookup(entries, "schema_version"@) == Some(
            JsonValue::Number(Some(settings.schema_version as u64)),
        ),
        json_lookup(entries, "root_folder_path"@) == Some(nullable_text(settings.root_folder_path)),
        json_lookup(entries, "scan_scope"@) matches Some(JsonValue::Text(t)) && t@ == match settings.scan_scope {
            ScanScope::Direct => "direct"@,
            ScanScope::Depth2 => "depth2"@,
        },
        json_lookup(entries, "update_interval_sec"@) == Some(
            JsonValue::Number(Some(settings.update_interval_sec)),
        ),
        json_lookup(entries, "selected_repo_path"@) == Some(
            nullable_text(settings.selected_repo_path),
        ),
        interval_in_range(settings.update_interval_sec),
    ensures
        extract_partial_spec(entries, source, strict).1.len() == 0,
        apply_partial_spec(base, extract_partial_spec(entries, source, strict).0) == settings,
{
    reveal_strlit("direct");
    reveal_strlit("depth2");
    assert((settings.schema_version as u64) as u32 == settings.schema_version);
    if let Some(JsonValue::Text(t)) = json_lookup(entries, "scan_scope"@) {
        match settings.scan_scope {
            ScanScope::Direct => assert(t@ == "direct"@),
            ScanScope::Depth2 => {
                assert(t@ == "depth2"@);
                assert(t@[1] != "direct"@[1]);
            },
        }
    }
}

/// An override file that holds a complete, valid settings document decides the settings
/// read at start-up, whatever the default file holds or whether it could be read.
pub proof fn law_override_document_decides(
    project_root: Seq<char>,
    sep: char,
    default_read: Result<Seq<char>, Seq<char>>,
    override_path: Seq<char>,
    text: Seq<char>,
    entries: Seq<(String, JsonValue)>,
    settings: Settings,
)
    requires
        json_document(text) matches JsonDocument::Object(members) && members@ == entries,
        json_lookup(entries, "schema_version"@) == Some(
            JsonValue::Number(Some(settings.schema_version as u64)),
        ),
        json_lookup(entries, "root_folder_path"@) == Some(nullable_text(settings.root_folder_path)),
        json_lookup(entries, "scan_scope"@) matches Some(JsonValue::Text(t)) && t@ == match settings.scan_scope {
            ScanScope::Direct => "direct"@,
            ScanScope::Depth2 => "depth2"@,
        },
        json_lookup(entries, "update_interval_sec"@) == Some(
            JsonValue::Number(Some(settings.update_interval_sec)),
        ),
        json_lookup(entries, "selected_repo_path"@) == Some(
            nullable_text(settings.selected_repo_path),
        ),
        interval_in_range(settings.update_interval_sec),
    ensures
        load_settings_spec(
            project_root,
            sep,
            default_read,
            Ok(override_path),
            Some(Ok(text)),
        ).0 == settings,
{
    let source = "override("@ + override_path + ")"@;
    let default_source = "default("@ + crate::config::default_settings_path_spec(project_root, sep) + ")"@;
    let after_default = apply_partial_spec(
        crate::models::default_settings(),
        crate::config::parse_partial_spec(default_read, default_source, true).0,
    );
    law_complete_document_read_back(entries, settings, after_default, source, false);
}

/// What the hand-over file is written with for a selection is read back as that
/// selection, trimmed; writing no selection reads back as none.
pub proof fn law_external_selection_round_trip(path: Seq<char>, selected: Option<String>, contents: String)
    requires
        contents@ == external_contents_spec(opt_view(selected)),
    ensures
        load_external_spec(path, ExternalFileProbe::Read(contents)) == Ok::<Option<Seq<char>>, Seq<char>>(
            match opt_view(selected) {
                Some(p) => normalize_external_spec(p),
                None => None,
            },
        ),
        selected is None ==> load_external_spec(path, ExternalFileProbe::Read(contents)) == Ok::<
            Option<Seq<char>>,
            Seq<char>,
        >(None),
{
    if selected is None {
        assert(contents@ == Seq::<char>::empty());
        assert(trim_spec(contents@) == Seq::<char>::empty());
    }
}

proof fn lemma_trim_start_shape(s: Seq<char>)
    ensures
        trim_start_spec(s).len() == 0 || !white_space(trim_start_spec(s)[0]),
        exists|k: int| 0 <= k <= s.len() && trim_start_spec(s) == s.skip(k),
    decreases s.len(),
{
    if s.len() > 0 && white_space(s[0]) {
        lemma_trim_start_shape(s.drop_first());
        let k = choose|k: int| 0 <= k <= s.drop_first().len() && trim_start_spec(s.drop_first()) == s.drop_first().skip(k);
        assert(s.drop_first().skip(k) == s.skip(k + 1));
    } else {
        assert(s.skip(0) == s);
    }
}

proof fn lemma_trim_end_shape(s: Seq<char>)
    ensures
        trim_end_spec(s).len() == 0 || !white_space(trim_end_spec(s).last()),
        exists|k: int| 0 <= k <= s.len() && trim_end_spec(s) == s.take(k),
    decreases s.len(),
{
    if s.len() > 0 && white_space(s.last()) {
        lemma_trim_end_shape(s.drop_last());
        let k = choose|k: int| 0 <= k <= s.drop_last().len() && trim_end_spec(s.drop_last()) == s.drop_last().take(k);
        assert(s.drop_last().take(k) == s.take(k));
    } else {
        assert(s.take(s.len() as int) == s);
    }
}

proof fn lemma_trim_shape(s: Seq<char>)
    ensures
        trim_spec(s).len() == 0 || (!white_space(trim_spec(s)[0]) && !white_space(
            trim_spec(s).last(),
        )),
{
    let t = trim_start_spec(s);
    lemma_trim_start_shape(s);
    lemma_trim_end_shape(t);
    let k = choose|k: int| 0 <= k <= t.len() && trim_end_spec(t) == t.take(k);
    if trim_spec(s).len() > 0 {
        assert(trim_spec(s)[0] == t[0]);
    }
}

/// Trimming leaves nothing to trim: a trimmed text is its own trim.
pub proof fn law_trim_idempotent(s: Seq<char>)
    ensures
        trim_spec(trim_spec(s)) == trim_spec(s),
{
    let t = trim_spec(s);
    lemma_trim_shape(s);
    assert(trim_start_spec(t) == t);
    assert(trim_end_spec(t) == t);
}

/// The hand-over file yields a repository exactly when it holds more than whitespace,
/// and the name it yields is its own normalization.
pub proof fn law_external_value_normalized(contents: Seq<char>)
    ensures
        normalize_external_spec(contents) is None <==> trim_spec(contents).len() == 0,
        normalize_external_spec(contents) matches Some(v) ==> normalize_external_spec(v) == Some(
            v,
        ),
{
    law_trim_idempotent(contents);
}

/// A full commit message, once its trailing newlines are removed, ends in something
/// else and loses nothing more when trimmed again.
pub proof fn law_message_tail_trimmed(s: Seq<char>)
    ensures
        trim_end_char_spec(s, '\n').len() == 0 || trim_end_char_spec(s, '\n').last() != '\n',
        trim_end_char_spec(trim_end_char_spec(s, '\n'), '\n') == trim_end_char_spec(s, '\n'),
        trim_end_char_spec(s, '\n').len() <= s.len(),
    decreases s.len(),
{
    if s.len() > 0 && s.last() == '\n' {
        law_message_tail_trimmed(s.drop_last());
    }
}

/// Whether `s` holds no carriage return.
pub open spec fn no_carriage_return(s: Seq<char>) -> bool {
    forall|i: int| 0 <= i < s.len() ==> s[i] != '\r'
}

proof fn lemma_normalize_without_cr(s: Seq<char>)
    requires
        no_carriage_return(s),
    ensures
        normalize_newlines_spec(s) == s,
    decreases s.len(),
{
    if s.len() > 0 {
        lemma_normalize_without_cr(s.drop_first());
        assert(seq![s[0]] + s.drop_first() == s);
    }
}

proof fn lemma_normalize_removes_cr(s: Seq<char>)
    ensures
        no_carriage_return(normalize_newlines_spec(s)),
    decreases s.len(),
{
    if s.len() > 0 {
        if s[0] == '\r' {
            if s.len() > 1 && s[1] == '\n' {
                lemma_normalize_removes_cr(s.skip(2));
            } else {
                lemma_normalize_removes_cr(s.drop_first());
            }
        } else {
            lemma_normalize_removes_cr(s.drop_first());
        }
    }
}

/// Normalized commit messages hold no carriage return, a message without one is left
/// as it is, and normalizing twice changes nothing more.
pub proof fn law_newlines_normalized(message: Seq<char>)
    ensures
        no_carriage_return(normalize_newlines_spec(message)),
        no_carriage_return(message) ==> normalize_newlines_spec(message) == message,
        normalize_newlines_spec(normalize_newlines_spec(message)) == normalize_newlines_spec(
            message,
        ),
{
    lemma_normalize_removes_cr(message);
    if no_carriage_return(message) {
        lemma_normalize_without_cr(message);
    }
    lemma_normalize_without_cr(normalize_newlines_spec(message));
}

/// The commit table shows at least `visible_rows` rows, and at most 50 (or
/// `visible_rows` when that is more); every listed commit up to 50 gets a row.
pub proof fn law_display_rows(commit_count: usize, visible_rows: usize)
    ensures
        display_row_count_spec(commit_count, visible_rows) >= visible_rows,
        display_row_count_spec(commit_count, visible_rows) <= if visible_rows > 50 {
            visible_rows
        } else {
            50
        },
        display_row_count_spec(commit_count, visible_rows) >= if commit_count < 50 {
            commit_count
        } else {
            50
        },
{
}

/// A history action can be confirmed exactly once 800 ms have passed since the
/// countdown's deadline; before the deadline the countdown shows a number.
pub proof fn law_confirmation_after_deadline(deadline_nanos: u128, now_nanos: u128)
    ensures
        confirm_state_spec(deadline_nanos, now_nanos).1 <==> now_nanos >= deadline_nanos
            && now_nanos - deadline_nanos >= 800_000_000,
{
}

/// The log keeps at most 400 lines, the newest line last.
pub proof fn law_log_capacity(logs: Seq<Seq<char>>, message: Seq<char>)
    requires
        logs.len() <= LOG_CAPACITY,
    ensures
        push_log_spec(logs, message).len() <= LOG_CAPACITY,
        push_log_spec(logs, message).last() == message,
        logs.len() < LOG_CAPACITY ==> push_log_spec(logs, message) == logs.push(message),
{
}

/// The monitor's interval is always within `1..=3600` seconds, and clamping an
/// accepted interval leaves it as it was.
pub proof fn law_interval_clamped(seconds: u64)
    ensures
        1 <= interval_spec(seconds) <= 3600,
        interval_spec(interval_spec(seconds)) == interval_spec(seconds),
        1 <= seconds <= 3600 ==> interval_spec(seconds) == seconds,
{
}

proof fn lemma_parent_prefix_ends_in_separator(path: Seq<char>, sep: char)
    ensures
        parent_prefix_len(path, sep) <= path.len(),
        parent_prefix_len(path, sep) == 0 || is_separator(
            path[parent_prefix_len(path, sep) - 1],
            sep,
        ),
    decreases path.len(),
{
    if path.len() > 0 && !is_separator(path.last(), sep) {
        lemma_parent_prefix_ends_in_separator(path.drop_last(), sep);
    }
}

proof fn lemma_parent_prefix_of_appended(prefix: Seq<char>, name: Seq<char>, sep: char)
    requires
        prefix.len() == 0 || is_separator(prefix.last(), sep),
        forall|i: int| 0 <= i < name.len() ==> !is_separator(#[trigger] name[i], sep),
    ensures
        parent_prefix_len(prefix + name, sep) == prefix.len(),
    decreases name.len(),
{
    if name.len() == 0 {
        assert(prefix + name == prefix);
        if prefix.len() > 0 {
            assert(is_separator(prefix.last(), sep));
        }
    } else {
        assert((prefix + name).drop_last() == prefix + name.drop_last());
        assert((prefix + name).last() == name.last());
        assert(!is_separator(name[name.len() - 1], sep));
        lemma_parent_prefix_of_appended(prefix, name.drop_last(), sep);
    }
}

/// The hand-over file lies in the directory of the override settings file: both
/// paths share the text up to their last separator, and the hand-over file's own name
/// follows it (on a platform whose separator does not occur in that name).
pub proof fn law_external_file_beside_override(appdata: Option<Seq<char>>, home: Option<Seq<char>>, sep: char)
    requires
        forall|i: int|
            0 <= i < EXTERNAL_SELECTED_REPO_FILE@.len() ==> #[trigger] EXTERNAL_SELECTED_REPO_FILE@[i]
                != sep,
    ensures
        runtime_override_path_spec(appdata, home, sep) matches Ok(p) ==> ({
            let e = with_file_name_spec(p, EXTERNAL_SELECTED_REPO_FILE@, sep);
            &&& e.take(parent_prefix_len(e, sep) as int) == p.take(parent_prefix_len(p, sep) as int)
            &&& e.skip(parent_prefix_len(e, sep) as int) == EXTERNAL_SELECTED_REPO_FILE@
        }),
{
    reveal_strlit("selected_repo_path.txt");
    if let Ok(p) = runtime_override_path_spec(appdata, home, sep) {
        let name = EXTERNAL_SELECTED_REPO_FILE@;
        lemma_parent_prefix_ends_in_separator(p, sep);
        let prefix = p.take(parent_prefix_len(p, sep) as int);
        assert forall|i: int| 0 <= i < name.len() implies !is_separator(#[trigger] name[i], sep) by {
            assert(name[i] != sep);
        }
        if prefix.len() > 0 {
            assert(prefix.last() == p[parent_prefix_len(p, sep) - 1]);
        }
        lemma_parent_prefix_of_appended(prefix, name, sep);
        let e = prefix + name;
        assert(e.take(prefix.len() as int) == prefix);
        assert(e.skip(prefix.len() as int) == name);
    }
}

/// A manual refresh forgets the kept commit list, so the read that follows lists the
/// commits again, whatever commit is checked out.
pub proof fn law_manual_refresh_relists(
    before: WorkerState,
    after: WorkerState,
    action: WorkerAction,
    head_full_id: Seq<char>,
)
    requires
        stepped(before, WorkerInput::Command(MonitorCommand::ManualRefresh), after, action),
    ensures
        action == WorkerAction::Refresh,
        needs_commit_listing(
            opt_text_view(after.previous_head),
            after.previous_commits@.len(),
            head_full_id,
        ),
{
}

/// Selecting a repository and reading it: the read is of the selected repository, a
/// failure there is reported as the first in a row, and a success leaves no failure
/// counted.
pub proof fn law_select_then_refresh(
    before: WorkerState,
    path: String,
    selected: WorkerState,
    action: WorkerAction,
    after: WorkerState,
    fetched: Result<RepoSnapshot, String>,
    event: MonitorEvent,
)
    requires
        before.wf(),
        stepped(before, WorkerInput::Command(MonitorCommand::SetRepo(path)), selected, action),
        recorded(selected, after, fetched, event),
    ensures
        action == WorkerAction::Refresh,
        after.repo_path == Some(path),
        fetched is Err ==> after.consecutive_failures == 1 && (event matches MonitorEvent::Error {
            consecutive_failures: n,
            ..
        } && n == 1),
        fetched is Ok ==> after.consecutive_failures == 0 && event is Snapshot,
{
}

proof fn lemma_trim_start_blank(s: Seq<char>)
    ensures
        trim_start_spec(s).len() == 0 <==> forall|i: int| 0 <= i < s.len() ==> white_space(#[trigger] s[i]),
    decreases s.len(),
{
    if s.len() > 0 {
        lemma_trim_start_blank(s.drop_first());
        if white_space(s[0]) {
            assert forall|i: int| 0 <= i < s.len() && (forall|j: int| 0 <= j < s.drop_first().len() ==> white_space(#[trigger] s.drop_first()[j])) implies white_space(#[trigger] s[i]) by {
                if i > 0 {
                    assert(s[i] == s.drop_first()[i - 1]);
                }
            }
            assert((forall|i: int| 0 <= i < s.len() ==> white_space(#[trigger] s[i])) ==> (forall|j: int| 0 <= j < s.drop_first().len() ==> white_space(#[trigger] s.drop_first()[j]))) by {
                assert forall|j: int| (forall|i: int| 0 <= i < s.len() ==> white_space(#[trigger] s[i])) && 0 <= j < s.drop_first().len() implies white_space(#[trigger] s.drop_first()[j]) by {
                    assert(s.drop_first()[j] == s[j + 1]);
                }
            }
        }
    }
}

proof fn lemma_trim_end_keeps_first(t: Seq<char>)
    requires
        t.len() > 0,
        !white_space(t[0]),
    ensures
        trim_end_spec(t).len() > 0,
    decreases t.len(),
{
    if t.len() > 1 && white_space(t.last()) {
        lemma_trim_end_keeps_first(t.drop_last());
    }
}

proof fn lemma_trim_blank(s: Seq<char>)
    ensures
        trim_spec(s).len() == 0 <==> forall|i: int| 0 <= i < s.len() ==> white_space(#[trigger] s[i]),
{
    lemma_trim_start_blank(s);
    lemma_trim_start_shape(s);
    let t = trim_start_spec(s);
    if t.len() > 0 {
        lemma_trim_end_keeps_first(t);
    }
}

/// A snapshot marks the working tree dirty exactly when the status output holds a
/// character other than whitespace (for instance one line ` M a.rs`): an uncommitted
/// change is never taken for a clean tree, however few lines the status has.
pub proof fn law_dirty_when_status_has_content<R: Fn(GitCommand) -> Result<GitOutput, String>>(
    run: R,
    repo_path: Seq<char>,
    previous_head: Option<Seq<char>>,
    previous_commits: Seq<CommitInfo>,
    now: i64,
    snap: RepoSnapshot,
)
    requires
        fetched_from(run, repo_path, previous_head, previous_commits, now, Ok(snap)),
    ensures
        snap.dirty == exists|i: int|
            0 <= i < snap.status_porcelain@.len() && !white_space(#[trigger] snap.status_porcelain@[i]),
{
    let (bl, hl, sl, ll, ml, el, il) = choose|
        bl: Result<GitOutput, String>,
        hl: Result<GitOutput, String>,
        sl: Result<GitOutput, String>,
        ll: Result<GitOutput, String>,
        ml: Result<GitOutput, String>,
        el: Result<GitOutput, String>,
        il: Result<GitOutput, String>,
    |
        snapshot_outcome(Ok(snap), repo_path, previous_head, previous_commits, now, bl, hl, sl, ll, ml, el, il);
    assert(snapshot_outcome(Ok(snap), repo_path, previous_head, previous_commits, now, bl, hl, sl, ll, ml, el, il));
    assert(snap.dirty == (trim_spec(snap.status_porcelain@).len() != 0));
    lemma_trim_blank(snap.status_porcelain@);
}

/// Whether a listed row marks `main` as the original table does: `in_main_history`
/// exactly when the trimmed hash is among `main`'s commits, `M` exactly when it is
/// `main`'s tip, and never a row without a hash.
pub open spec fn marked_against_main(
    c: CommitView,
    main_head: Option<Seq<char>>,
    main_commit_ids: Option<Seq<Seq<char>>>,
) -> bool {
    &&& c.in_main_history == (main_commit_ids matches Some(ids) && ids.contains(trim_spec(c.full_id)))
    &&& c.scope_mark == (if main_head matches Some(m) && trim_spec(m) == trim_spec(c.full_id) {
        seq!['M']
    } else {
        Seq::<char>::empty()
    })
    &&& trim_spec(c.full_id).len() > 0
}

proof fn lemma_rows_marked(
    records: Seq<Seq<Seq<char>>>,
    main_head: Option<Seq<char>>,
    main_commit_ids: Option<Seq<Seq<char>>>,
    now: i64,
)
    ensures
        forall|k: int|
            0 <= k < commits_from_records_spec(records, main_head, main_commit_ids, now).len()
                ==> marked_against_main(
                #[trigger] commits_from_records_spec(records, main_head, main_commit_ids, now)[k],
                main_head,
                main_commit_ids,
            ),
    decreases records.len(),
{
    reveal_strlit("M");
    assert("M"@ =~= seq!['M']);
    if records.len() > 0 {
        lemma_rows_marked(records.drop_last(), main_head, main_commit_ids, now);
        let prev = commits_from_records_spec(records.drop_last(), main_head, main_commit_ids, now);
        let cs = commits_from_records_spec(records, main_head, main_commit_ids, now);
        if trim_spec(records.last()[0]).len() != 0 {
            let c = commit_from_record(records.last(), main_head, main_commit_ids, now);
            assert(cs == prev.push(c));
            assert(marked_against_main(c, main_head, main_commit_ids));
            assert forall|k: int| 0 <= k < cs.len() implies marked_against_main(
                #[trigger] cs[k],
                main_head,
                main_commit_ids,
            ) by {
                if k < prev.len() {
                    assert(cs[k] == prev[k]);
                }
            }
        } else {
            assert(cs == prev);
        }
    }
}

/// Every row listed from the log is marked against `main` by its own hash: a commit
/// that `main` reaches is marked as `main` history whether or not it is `main`'s tip,
/// and only the tip carries `M`.
pub proof fn law_rows_marked_against_main(
    log: Seq<u8>,
    main_head: Option<Seq<char>>,
    main_commit_ids: Option<Seq<Seq<char>>>,
    now: i64,
    commits: Vec<CommitInfo>,
)
    requires
        commits_result_view(Ok(commits)) == recent_commits_spec(log, main_head, main_commit_ids, now),
    ensures
        forall|k: int|
            #![trigger commits@[k]]
            0 <= k < commits@.len() ==> {
                &&& commits@[k].in_main_history == (main_commit_ids matches Some(ids) && ids.contains(
                    trim_spec(commits@[k].full_id@),
                ))
                &&& commits@[k].scope_mark@ == (if main_head matches Some(m) && trim_spec(m) == trim_spec(
                    commits@[k].full_id@,
                ) {
                    seq!['M']
                } else {
                    Seq::<char>::empty()
                })
                &&& trim_spec(commits@[k].full_id@).len() > 0
            },
{
    let records = parse_records_spec(log, 5)->Ok_0;
    lemma_rows_marked(records, main_head, main_commit_ids, now);
    let cs = commits_from_records_spec(records, main_head, main_commit_ids, now);
    assert forall|k: int| #![trigger commits@[k]] 0 <= k < commits@.len() implies {
        &&& commits@[k].in_main_history == (main_commit_ids matches Some(ids) && ids.contains(
            trim_spec(commits@[k].full_id@),
        ))
        &&& commits@[k].scope_mark@ == (if main_head matches Some(m) && trim_spec(m) == trim_spec(
            commits@[k].full_id@,
        ) {
            seq!['M']
        } else {
            Seq::<char>::empty()
        })
        &&& trim_spec(commits@[k].full_id@).len() > 0
    } by {
        assert(crate::models::commit_views(commits@)[k] == commits@[k]@);
        assert(marked_against_main(cs[k], main_head, main_commit_ids));
    }
}

proof fn lemma_join_step(parts: Seq<Seq<char>>, k: int, sep: Seq<char>)
    requires
        2 <= k <= parts.len(),
    ensures
        join_spec(parts.take(k), sep) == join_spec(parts.take(k - 1), sep) + sep + parts[k - 1],
{
    assert(parts.take(k).drop_last() == parts.take(k - 1));
    assert(parts.take(k).last() == parts[k - 1]);
}

/// The detailed text ends with the git sections in their order, each label followed on
/// the next line by the material's own value for it: the status, the unstaged diff,
/// the staged diff, then the diff from the target to `HEAD`.
#[verifier::spinoff_prover]
#[verifier::rlimit(40)]
pub proof fn law_detailed_text_sections(d: DetailedMaterial)
    ensures
        exists|prefix: Seq<char>|
            detailed_text_spec(d) == prefix + "\n"@ + "git_status:"@ + "\n"@ + d.git_status@
                + "\n"@ + "git_diff_unstaged:"@ + "\n"@ + d.git_diff_unstaged@ + "\n"@
                + "git_diff_staged:"@ + "\n"@ + d.git_diff_staged@ + "\n"@
                + "git_diff_target_to_head:"@ + "\n"@ + d.git_diff_target_to_head@,
{
    let nl = "\n"@;
    let head = seq![
        crate::material::minimal_text_spec(d.minimal),
        "omitted_due_to_size: "@ + crate::text::bool_text(d.omitted_due_to_size),
        "changed_file_count: "@ + crate::text::decimal_spec(d.changed_file_count as nat),
        "changed_files:"@,
    ];
    let files = crate::material::file_lines(crate::text::views(d.changed_files@));
    let tail = seq![
        "git_status:"@,
        d.git_status@,
        "git_diff_unstaged:"@,
        d.git_diff_unstaged@,
        "git_diff_staged:"@,
        d.git_diff_staged@,
        "git_diff_target_to_head:"@,
        d.git_diff_target_to_head@,
    ];
    let parts = head + files + tail;
    let n = parts.len() as int;
    assert(files.len() >= 1);
    assert(parts.take(n) == parts);
    lemma_join_step(parts, n, nl);
    lemma_join_step(parts, n - 1, nl);
    lemma_join_step(parts, n - 2, nl);
    lemma_join_step(parts, n - 3, nl);
    lemma_join_step(parts, n - 4, nl);
    lemma_join_step(parts, n - 5, nl);
    lemma_join_step(parts, n - 6, nl);
    lemma_join_step(parts, n - 7, nl);
    assert(parts[n - 1] == d.git_diff_target_to_head@);
    assert(parts[n - 2] == "git_diff_target_to_head:"@);
    assert(parts[n - 3] == d.git_diff_staged@);
    assert(parts[n - 4] == "git_diff_staged:"@);
    assert(parts[n - 5] == d.git_diff_unstaged@);
    assert(parts[n - 6] == "git_diff_unstaged:"@);
    assert(parts[n - 7] == d.git_status@);
    assert(parts[n - 8] == "git_status:"@);
    let prefix = join_spec(parts.take(n - 8), nl);
    assert(detailed_text_spec(d) == prefix + nl + "git_status:"@ + nl + d.git_status@ + nl
        + "git_diff_unstaged:"@ + nl + d.git_diff_unstaged@ + nl + "git_diff_staged:"@ + nl
        + d.git_diff_staged@ + nl + "git_diff_target_to_head:"@ + nl + d.git_diff_target_to_head@);
}

/// What each `git` command asks for.  The reads of `HEAD` and of the last commit time
/// both stop after one commit (`log -1`), so a repository with many commits still
/// yields one record or one timestamp; the last commit time is asked for as `%ct`, the
/// Unix time that the time rendering parses; the message dialog asks `git show` for the
/// raw message `%B` of exactly the given commit, not its subject alone.
pub proof fn law_git_command_arguments(commit_id: String, max_count: usize)
    ensures
        git_args_spec(GitCommand::LastCommitTimestamp) == seq!["log"@, "-1"@, "--pretty=format:%ct"@],
        git_args_spec(GitCommand::LastCommitTimestamp).take(2) == git_args_spec(
            GitCommand::HeadInfo,
        ).take(2),
        git_args_spec(GitCommand::HeadInfo).len() == 3,
        git_args_spec(GitCommand::CommitMessage { commit_id }) == seq![
            "show"@,
            "-s"@,
            "--format=%B"@,
            commit_id@,
        ],
        git_args_spec(GitCommand::CurrentBranch) == seq!["rev-parse"@, "--abbrev-ref"@, "HEAD"@],
        git_args_spec(GitCommand::StatusPorcelain) == seq!["status"@, "--porcelain"@],
        git_args_spec(GitCommand::RecentLog { max_count }).take(4) == seq![
            "log"@,
            "--all"@,
            "-n"@,
            crate::text::decimal_spec(max_count as nat),
        ],
        git_args_spec(GitCommand::MainBranchHead) == seq!["rev-parse"@, "--verify"@, "refs/heads/main"@],
        git_args_spec(GitCommand::MainBranchExists) == seq![
            "show-ref"@,
            "--verify"@,
            "--quiet"@,
            "refs/heads/main"@,
        ],
        git_args_spec(GitCommand::MainHistory) == seq!["rev-list"@, "main"@],
{
    assert(git_args_spec(GitCommand::LastCommitTimestamp).take(2) =~= seq!["log"@, "-1"@]);
    assert(git_args_spec(GitCommand::HeadInfo).take(2) =~= seq!["log"@, "-1"@]);
    assert(git_args_spec(GitCommand::RecentLog { max_count }).take(4) =~= seq![
        "log"@,
        "--all"@,
        "-n"@,
        crate::text::decimal_spec(max_count as nat),
    ]);
}

/// Whether row `c` shows record `r` (hash, short hash, commit time, subject, message):
/// its own hash, short hash and subject, its message without the trailing newlines, and
/// its commit time as rendered against `now`.
pub open spec fn row_shows_record(c: CommitView, r: Seq<Seq<char>>, now: i64) -> bool {
    &&& c.full_id == r[0]
    &&& c.short_id == r[1]
    &&& c.subject == r[3]
    &&& c.body_full == trim_end_char_spec(r[4], '\n')
    &&& c.datetime == crate::timefmt::display_or_fallback_spec(r[2], now)
}

proof fn lemma_rows_from_records(
    records: Seq<Seq<Seq<char>>>,
    main_head: Option<Seq<char>>,
    main_commit_ids: Option<Seq<Seq<char>>>,
    now: i64,
)
    ensures
        forall|k: int|
            0 <= k < commits_from_records_spec(records, main_head, main_commit_ids, now).len()
                ==> exists|j: int|
                0 <= j < records.len() && row_shows_record(
                    #[trigger] commits_from_records_spec(records, main_head, main_commit_ids, now)[k],
                    records[j],
                    now,
                ),
    decreases records.len(),
{
    if records.len() > 0 {
        let pre = records.drop_last();
        lemma_rows_from_records(pre, main_head, main_commit_ids, now);
        let prev = commits_from_records_spec(pre, main_head, main_commit_ids, now);
        let cs = commits_from_records_spec(records, main_head, main_commit_ids, now);
        if trim_spec(records.last()[0]).len() != 0 {
            let c = commit_from_record(records.last(), main_head, main_commit_ids, now);
            assert(cs == prev.push(c));
            assert forall|k: int| 0 <= k < cs.len() implies exists|j: int|
                0 <= j < records.len() && row_shows_record(#[trigger] cs[k], records[j], now) by {
                if k < prev.len() {
                    assert(cs[k] == prev[k]);
                    let j = choose|j: int| 0 <= j < pre.len() && row_shows_record(prev[k], pre[j], now);
                    assert(records[j] == pre[j]);
                } else {
                    assert(row_shows_record(cs[k], records[records.len() - 1], now));
                }
            }
        } else {
            assert(cs == prev);
            assert forall|k: int| 0 <= k < cs.len() implies exists|j: int|
                0 <= j < records.len() && row_shows_record(#[trigger] cs[k], records[j], now) by {
                let j = choose|j: int| 0 <= j < pre.len() && row_shows_record(prev[k], pre[j], now);
                assert(records[j] == pre[j]);
            }
        }
    }
}

/// Every row listed from the log shows one record of that log as it was written: its
/// hash, short hash and subject, its full message without the trailing newlines, and its
/// commit time rendered against `now`.
pub proof fn law_rows_show_log_records(
    log: Seq<u8>,
    main_head: Option<Seq<char>>,
    main_commit_ids: Option<Seq<Seq<char>>>,
    now: i64,
    commits: Vec<CommitInfo>,
)
    requires
        commits_result_view(Ok(commits)) == recent_commits_spec(log, main_head, main_commit_ids, now),
    ensures
        parse_records_spec(log, 5) is Ok,
        forall|k: int|
            #![trigger commits@[k]]
            0 <= k < commits@.len() ==> exists|j: int|
                0 <= j < parse_records_spec(log, 5)->Ok_0.len() && row_shows_record(
                    commits@[k]@,
                    parse_records_spec(log, 5)->Ok_0[j],
                    now,
                ),
{
    let records = parse_records_spec(log, 5)->Ok_0;
    lemma_rows_from_records(records, main_head, main_commit_ids, now);
    let cs = commits_from_records_spec(records, main_head, main_commit_ids, now);
    assert forall|k: int| #![trigger commits@[k]] 0 <= k < commits@.len() implies exists|j: int|
        0 <= j < records.len() && row_shows_record(commits@[k]@, records[j], now) by {
        assert(crate::models::commit_views(commits@)[k] == commits@[k]@);
        assert(cs[k] == commits@[k]@);
    }
}

proof fn lemma_join_prefix(parts: Seq<Seq<char>>, k: int, sep: Seq<char>) -> (rest: Seq<char>)
    requires
        1 <= k <= parts.len(),
    ensures
        join_spec(parts, sep) == join_spec(parts.take(k), sep) + rest,
    decreases parts.len() - k,
{
    if k == parts.len() {
        assert(parts.take(k) == parts);
        assert(join_spec(parts, sep) == join_spec(parts.take(k), sep) + Seq::<char>::empty());
        Seq::empty()
    } else {
        let rest = lemma_join_prefix(parts, k + 1, sep);
        lemma_join_step(parts, k + 1, sep);
        assert(join_spec(parts, sep) == join_spec(parts.take(k), sep) + (sep + parts[k] + rest));
        sep + parts[k] + rest
    }
}

/// The header lines of the minimal material: one `label: value` line per summary field,
/// in order, then the status under its label, then the label of the commit list.
pub open spec fn minimal_header(m: crate::material::MinimalMaterial) -> Seq<char> {
    "repo_path: "@ + m.repo_path@ + "\n"@ + "current_branch: "@ + m.current_branch@ + "\n"@
        + "head_full_id: "@ + m.head_full_id@ + "\n"@ + "head_message: "@ + m.head_message@
        + "\n"@ + "head_datetime: "@ + m.head_datetime@ + "\n"@ + "target_full_id: "@
        + m.target_full_id@ + "\n"@ + "dirty: "@ + (if m.dirty {
        "true"@
    } else {
        "false"@
    }) + "\n"@ + "status_porcelain:"@ + "\n"@ + m.status_porcelain@ + "\n"@ + "recent_commits:"@
}

/// The minimal material's text opens with its header: each summary field on its own
/// line after its label, each value the material's own.
pub proof fn law_minimal_text_header(m: crate::material::MinimalMaterial)
    ensures
        crate::material::minimal_text_spec(m).len() >= minimal_header(m).len(),
        crate::material::minimal_text_spec(m).take(minimal_header(m).len() as int) == minimal_header(m),
{
    let nl = "\n"@;
    let parts = crate::material::minimal_lines(m);
    let rest = lemma_join_prefix(parts, 10, nl);
    reveal_strlit("true");
    reveal_strlit("false");
    let dirty_text = if m.dirty {
        "true"@
    } else {
        "false"@
    };
    assert(crate::text::bool_text(m.dirty) == dirty_text);
    assert(parts.take(1) =~= seq![parts[0]]);
    let g1 = "repo_path: "@ + m.repo_path@;
    assert(join_spec(parts.take(1), nl) == g1);
    let g2 = g1 + nl + "current_branch: "@ + m.current_branch@;
    lemma_join_step(parts, 2, nl);
    assert((g1 + nl) + ("current_branch: "@ + m.current_branch@) =~= g2);
    assert(join_spec(parts.take(2), nl) == g2);
    let g3 = g2 + nl + "head_full_id: "@ + m.head_full_id@;
    lemma_join_step(parts, 3, nl);
    assert((g2 + nl) + ("head_full_id: "@ + m.head_full_id@) =~= g3);
    assert(join_spec(parts.take(3), nl) == g3);
    let g4 = g3 + nl + "head_message: "@ + m.head_message@;
    lemma_join_step(parts, 4, nl);
    assert((g3 + nl) + ("head_message: "@ + m.head_message@) =~= g4);
    assert(join_spec(parts.take(4), nl) == g4);
    let g5 = g4 + nl + "head_datetime: "@ + m.head_datetime@;
    lemma_join_step(parts, 5, nl);
    assert((g4 + nl) + ("head_datetime: "@ + m.head_datetime@) =~= g5);
    assert(join_spec(parts.take(5), nl) == g5);
    let g6 = g5 + nl + "target_full_id: "@ + m.target_full_id@;
    lemma_join_step(parts, 6, nl);
    assert((g5 + nl) + ("target_full_id: "@ + m.target_full_id@) =~= g6);
    assert(join_spec(parts.take(6), nl) == g6);
    let g7 = g6 + nl + "dirty: "@ + dirty_text;
    lemma_join_step(parts, 7, nl);
    assert((g6 + nl) + ("dirty: "@ + dirty_text) =~= g7);
    assert(join_spec(parts.take(7), nl) == g7);
    let g8 = g7 + nl + "status_porcelain:"@;
    lemma_join_step(parts, 8, nl);
    assert(join_spec(parts.take(8), nl) == g8);
    let g9 = g8 + nl + m.status_porcelain@;
    lemma_join_step(parts, 9, nl);
    assert(join_spec(parts.take(9), nl) == g9);
    let g10 = g9 + nl + "recent_commits:"@;
    lemma_join_step(parts, 10, nl);
    assert(join_spec(parts.take(10), nl) == g10);
    assert(minimal_header(m) == g10);
    assert(crate::material::minimal_text_spec(m) == g10 + rest);
    assert((g10 + rest).take(g10.len() as int) =~= g10);
}

} // verus!
