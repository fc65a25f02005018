use codex_rollback_bridge::command_template::build_previous_head_rollback_command;
use codex_rollback_bridge::config::{
    external_file_contents, normalize_external_selected_repo_path,
    config_contract_line, default_settings_path, external_selected_repo_path_file,
    load_external_selected_repo_path, load_settings, runtime_override_path, ExternalFileProbe,
};
use codex_rollback_bridge::external_poll::{
    accept_external_value, external_selection_decision, new_external_poll_state,
    poll_change_detected, poll_due, record_poll_error, ExternalSelection,
};
use codex_rollback_bridge::font::required_font_path;
use codex_rollback_bridge::git::{
    collect_scan_dirs, is_git_repo, ListedDir,
    collect_main_commit_ids, commits_from_log, fetch_snapshot, get_commit_message_full, git_args,
    git_bytes_outcome, head_info_from, is_main_history_commit, is_requirement_definition_name,
    requirement_definition_files, requirement_headline_from_first_lines, scan_repositories,
    GitCommand, GitOutput, ScannedDir,
};
use codex_rollback_bridge::material::{
    generate_detailed, DetailedGitData, DetailedPhase, GenerationStep,
};
use codex_rollback_bridge::models::{AppStatus, CommitInfo, RepoSnapshot, ScanScope, Settings, WorkState};
use codex_rollback_bridge::monitor::{
    interval_from_seconds, new_worker_state, record_refresh, refresh_once, worker_step,
    MonitorCommand, MonitorEvent, WorkerAction, WorkerInput,
};
use codex_rollback_bridge::paths::{
    components, join, path_le_exec, resolve_assets_base, same_path, sort_unique_paths, with_file_name,
};
use codex_rollback_bridge::single_instance::{acquire_outcome, AcquireOutcome};
use codex_rollback_bridge::text::{
    decimal, join as join_texts, lines, parse_i64, replace_char, trim, trim_end_newlines,
};
use codex_rollback_bridge::timefmt::{
    format_git_timestamp_for_display, format_git_timestamp_or_fallback, JST_OFFSET_SECONDS,
};
use codex_rollback_bridge::view_state::{
    failure_warning_shown,
    apply_monitor_event, can_run_commit_action, can_run_history_action,
    commit_message_for_dialog, history_action_block_reason, move_main_action_block_reason,
    push_log, settings_for_persist, startup_decision, MonitorView, SnapshotActivity,
};

/// 2026-01-21 00:00 JST, in Unix seconds.
const NOW: i64 = 1768921200;

fn output(code: i32, stdout: &[u8]) -> Result<GitOutput, String> {
    Ok(GitOutput {
        exit_code: Some(code),
        status: format!("exit status: {code}"),
        stdout: stdout.to_vec(),
        stderr: Vec::new(),
    })
}

fn fake_git(command: GitCommand) -> Result<GitOutput, String> {
    match command {
        GitCommand::CurrentBranch => output(0, b"main\n"),
        GitCommand::HeadInfo => output(0, b"abc123\x1fsubject\x1f1767225900\x1fsubject\n\nbody\n\x00"),
        GitCommand::StatusPorcelain => output(0, b" M src/lib.rs\n?? new.txt\n"),
        GitCommand::RecentLog { .. } => output(
            0,
            b"abc123\x1fabc\x1f1767225900\x1fsubject\x1fsubject\n\nbody\n\x00def456\x1fdef\x1f1767225600\x1fold\x1fold\n\x00",
        ),
        GitCommand::MainBranchHead => output(0, b"def456\n"),
        GitCommand::MainBranchExists => output(0, b""),
        GitCommand::MainHistory => output(0, b"def456\n\n"),
        GitCommand::LastCommitTimestamp => output(0, b"1767225900\n"),
        GitCommand::CommitMessage { commit_id } => output(0, format!("message of {commit_id}\n\n").as_bytes()),
    }
}

fn commit(full_id: &str) -> CommitInfo {
    CommitInfo {
        scope_mark: String::new(),
        in_main_history: false,
        datetime: "01/01 09:05".to_string(),
        short_id: full_id[..3].to_string(),
        subject: "subject".to_string(),
        body_full: "subject".to_string(),
        full_id: full_id.to_string(),
    }
}

fn snapshot(status: &str) -> RepoSnapshot {
    RepoSnapshot {
        repo_path: "/work/repo".to_string(),
        current_branch: " feature \n".to_string(),
        head_full_id: "abc123".to_string(),
        head_message: "subject".to_string(),
        head_message_full: "subject\n\nbody".to_string(),
        head_datetime: "01/01 09:05".to_string(),
        dirty: !status.trim().is_empty(),
        status_porcelain: status.to_string(),
        recent_commits: vec![commit("abc123")],
        head_changed: true,
        consecutive_update_failures: 0,
    }
}

#[test]
fn trim_removes_unicode_whitespace_on_both_sides() {
    assert_eq!(trim("\u{3000} a b \t\r\n"), "a b");
    assert_eq!(trim(" \n "), "");
    assert_eq!(trim_end_newlines("line\r\n\n"), "line");
}

#[test]
fn lines_follow_str_lines() {
    assert_eq!(lines("a\r\nb\n\nc"), vec!["a", "b", "", "c"]);
    assert_eq!(lines("a\n"), vec!["a"]);
    assert_eq!(lines(""), Vec::<String>::new());
    assert_eq!(lines("a\r"), vec!["a\r"]);
    assert_eq!(join_texts(&vec!["x".to_string(), "y".to_string()], " | "), "x | y");
}

#[test]
fn decimal_and_parse_round_trip() {
    assert_eq!(decimal(0), "0");
    assert_eq!(decimal(1234567890), "1234567890");
    assert_eq!(parse_i64("+5"), Some(5));
    assert_eq!(parse_i64("-0"), Some(0));
    assert_eq!(parse_i64("9223372036854775807"), Some(i64::MAX));
    assert_eq!(parse_i64("-9223372036854775808"), Some(i64::MIN));
    assert_eq!(parse_i64("9223372036854775808"), None);
    assert_eq!(parse_i64(""), None);
    assert_eq!(parse_i64("-"), None);
    assert_eq!(parse_i64("12a"), None);
    assert_eq!(replace_char("a\\b\\c", '\\', '/'), "a/b/c");
}

#[test]
fn paths_join_and_replace_file_name() {
    assert_eq!(join("/root", "assets/config", '/'), "/root/assets/config");
    assert_eq!(join("/root/", "x", '/'), "/root/x");
    assert_eq!(join("", "x", '/'), "x");
    assert_eq!(join("/root", "/abs", '/'), "/abs");
    assert_eq!(join("C:\\root", "x", '\\'), "C:\\root\\x");
    assert_eq!(with_file_name("/a/b/settings.json", "other.txt", '/'), "/a/b/other.txt");
    assert_eq!(with_file_name("file.json", "other.txt", '/'), "other.txt");
    assert_eq!(default_settings_path("/p", '/'), "/p/assets/config/settings.default.json");
    assert_eq!(required_font_path("/p", '/'), "/p/assets/fonts/NotoSansJP-Regular.ttf");
}

#[test]
fn override_and_hand_over_files_share_a_directory() {
    assert_eq!(
        runtime_override_path(Some("/appdata".to_string()), Some("/home/u".to_string()), '/'),
        Ok("/appdata/CodexRollbackBridge/settings.override.json".to_string())
    );
    assert_eq!(
        runtime_override_path(None, Some("/home/u".to_string()), '/'),
        Ok("/home/u/.config/CodexRollbackBridge/settings.override.json".to_string())
    );
    assert_eq!(
        runtime_override_path(None, None, '/'),
        Err("APPDATA and HOME are unavailable".to_string())
    );
    assert_eq!(
        external_selected_repo_path_file(None, Some("/home/u".to_string()), '/'),
        Ok("/home/u/.config/CodexRollbackBridge/selected_repo_path.txt".to_string())
    );
}

#[test]
fn config_contract_line_names_both_files() {
    assert_eq!(
        config_contract_line(),
        "config_contract: default=assets/config/*.default.json runtime=%AppData%\\CodexRollbackBridge\\*.override.json"
    );
}

const FULL_DEFAULT: &str = r#"{"schema_version": 1, "root_folder_path": null, "scan_scope": "direct", "update_interval_sec": 5, "selected_repo_path": "/repo"}"#;

#[test]
fn load_settings_reads_default_file() {
    let result = load_settings("/p", '/', Ok(FULL_DEFAULT.to_string()), Ok("/o/settings.override.json".to_string()), None);
    assert!(result.logs.is_empty());
    assert_eq!(result.settings.update_interval_sec, 5);
    assert_eq!(result.settings.selected_repo_path, Some("/repo".to_string()));
    assert_eq!(result.settings.scan_scope, ScanScope::Direct);
}

#[test]
fn load_settings_override_wins_and_missing_override_keys_are_quiet() {
    let result = load_settings(
        "/p",
        '/',
        Ok(FULL_DEFAULT.to_string()),
        Ok("/o/s.json".to_string()),
        Some(Ok(r#"{"scan_scope": "depth2", "update_interval_sec": 60}"#.to_string())),
    );
    assert!(result.logs.is_empty());
    assert_eq!(result.settings.scan_scope, ScanScope::Depth2);
    assert_eq!(result.settings.update_interval_sec, 60);
    assert_eq!(result.settings.selected_repo_path, Some("/repo".to_string()));
}

#[test]
fn load_settings_reports_each_problem() {
    let result = load_settings(
        "/p",
        '/',
        Ok(r#"{"schema_version": 5000000000, "root_folder_path": 3, "scan_scope": "deep", "update_interval_sec": 0}"#.to_string()),
        Err("no home".to_string()),
        None,
    );
    let source = "default(/p/assets/config/settings.default.json)";
    assert_eq!(
        result.logs,
        vec![
            format!("{source}: key 'schema_version' is out of range"),
            format!("{source}: key 'root_folder_path' must be string or null"),
            format!("{source}: key 'scan_scope' has invalid value 'deep'"),
            format!("{source}: key 'update_interval_sec' must be in range 1..=3600 (got 0)"),
            format!("{source}: missing key 'selected_repo_path'"),
            "override path unavailable: no home".to_string(),
        ]
    );
    assert_eq!(result.settings.update_interval_sec, 3);
    assert_eq!(result.settings.schema_version, 1);
}

#[test]
fn load_settings_handles_unreadable_and_malformed_files() {
    let read_failed = load_settings("/p", '/', Err("denied".to_string()), Ok("/o/s.json".to_string()), Some(Ok("[1]".to_string())));
    assert_eq!(
        read_failed.logs,
        vec![
            "default(/p/assets/config/settings.default.json): read failed (denied)".to_string(),
            "override(/o/s.json): root must be a JSON object".to_string(),
        ]
    );
    let malformed = load_settings("/p", '/', Ok("{".to_string()), Ok("/o/s.json".to_string()), Some(Err("gone".to_string())));
    assert_eq!(malformed.logs.len(), 1);
    assert!(malformed.logs[0].starts_with("default(/p/assets/config/settings.default.json): json parse failed ("));
    let integer_text = load_settings("/p", '/', Ok(r#"{"update_interval_sec": "5", "scan_scope": 1}"#.to_string()), Ok("/o".to_string()), None);
    assert!(integer_text.logs.contains(&"default(/p/assets/config/settings.default.json): key 'update_interval_sec' must be integer".to_string()));
    assert!(integer_text.logs.contains(&"default(/p/assets/config/settings.default.json): key 'scan_scope' must be string".to_string()));
}

#[test]
fn hand_over_file_probes() {
    assert_eq!(load_external_selected_repo_path("/f", ExternalFileProbe::Missing), Ok(None));
    assert_eq!(
        load_external_selected_repo_path("/f", ExternalFileProbe::NotAFile),
        Err("external selected repo path is not a file: /f".to_string())
    );
    assert_eq!(
        load_external_selected_repo_path("/f", ExternalFileProbe::ReadFailed("denied".to_string())),
        Err("external selected repo path read failed '/f': denied".to_string())
    );
    assert_eq!(
        load_external_selected_repo_path("/f", ExternalFileProbe::Read(" /repo \n".to_string())),
        Ok(Some("/repo".to_string()))
    );
}

#[test]
fn settings_normalize_and_labels() {
    let mut settings = Settings::default();
    settings.update_interval_sec = 0;
    settings.normalize();
    assert_eq!(settings.update_interval_sec, 3);
    settings.update_interval_sec = 3600;
    settings.normalize();
    assert_eq!(settings.update_interval_sec, 3600);
    settings.update_interval_sec = 3601;
    settings.normalize();
    assert_eq!(settings.update_interval_sec, 3);
    assert_eq!(AppStatus::ProjectUnselected.label(), "プロジェクト未選択");
    assert_eq!(AppStatus::Error.label(), "エラー状態");
}

#[test]
fn git_failures_are_described() {
    let failed = git_bytes_outcome(
        &GitCommand::StatusPorcelain,
        Ok(GitOutput { exit_code: Some(128), status: "exit status: 128".to_string(), stdout: b" out \n".to_vec(), stderr: b"fatal: no\n".to_vec() }),
    );
    assert_eq!(
        failed,
        Err("git command failed ([\"status\", \"--porcelain\"]): status=exit status: 128 stderr='fatal: no' stdout='out'".to_string())
    );
    let not_started = git_bytes_outcome(&GitCommand::MainHistory, Err("not found".to_string()));
    assert_eq!(not_started, Err("failed to launch git ([\"rev-list\", \"main\"]): not found".to_string()));
    assert_eq!(git_args(&GitCommand::RecentLog { max_count: 50 })[3], "50");
}

#[test]
fn invalid_utf8_and_field_count_errors() {
    let lossy = codex_rollback_bridge::git::parse_records(b"a\xff\x1fb\x00", 2).expect("two fields");
    assert_eq!(lossy[0][0], "a\u{fffd}");
    let wrong = codex_rollback_bridge::git::parse_records(b"a\x1fb\x00", 3);
    assert_eq!(wrong, Err("unexpected git log field count: expected=3 actual=2 raw='a\u{1f}b'".to_string()));
}

#[test]
fn head_info_errors() {
    assert_eq!(head_info_from(b"", 0).unwrap_err(), "HEAD log record is empty");
    assert_eq!(head_info_from(b" \x1fs\x1f1\x1fb\x00", 0).unwrap_err(), "HEAD full id is empty");
    let head = head_info_from(b"a\x1fs\x1f1767225900\x1fs\n\nb\n\n\x00", 1767225900).expect("head");
    assert_eq!(head.message_full, "s\n\nb");
    assert_eq!(head.datetime, "01/01 09:05");
}

#[test]
fn commits_are_marked_against_main() {
    let ids = Some(vec!["def456".to_string()]);
    assert!(is_main_history_commit(&ids, " def456 "));
    assert!(!is_main_history_commit(&ids, "abc123"));
    assert!(!is_main_history_commit(&None, "def456"));
    let commits = commits_from_log(
        b"abc123\x1fabc\x1fbad\x1fsub\x1fbody\n\x00 \x1fx\x1f1\x1fy\x1fz\x00def456\x1fdef\x1f1767225600\x1fold\x1fold\x00",
        &Some("def456".to_string()),
        &ids,
        1767225900,
    )
    .expect("log parses");
    assert_eq!(commits.len(), 2);
    assert_eq!(commits[0].scope_mark, "");
    assert_eq!(commits[0].datetime, "(取得失敗)");
    assert_eq!(commits[0].body_full, "body");
    assert_eq!(commits[1].scope_mark, "M");
    assert!(commits[1].in_main_history);
    assert_eq!(commits[1].datetime, "01/01 09:00");
}

#[test]
fn main_history_is_collected_when_main_exists() {
    let ids = collect_main_commit_ids(&fake_git).expect("runs");
    assert_eq!(ids, Some(vec!["def456".to_string()]));
    let missing = collect_main_commit_ids(&|command: GitCommand| match command {
        GitCommand::MainBranchExists => output(1, b""),
        other => fake_git(other),
    })
    .expect("runs");
    assert_eq!(missing, None);
}

#[test]
fn snapshot_reuses_commits_when_head_is_unchanged() {
    let fresh = fetch_snapshot("/work/repo", &None, &Vec::new(), NOW, &fake_git).expect("snapshot");
    assert_eq!(fresh.current_branch, "main");
    assert_eq!(fresh.head_full_id, "abc123");
    assert_eq!(fresh.head_message_full, "subject\n\nbody");
    assert_eq!(fresh.head_datetime, "01/01 09:05");
    assert!(fresh.dirty);
    assert!(fresh.head_changed);
    assert_eq!(fresh.recent_commits.len(), 2);
    assert_eq!(fresh.recent_commits[1].scope_mark, "M");

    let kept = vec![commit("abc123")];
    let again = fetch_snapshot("/work/repo", &Some("abc123".to_string()), &kept, NOW, &fake_git).expect("snapshot");
    assert!(!again.head_changed);
    assert_eq!(again.recent_commits.len(), 1);

    let failing = fetch_snapshot("/work/repo", &None, &Vec::new(), NOW, &|command: GitCommand| match command {
        GitCommand::CurrentBranch => output(0, b"\n"),
        other => fake_git(other),
    });
    assert_eq!(failing.unwrap_err(), "git branch output is empty");
}

#[test]
fn commit_message_needs_an_id() {
    assert_eq!(get_commit_message_full(&fake_git, "  "), Err("commit id is empty".to_string()));
    assert_eq!(get_commit_message_full(&fake_git, " abc "), Ok("message of abc".to_string()));
}

#[test]
fn requirement_definitions_are_sorted_and_headline_picked() {
    assert!(is_requirement_definition_name("要件定義_a.md"));
    assert!(!is_requirement_definition_name("要件定義_a.txt"));
    assert!(!is_requirement_definition_name("readme.md"));
    let files = requirement_definition_files(&vec![
        "要件定義_b.md".to_string(),
        "note.md".to_string(),
        "要件定義_a.md".to_string(),
    ]);
    assert_eq!(files, vec!["要件定義_a.md".to_string(), "要件定義_b.md".to_string()]);
    assert_eq!(
        requirement_headline_from_first_lines(&vec![None, Some("  \n".to_string()), Some(" # Title \n".to_string())]),
        Some("# Title".to_string())
    );
    assert_eq!(requirement_headline_from_first_lines(&vec![]), None);
}

#[test]
fn scan_keeps_repositories_in_order() {
    assert_eq!(
        scan_repositories("/nope", false, Ok(Vec::new()), '/').unwrap_err(),
        "scan root is not a directory: /nope"
    );
    let found = scan_repositories(
        "/root",
        true,
        Ok(vec![
            ScannedDir { path: "/root".to_string(), is_git_repo: false, requirement_headline: None, last_commit_datetime: Err("x".to_string()) },
            ScannedDir { path: "/root/a".to_string(), is_git_repo: true, requirement_headline: None, last_commit_datetime: Err("x".to_string()) },
            ScannedDir { path: "/root/b".to_string(), is_git_repo: true, requirement_headline: Some("B".to_string()), last_commit_datetime: Ok("01/01 09:05".to_string()) },
        ]),
        '/',
    )
    .expect("scanned");
    assert_eq!(found.len(), 2);
    assert_eq!(found[0].requirement_headline, "(要件定義書なし)");
    assert_eq!(found[0].last_commit_datetime, "(取得失敗)");
    assert_eq!(found[1].path, "/root/b");
    assert_eq!(found[1].requirement_headline, "B");
}

#[test]
fn rollback_command_lists_the_steps() {
    let command = build_previous_head_rollback_command(&snapshot(" M a.rs\r\n?? b.rs\n"));
    let expected = "# repo: /work/repo\n# branch:  feature \n\n# head: abc123\n# head_message: subject\n# head_datetime: 01/01 09:05\n# dirty: true\n# status_porcelain:  M a.rs | ?? b.rs\n\
git -C \"/work/repo\" rev-parse --verify HEAD~1\n\
git -C \"/work/repo\" rev-parse --abbrev-ref HEAD\n\
git -C \"/work/repo\" reset --hard HEAD~1\n\
git -C \"/work/repo\" push --force-with-lease origin feature\n\
git -C \"/work/repo\" status --short\n\
git -C \"/work/repo\" log --oneline -n 3";
    assert_eq!(command, expected);
    let clean = build_previous_head_rollback_command(&snapshot(" \n"));
    assert!(clean.contains("# dirty: false\n# status_porcelain: (clean)\n"));
}

fn git_data(files: usize, diff_len: usize) -> DetailedGitData {
    DetailedGitData {
        status_full: "status".to_string(),
        diff_unstaged: "x".repeat(diff_len),
        diff_staged: String::new(),
        diff_target_to_head: String::new(),
        changed_files: (0..files).map(|i| format!("file{i}.rs")).collect(),
    }
}

#[test]
fn detailed_material_fits_without_omission() {
    let mut generation = generate_detailed(&snapshot(""), "abc123", git_data(2, 10));
    let step = generation.advance(Ok("{}".to_string()));
    match step {
        GenerationStep::Finished(Ok(out)) => {
            assert!(!out.omitted_due_to_size);
            assert!(out.text.contains("changed_file_count: 2\nchanged_files:\n- file0.rs\n- file1.rs\ngit_status:\nstatus"));
            assert!(out.text.starts_with("repo_path: /work/repo\ncurrent_branch:  feature \n"));
            assert_eq!(out.json, "{}");
        }
        other => panic!("unexpected step {other:?}"),
    }
}

#[test]
fn detailed_material_shrinks_the_file_list() {
    let mut generation = generate_detailed(&snapshot(""), "abc123", git_data(3, 300_000));
    assert!(matches!(generation.advance(Ok("{}".to_string())), GenerationStep::Serialize));
    assert_eq!(generation.phase, DetailedPhase::Shrinking { visible: 3 });
    assert!(generation.candidate.omitted_due_to_size);
    assert_eq!(generation.candidate.git_diff_unstaged, "(省略: 200KB制限超過のため変更ファイル一覧のみ出力)");
    let too_big = "y".repeat(300_000);
    assert!(matches!(generation.advance(Ok(too_big.clone())), GenerationStep::Serialize));
    assert_eq!(generation.candidate.changed_files, vec!["file0.rs", "file1.rs", "... 1 files omitted"]);
    assert!(matches!(generation.advance(Ok(too_big.clone())), GenerationStep::Serialize));
    assert!(matches!(generation.advance(Ok(too_big.clone())), GenerationStep::Serialize));
    assert_eq!(generation.candidate.changed_files, vec!["... 3 files omitted"]);
    assert!(matches!(generation.advance(Ok(too_big.clone())), GenerationStep::Serialize));
    assert_eq!(generation.phase, DetailedPhase::ListOmitted);
    assert_eq!(generation.candidate.changed_files, vec!["3 files changed (list omitted)"]);
    match generation.advance(Ok(too_big)) {
        GenerationStep::Finished(Ok(out)) => assert!(out.omitted_due_to_size),
        other => panic!("unexpected step {other:?}"),
    }
    let mut failing = generate_detailed(&snapshot(""), "abc123", git_data(0, 1));
    match failing.advance(Err("boom".to_string())) {
        GenerationStep::Finished(Err(message)) => assert_eq!(message, "json serialize failed: boom"),
        other => panic!("unexpected step {other:?}"),
    }
}

#[test]
fn monitor_worker_decisions() {
    assert_eq!(interval_from_seconds(0), 1);
    assert_eq!(interval_from_seconds(4000), 3600);
    let mut state = new_worker_state(0);
    assert_eq!(state.interval_sec, 1);
    assert_eq!(worker_step(&mut state, WorkerInput::Command(MonitorCommand::SetIntervalSeconds(10))), WorkerAction::Wait);
    assert_eq!(state.interval_sec, 10);
    assert_eq!(refresh_once(&mut state, NOW, &fake_git).is_none(), true);
    assert_eq!(worker_step(&mut state, WorkerInput::Command(MonitorCommand::SetRepo("/work/repo".to_string()))), WorkerAction::Refresh);
    match refresh_once(&mut state, NOW, &fake_git) {
        Some(MonitorEvent::Snapshot(snap)) => assert_eq!(snap.head_full_id, "abc123"),
        other => panic!("unexpected event {other:?}"),
    }
    assert_eq!(state.previous_head, Some("abc123".to_string()));
    let first = record_refresh(&mut state, Err("down".to_string()));
    assert!(matches!(first, MonitorEvent::Error { consecutive_failures: 1, .. }));
    let second = record_refresh(&mut state, Err("down".to_string()));
    assert!(matches!(second, MonitorEvent::Error { consecutive_failures: 2, .. }));
    assert_eq!(worker_step(&mut state, WorkerInput::Timeout), WorkerAction::Refresh);
    assert_eq!(worker_step(&mut state, WorkerInput::Command(MonitorCommand::ManualRefresh)), WorkerAction::Refresh);
    assert_eq!(state.previous_head, None);
    assert_eq!(worker_step(&mut state, WorkerInput::Disconnected), WorkerAction::Stop);
    assert_eq!(worker_step(&mut state, WorkerInput::Command(MonitorCommand::Stop)), WorkerAction::Stop);
}

#[test]
fn actions_are_allowed_only_on_a_clean_tree() {
    let clean = SnapshotActivity { work_state: WorkState::Clean, operation_in_progress: false };
    let dirty = SnapshotActivity { work_state: WorkState::Dirty, operation_in_progress: false };
    let busy = SnapshotActivity { work_state: WorkState::Clean, operation_in_progress: true };
    assert!(can_run_history_action(AppStatus::Selected, clean));
    assert!(!can_run_history_action(AppStatus::Error, clean));
    assert!(can_run_commit_action(true, AppStatus::Selected, Some(dirty)));
    assert!(!can_run_commit_action(false, AppStatus::Selected, Some(dirty)));
    assert!(!can_run_commit_action(true, AppStatus::Selected, Some(clean)));
    assert!(!can_run_commit_action(true, AppStatus::Selected, None));
    assert_eq!(history_action_block_reason(AppStatus::Selected, clean), None);
    assert_eq!(
        history_action_block_reason(AppStatus::Selected, dirty),
        Some("未コミット変更があるため「ロルバ」は実行できません".to_string())
    );
    assert_eq!(
        move_main_action_block_reason(AppStatus::Selected, busy),
        Some("Git操作中のため「main更新」は実行できません".to_string())
    );
    assert_eq!(
        move_main_action_block_reason(AppStatus::Error, clean),
        Some("作業状態が不明のため「main更新」は実行できません".to_string())
    );
}

#[test]
fn log_keeps_the_newest_four_hundred_lines() {
    let mut logs: Vec<String> = Vec::new();
    for i in 0..405 {
        push_log(&mut logs, format!("line {i}"));
    }
    assert_eq!(logs.len(), 400);
    assert_eq!(logs[0], "line 5");
    assert_eq!(logs[399], "line 404");
}

#[test]
fn monitor_events_update_the_window() {
    let mut view = MonitorView {
        app_status: AppStatus::Updating,
        last_error: None,
        consecutive_failures: 0,
        selected_target_commit: Some("gone".to_string()),
        snapshot: None,
    };
    let line = apply_monitor_event(&mut view, MonitorEvent::Error { message: "down".to_string(), consecutive_failures: 3 });
    assert_eq!(line, Some("更新失敗(3回連続): down".to_string()));
    assert_eq!(view.app_status, AppStatus::Error);
    assert_eq!(apply_monitor_event(&mut view, MonitorEvent::Snapshot(snapshot(""))), None);
    assert_eq!(view.app_status, AppStatus::Selected);
    assert_eq!(view.selected_target_commit, None);
    assert_eq!(view.consecutive_failures, 0);
    view.selected_target_commit = Some("abc123".to_string());
    apply_monitor_event(&mut view, MonitorEvent::Snapshot(snapshot("")));
    assert_eq!(view.selected_target_commit, Some("abc123".to_string()));
}

#[test]
fn startup_and_persisted_settings() {
    let no_git = startup_decision(false, true);
    assert_eq!(no_git.app_status, AppStatus::Error);
    assert_eq!(no_git.last_error, Some("git が見つかりません".to_string()));
    assert!(!no_git.start_monitoring);
    let ready = startup_decision(true, true);
    assert_eq!(ready.app_status, AppStatus::Updating);
    assert!(ready.start_monitoring);
    assert!(startup_decision(true, false).show_project_change_dialog);
    let mut settings = Settings::default();
    settings.update_interval_sec = 0;
    let saved = settings_for_persist(&settings, "  /work \n", ScanScope::Direct, Some("/work/repo".to_string()));
    assert_eq!(saved.root_folder_path, Some("/work".to_string()));
    assert_eq!(saved.update_interval_sec, 3);
    let blank = settings_for_persist(&settings, "   ", ScanScope::Depth2, None);
    assert_eq!(blank.root_folder_path, None);
}

#[test]
fn commit_message_dialog_text() {
    let (message, logs) = commit_message_for_dialog("abc", Ok("a\r\nb\rc".to_string()), "fallback".to_string());
    assert_eq!(message, "a\nb\nc");
    assert_eq!(logs, vec!["commit message lines=3".to_string()]);
    let (message, logs) = commit_message_for_dialog("abc", Err("boom".to_string()), "fallback".to_string());
    assert_eq!(message, "fallback");
    assert_eq!(
        logs,
        vec![
            "コミット全文取得失敗: id=abc reason=boom (fallback使用)".to_string(),
            "commit message lines=1".to_string(),
        ]
    );
}

#[test]
fn hand_over_file_polling() {
    assert!(poll_due(true, 0, 10));
    assert!(!poll_due(false, 5, 10));
    let mut state = new_external_poll_state();
    assert!(poll_change_detected(&mut state, false, "/f", '/', Some(1)));
    assert!(!poll_change_detected(&mut state, false, "/f", '/', Some(1)));
    assert!(poll_change_detected(&mut state, false, "/f", '/', Some(2)));
    assert_eq!(record_poll_error(&mut state, "e".to_string(), "log e".to_string()), Some("log e".to_string()));
    assert_eq!(record_poll_error(&mut state, "e".to_string(), "log e".to_string()), None);
    assert_eq!(accept_external_value(&mut state, Some(" /repo \n".to_string())), Some("/repo".to_string()));
    assert_eq!(state.last_read_error, None);
    assert_eq!(accept_external_value(&mut state, Some(" /repo \n".to_string())), None);
    assert!(matches!(external_selection_decision("/x", false, &None, '/'), ExternalSelection::Ignore(_)));
    assert!(matches!(external_selection_decision("/repo", true, &Some("/repo".to_string()), '/'), ExternalSelection::Unchanged));
    match external_selection_decision("/repo", true, &None, '/') {
        ExternalSelection::Select(line) => assert_eq!(line, "外部選択ファイルの変更を反映: /repo"),
        _ => panic!("expected a selection"),
    }
}

#[test]
fn commit_time_fallback() {
    assert_eq!(format_git_timestamp_or_fallback(" x ", 0), "(取得失敗)");
    assert_eq!(format_git_timestamp_or_fallback("99999999999999999", 0), "(取得失敗)");
    assert_eq!(format_git_timestamp_or_fallback(" 1767225900 \n", 1767225900), "01/01 09:05");
    assert_eq!(format_git_timestamp_or_fallback("1767225900", 1767225900 + 366 * 86400), "26/01/01 09:05");
    assert_eq!(JST_OFFSET_SECONDS, 32400);
}

#[test]
fn assets_base_prefers_the_executable_directory_holding_assets() {
    assert_eq!(
        resolve_assets_base("/work/project", Some("/opt/app".to_string()), true),
        "/opt/app"
    );
    assert_eq!(
        resolve_assets_base("/work/project", Some("/opt/app".to_string()), false),
        "/work/project"
    );
    assert_eq!(resolve_assets_base("/work/project", None, false), "/work/project");
}

#[test]
fn single_instance_outcome_follows_the_system_answer() {
    assert_eq!(acquire_outcome(false, 0), AcquireOutcome::Failed);
    assert_eq!(acquire_outcome(true, 183), AcquireOutcome::AlreadyRunning);
    assert_eq!(acquire_outcome(true, 0), AcquireOutcome::Acquired);
}

#[test]
fn scan_lists_repositories_sorted_by_path() {
    let dir = |path: &str| ScannedDir {
        path: path.to_string(),
        is_git_repo: true,
        requirement_headline: Some(path.to_string()),
        last_commit_datetime: Ok("01/01 09:05".to_string()),
    };
    let found = scan_repositories(
        "/root",
        true,
        Ok(vec![dir("/root/zeta"), dir("/root"), dir("/root/alpha"), dir("/root/alpha-2")]),
        '/',
    )
    .expect("scanned");
    let paths: Vec<&str> = found.iter().map(|c| c.path.as_str()).collect();
    assert_eq!(paths, vec!["/root", "/root/alpha", "/root/alpha-2", "/root/zeta"]);
    assert_eq!(found[3].requirement_headline, "/root/zeta");
}

#[test]
fn selecting_a_repository_restarts_the_failure_count_and_manual_refresh_relists() {
    let mut state = new_worker_state(3);
    assert_eq!(
        worker_step(&mut state, WorkerInput::Command(MonitorCommand::SetRepo("/work/repo".to_string()))),
        WorkerAction::Refresh
    );
    record_refresh(&mut state, Err("down".to_string()));
    record_refresh(&mut state, Err("down".to_string()));
    assert_eq!(state.consecutive_failures, 2);

    assert_eq!(
        worker_step(&mut state, WorkerInput::Command(MonitorCommand::SetRepo("/work/other".to_string()))),
        WorkerAction::Refresh
    );
    let failing = |command: GitCommand| match command {
        GitCommand::CurrentBranch => Err("no such directory".to_string()),
        other => fake_git(other),
    };
    match refresh_once(&mut state, NOW, &failing) {
        Some(MonitorEvent::Error { consecutive_failures, message }) => {
            assert_eq!(consecutive_failures, 1);
            assert_eq!(
                message,
                "failed to launch git ([\"rev-parse\", \"--abbrev-ref\", \"HEAD\"]): no such directory"
            );
        }
        other => panic!("unexpected event {other:?}"),
    }

    match refresh_once(&mut state, NOW, &fake_git) {
        Some(MonitorEvent::Snapshot(snap)) => assert_eq!(snap.repo_path, "/work/other"),
        other => panic!("unexpected event {other:?}"),
    }
    assert_eq!(state.consecutive_failures, 0);
    state.previous_commits.truncate(1);
    assert_eq!(
        worker_step(&mut state, WorkerInput::Command(MonitorCommand::ManualRefresh)),
        WorkerAction::Refresh
    );
    match refresh_once(&mut state, NOW, &fake_git) {
        Some(MonitorEvent::Snapshot(snap)) => assert_eq!(snap.recent_commits.len(), 2),
        other => panic!("unexpected event {other:?}"),
    }
}

#[test]
fn whitespace_matches_char_is_whitespace() {
    for code in 0u32..=0x10FFFF {
        if let Some(c) = char::from_u32(code) {
            let text = c.to_string();
            assert_eq!(trim(&text).is_empty(), c.is_whitespace(), "U+{code:04X}");
        }
    }
    assert_eq!(normalize_external_selected_repo_path("x"), Some("x".to_string()));
    assert_eq!(trim("\u{3000}a b\u{2029}"), "a b");
}

#[test]
fn paths_compare_by_components() {
    assert_eq!(components("/a//b/./c/", '/'), (true, vec!["a".to_string(), "b".to_string(), "c".to_string()]));
    assert_eq!(components("./a", '/'), (false, vec![".".to_string(), "a".to_string()]));
    assert!(same_path("/repo/", "/repo", '/'));
    assert!(same_path("/repo//x", "/repo/./x", '/'));
    assert!(!same_path("/repo", "repo", '/'));
    assert!(!same_path("/repo/a", "/repo/b", '/'));
    assert!(path_le_exec("/root/a/x", "/root/a-b", '/'));
    assert!(!path_le_exec("/root/a-b", "/root/a/x", '/'));
    assert!(path_le_exec("/root", "/root/a", '/'));
    assert!(path_le_exec("/z", "a", '/'));
    let sorted = sort_unique_paths(
        &vec!["/r/b".to_string(), "/r".to_string(), "/r/a/".to_string(), "/r/a".to_string(), "/r/b".to_string()],
        '/',
    );
    assert_eq!(sorted, vec!["/r".to_string(), "/r/a/".to_string(), "/r/b".to_string()]);
}

#[test]
fn scan_directories_follow_the_scope() {
    let listing = || {
        Ok(vec![
            Ok(ListedDir {
                path: "/root/b".to_string(),
                children: Ok(vec![Ok("/root/b/inner".to_string())]),
            }),
            Ok(ListedDir { path: "/root/a-b".to_string(), children: Ok(Vec::new()) }),
            Ok(ListedDir {
                path: "/root/a".to_string(),
                children: Ok(vec![Ok("/root/a/x".to_string())]),
            }),
        ])
    };
    assert_eq!(
        collect_scan_dirs("/root", ScanScope::Direct, '/', listing()).unwrap(),
        vec!["/root", "/root/a", "/root/a-b", "/root/b"]
    );
    assert_eq!(
        collect_scan_dirs("/root", ScanScope::Depth2, '/', listing()).unwrap(),
        vec!["/root", "/root/a", "/root/a/x", "/root/a-b", "/root/b", "/root/b/inner"]
    );
    assert_eq!(
        collect_scan_dirs("/root", ScanScope::Direct, '/', Err("denied".to_string())).unwrap_err(),
        "read_dir failed: denied"
    );
    assert_eq!(
        collect_scan_dirs("/root", ScanScope::Direct, '/', Ok(vec![Err("broken".to_string())])).unwrap_err(),
        "read_dir entry failed: broken"
    );
    let bad_child = Ok(vec![Ok(ListedDir { path: "/root/a".to_string(), children: Err("gone".to_string()) })]);
    assert_eq!(
        collect_scan_dirs("/root", ScanScope::Depth2, '/', bad_child).unwrap_err(),
        "read_dir failed: gone"
    );
    let bad_child = Ok(vec![Ok(ListedDir { path: "/root/a".to_string(), children: Err("gone".to_string()) })]);
    assert_eq!(collect_scan_dirs("/root", ScanScope::Direct, '/', bad_child).unwrap(), vec!["/root", "/root/a"]);
}

#[test]
fn git_repository_check_asks_about_the_git_directory() {
    let asked = std::cell::RefCell::new(Vec::new());
    let probe = |p: String| {
        asked.borrow_mut().push(p.clone());
        p == "/work/repo/.git"
    };
    assert!(is_git_repo("/work/repo", '/', &probe));
    assert!(!is_git_repo("/work/other/", '/', &probe));
    assert_eq!(*asked.borrow(), vec!["/work/repo/.git".to_string(), "/work/other/.git".to_string()]);
}

#[test]
fn hand_over_file_round_trip_and_path_comparison() {
    let written = external_file_contents(Some(" /work/repo \n".to_string()));
    assert_eq!(
        load_external_selected_repo_path("/f", ExternalFileProbe::Read(written)).unwrap(),
        Some("/work/repo".to_string())
    );
    let nothing = external_file_contents(None);
    assert_eq!(load_external_selected_repo_path("/f", ExternalFileProbe::Read(nothing)).unwrap(), None);
    assert!(matches!(
        external_selection_decision("/repo/", true, &Some("/repo".to_string()), '/'),
        ExternalSelection::Unchanged
    ));
    let mut state = new_external_poll_state();
    assert!(poll_change_detected(&mut state, false, "/cfg/file.txt", '/', Some(1)));
    assert!(!poll_change_detected(&mut state, false, "/cfg//file.txt", '/', Some(1)));
}

#[test]
fn override_document_decides_start_up_settings() {
    let override_text = r#"{"schema_version": 2, "root_folder_path": "/src", "scan_scope": "depth2", "update_interval_sec": 7, "selected_repo_path": null}"#;
    let result = load_settings(
        "/p",
        '/',
        Err("missing".to_string()),
        Ok("/o/settings.override.json".to_string()),
        Some(Ok(override_text.to_string())),
    );
    assert_eq!(result.settings.schema_version, 2);
    assert_eq!(result.settings.root_folder_path, Some("/src".to_string()));
    assert_eq!(result.settings.scan_scope, ScanScope::Depth2);
    assert_eq!(result.settings.update_interval_sec, 7);
    assert_eq!(result.settings.selected_repo_path, None);
}

#[test]
fn commit_time_against_a_given_clock_and_failure_warning() {
    assert_eq!(format_git_timestamp_for_display("1767225900", NOW), Some("01/01 09:05".to_string()));
    assert_eq!(format_git_timestamp_for_display("1735657140", NOW), Some("24/12/31 23:59".to_string()));
    assert_eq!(format_git_timestamp_for_display("later", NOW), None);
    assert!(!failure_warning_shown(2));
    assert!(failure_warning_shown(3));
}
