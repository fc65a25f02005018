use chrono::{FixedOffset, TimeZone};
use codex_rollback_bridge::config::normalize_external_selected_repo_path;
use codex_rollback_bridge::git::{build_scope_mark, parse_records, trim_git_full_message_tail};
use codex_rollback_bridge::material::utf8_len;
use codex_rollback_bridge::timefmt::{format_git_timestamp_for_display_with_now, JST_OFFSET_SECONDS};
use codex_rollback_bridge::view_state::{
    commit_display_row_count, normalize_message_newlines, revert_confirm_state_from_deadline,
    table_row_fill_color, RowColor, REVERT_CONFIRM_COUNTDOWN_SECONDS,
    REVERT_CONFIRM_ZERO_DISPLAY_MILLIS,
};

fn rgb(r: u8, g: u8, b: u8) -> RowColor {
    RowColor { r, g, b }
}

const NANOS_PER_SECOND: u128 = 1_000_000_000;
const NANOS_PER_MILLI: u128 = 1_000_000;

#[test]
fn table_row_fill_color_prioritizes_selected() {
    assert_eq!(table_row_fill_color(true, true, true), rgb(236, 236, 236));
}

#[test]
fn table_row_fill_color_sets_head_to_red() {
    assert_eq!(table_row_fill_color(false, true, true), rgb(255, 224, 224));
    assert_eq!(table_row_fill_color(false, false, true), rgb(255, 224, 224));
}

#[test]
fn table_row_fill_color_sets_master_to_green() {
    assert_eq!(table_row_fill_color(false, true, false), rgb(228, 245, 228));
}

#[test]
fn table_row_fill_color_sets_normal_to_white() {
    assert_eq!(table_row_fill_color(false, false, false), rgb(252, 252, 252));
}

#[test]
fn normalize_message_newlines_converts_crlf_and_cr_to_lf() {
    let message = "subject\r\n\r\n- 何を: a\r- 何を: b\n".to_string();
    assert_eq!(normalize_message_newlines(message), "subject\n\n- 何を: a\n- 何を: b\n");
}

#[test]
fn commit_display_row_count_keeps_minimum_visible_rows() {
    assert_eq!(commit_display_row_count(0, 10), 10);
    assert_eq!(commit_display_row_count(8, 10), 10);
    assert_eq!(commit_display_row_count(10, 10), 10);
}

#[test]
fn commit_display_row_count_caps_to_fifty() {
    assert_eq!(commit_display_row_count(11, 10), 11);
    assert_eq!(commit_display_row_count(50, 10), 50);
    assert_eq!(commit_display_row_count(60, 10), 50);
}

#[test]
fn revert_confirm_state_counts_down_before_deadline() {
    let now: u128 = 0;
    let deadline = now + REVERT_CONFIRM_COUNTDOWN_SECONDS as u128 * NANOS_PER_SECOND;
    assert_eq!(
        revert_confirm_state_from_deadline(deadline, now),
        ("5".to_string(), false)
    );
}

#[test]
fn revert_confirm_state_shows_zero_before_ok() {
    let now: u128 = 0;
    let deadline = now + REVERT_CONFIRM_COUNTDOWN_SECONDS as u128 * NANOS_PER_SECOND;
    assert_eq!(
        revert_confirm_state_from_deadline(deadline, deadline),
        ("0".to_string(), false)
    );
}

#[test]
fn revert_confirm_state_enables_confirmation_after_zero() {
    let now: u128 = 0;
    let deadline = now + REVERT_CONFIRM_COUNTDOWN_SECONDS as u128 * NANOS_PER_SECOND;
    let ready_time = deadline + (REVERT_CONFIRM_ZERO_DISPLAY_MILLIS as u128 + 1) * NANOS_PER_MILLI;
    assert_eq!(
        revert_confirm_state_from_deadline(deadline, ready_time),
        ("OK".to_string(), true)
    );
}

#[test]
fn normalize_external_selected_repo_path_returns_none_for_empty_input() {
    assert_eq!(normalize_external_selected_repo_path(""), None);
    assert_eq!(normalize_external_selected_repo_path(" \n\t "), None);
}

#[test]
fn normalize_external_selected_repo_path_trims_whitespace() {
    assert_eq!(
        normalize_external_selected_repo_path(" C:\\repo\\sample \r\n"),
        Some("C:\\repo\\sample".to_string())
    );
}

#[test]
fn build_scope_mark_returns_m_when_commit_is_main_branch_head() {
    let main_head = Some("abc".to_string());
    assert_eq!(build_scope_mark(&main_head, "abc"), "M");
}

#[test]
fn build_scope_mark_returns_empty_when_commit_is_not_main_branch_head() {
    let main_head = Some("abc".to_string());
    assert_eq!(build_scope_mark(&main_head, "def"), "");
}

#[test]
fn build_scope_mark_handles_missing_main_branch_as_empty() {
    assert_eq!(build_scope_mark(&None, "def"), "");
}

#[test]
fn parse_records_reads_nul_and_us_separated_records() {
    let bytes = b"full1\x1fshort1\x1f2026/01/01 10:00\x1fsubject1\x1fsubject1\nbody1\n\x00full2\x1fshort2\x1f2026/01/02 11:00\x1fsubject2\x1fsubject2\x00";
    let records = parse_records(bytes, 5).expect("records should parse");
    assert_eq!(records.len(), 2);
    assert_eq!(records[0][0], "full1");
    assert_eq!(records[0][3], "subject1");
    assert_eq!(records[0][4], "subject1\nbody1\n");
    assert_eq!(records[1][3], "subject2");
    assert_eq!(records[1][4], "subject2");
}

#[test]
fn trim_git_full_message_tail_removes_only_trailing_newline() {
    let trimmed = trim_git_full_message_tail("subject\n\nbody\n".to_string());
    assert_eq!(trimmed, "subject\n\nbody");
    let unchanged = trim_git_full_message_tail("subject\n\nbody".to_string());
    assert_eq!(unchanged, "subject\n\nbody");
}

#[test]
fn format_git_timestamp_for_display_uses_mmdd_when_same_year_in_jst() {
    let jst = FixedOffset::east_opt(JST_OFFSET_SECONDS).expect("JST offset should exist");
    let now_jst = jst
        .with_ymd_and_hms(2026, 2, 21, 16, 0, 0)
        .single()
        .expect("valid datetime");
    let commit_jst = jst
        .with_ymd_and_hms(2026, 1, 1, 9, 5, 0)
        .single()
        .expect("valid datetime");
    let formatted = format_git_timestamp_for_display_with_now(
        &commit_jst.timestamp().to_string(),
        now_jst.timestamp(),
        JST_OFFSET_SECONDS,
    );
    assert_eq!(formatted, Some("01/01 09:05".to_string()));
}

#[test]
fn format_git_timestamp_for_display_uses_yy_when_year_differs_in_jst() {
    let jst = FixedOffset::east_opt(JST_OFFSET_SECONDS).expect("JST offset should exist");
    let now_jst = jst
        .with_ymd_and_hms(2026, 2, 21, 16, 0, 0)
        .single()
        .expect("valid datetime");
    let commit_jst = jst
        .with_ymd_and_hms(2025, 12, 31, 23, 59, 0)
        .single()
        .expect("valid datetime");
    let formatted = format_git_timestamp_for_display_with_now(
        &commit_jst.timestamp().to_string(),
        now_jst.timestamp(),
        JST_OFFSET_SECONDS,
    );
    assert_eq!(formatted, Some("25/12/31 23:59".to_string()));
}

#[test]
fn format_git_timestamp_for_display_returns_none_for_invalid_timestamp() {
    let jst = FixedOffset::east_opt(JST_OFFSET_SECONDS).expect("JST offset should exist");
    let now_jst = jst
        .with_ymd_and_hms(2026, 2, 21, 16, 0, 0)
        .single()
        .expect("valid datetime");
    let formatted =
        format_git_timestamp_for_display_with_now("not-a-number", now_jst.timestamp(), JST_OFFSET_SECONDS);
    assert_eq!(formatted, None);
}

#[test]
fn utf8_len_counts_multibyte_bytes() {
    assert_eq!(utf8_len("abc"), 3);
    assert_eq!(utf8_len("日本語"), 9);
}
