use alps_ui::domain::{TaskState, TaskSummary};
use alps_ui::format::{attempts_label, elapsed_label, format_elapsed, last_refreshed_display, task_card_text};

#[test]
fn dashboard_format_elapsed_sub_minute() {
    assert_eq!(format_elapsed(0), "0s");
    assert_eq!(format_elapsed(45), "45s");
    assert_eq!(format_elapsed(59), "59s");
}

#[test]
fn dashboard_format_elapsed_sub_hour() {
    assert_eq!(format_elapsed(60), "1m 0s");
    assert_eq!(format_elapsed(125), "2m 5s");
    assert_eq!(format_elapsed(3599), "59m 59s");
}

#[test]
fn format_elapsed_sub_day() {
    assert_eq!(format_elapsed(3600), "1h 0m");
    assert_eq!(format_elapsed(7320), "2h 2m");
    assert_eq!(format_elapsed(86_399), "23h 59m");
}

#[test]
fn format_elapsed_multi_day() {
    assert_eq!(format_elapsed(86_400), "1d 0h");
    assert_eq!(format_elapsed(604_800), "7d 0h");
}

#[test]
fn task_detail_format_elapsed_sub_minute() {
    assert_eq!(format_elapsed(0), "0s");
    assert_eq!(format_elapsed(45), "45s");
}

#[test]
fn task_detail_format_elapsed_sub_hour() {
    assert_eq!(format_elapsed(60), "1m 0s");
    assert_eq!(format_elapsed(3599), "59m 59s");
}

#[test]
fn format_elapsed_largest_value() {
    assert_eq!(format_elapsed(u64::MAX), "213503982334601d 7h");
}

#[test]
fn attempts_label_counts_from_one() {
    assert_eq!(attempts_label(0), "attempt 1");
    assert_eq!(attempts_label(2), "attempt 3");
}

#[test]
fn elapsed_label_dashes_missing_time() {
    assert_eq!(elapsed_label(None), "\u{2014}");
    assert_eq!(elapsed_label(Some(7320)), "2h 2m");
}

#[test]
fn last_refreshed_display_ages() {
    assert_eq!(last_refreshed_display(0, 100), "Last refreshed \u{2014}");
    assert_eq!(last_refreshed_display(100, 100), "Last refreshed 0s ago");
    assert_eq!(last_refreshed_display(100, 130), "Last refreshed 30s ago");
    assert_eq!(last_refreshed_display(100, 225), "Last refreshed 2m 5s ago");
    assert_eq!(last_refreshed_display(100, 50), "Last refreshed 0s ago");
}

fn summary(created_at: i64, attempts: u32, elapsed_secs: Option<u64>) -> TaskSummary {
    TaskSummary {
        task_id: "2026-08-23T181045-abc".to_string(),
        state: TaskState::Running,
        attempts,
        prompt_excerpt: "Add a dark-mode toggle to the settings page".to_string(),
        created_at,
        completed_at: None,
        stories_passed: None,
        stories_total: None,
        iterations: None,
        elapsed_secs,
        review_assertions_passed: None,
        review_assertions_total: None,
        critical_findings: None,
        judge_verdict: None,
        judge_model: None,
    }
}

#[test]
fn task_card_text_renders_created_time_in_utc() {
    let text = task_card_text(&summary(1_787_508_645, 1, Some(125)));
    assert_eq!(text.created, Some("08-23 18:10".to_string()));
    assert_eq!(text.attempts, "attempt 2");
    assert_eq!(text.elapsed, "2m 5s");
    let epoch = task_card_text(&summary(0, 0, None));
    assert_eq!(epoch.created, Some("01-01 00:00".to_string()));
    assert_eq!(epoch.elapsed, "\u{2014}");
}

#[test]
fn task_card_text_has_no_created_time_out_of_range() {
    let text = task_card_text(&summary(i64::MAX, 0, None));
    assert_eq!(text.created, None);
}
