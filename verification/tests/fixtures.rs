use alps_ui::calendar::{const_str_to_unix, days_from_civil};
use alps_ui::domain::TaskState;
use alps_ui::fixtures::fixtures;

#[test]
fn fixtures_cover_eight_distinct_states() {
    let mut states: Vec<TaskState> = fixtures().iter().map(|t| t.state).collect();
    states.sort_by_key(|s| format!("{:?}", s));
    assert_eq!(
        states,
        vec![
            TaskState::Done,
            TaskState::Failed,
            TaskState::Idle,
            TaskState::Implemented,
            TaskState::Planned,
            TaskState::Rejected,
            TaskState::Reviewed,
            TaskState::Running,
        ],
        "fixtures should contain one row for each of the 8 normal TaskState variants",
    );
}

#[test]
fn fixtures_do_not_include_unknown() {
    assert!(fixtures().iter().all(|t| t.state != TaskState::Unknown));
}

#[test]
fn every_fixture_has_a_realistic_prompt_excerpt() {
    for t in fixtures().iter() {
        assert!(t.prompt_excerpt.len() >= 20, "fixture {:?} too short", t.task_id);
        assert!(t.prompt_excerpt.len() <= 200, "fixture {:?} too long", t.task_id);
    }
}

#[test]
fn done_rejected_failed_carry_completed_at() {
    for t in fixtures().iter() {
        if matches!(t.state, TaskState::Done | TaskState::Rejected | TaskState::Failed) {
            assert!(t.completed_at.is_some(), "{:?} should have completed_at set", t.state);
            assert!(t.completed_at.unwrap() >= t.created_at);
        }
    }
}

#[test]
fn done_has_full_metrics() {
    let all = fixtures();
    let done = all.iter().find(|t| t.state == TaskState::Done).expect("a Done row");
    assert_eq!(done.stories_passed, Some(4));
    assert_eq!(done.stories_total, Some(4));
    assert!(done.judge_verdict.as_deref() == Some("ACCEPTED"));
    assert!(done.judge_model.is_some());
}

#[test]
fn const_str_to_unix_matches_known_epoch_seconds() {
    assert_eq!(const_str_to_unix("1970-01-01T000000"), 0);
    assert_eq!(const_str_to_unix("2000-01-01T000000"), 946_684_800);
    assert_eq!(const_str_to_unix("2026-08-23T181045"), 1_787_508_645);
}

#[test]
fn unfinished_fixtures_have_no_completion_time() {
    for t in fixtures().iter() {
        if !matches!(t.state, TaskState::Done | TaskState::Rejected | TaskState::Failed) {
            assert!(t.completed_at.is_none(), "{:?}", t.state);
        }
    }
}

#[test]
fn fixture_ids_are_the_documented_ones() {
    let all = fixtures();
    assert_eq!(all.len(), 8);
    assert_eq!(all[0].task_id, "2026-08-24T003012-1a2b3c4d");
    assert_eq!(all[0].state, TaskState::Idle);
    assert_eq!(all[0].created_at, const_str_to_unix("2026-08-24T003012"));
}

#[test]
fn days_from_civil_counts_days_since_epoch() {
    assert_eq!(days_from_civil(1970, 1, 1), 0);
    assert_eq!(days_from_civil(1970, 1, 2), 1);
    assert_eq!(days_from_civil(2000, 3, 1), 11_017);
    assert_eq!(days_from_civil(1969, 12, 31), -1);
    assert_eq!(days_from_civil(2024, 2, 29) + 1, days_from_civil(2024, 3, 1));
}
