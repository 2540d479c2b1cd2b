use alps_ui::task_id::{find_task_id, is_path_safe_task_id, TaskId};

#[test]
fn task_id_fromstr_accepts_any_well_formed_string() {
    let parsed: TaskId = "anything-here".parse().expect("infallible parse");
    assert_eq!(parsed.as_str(), "anything-here");
}

#[test]
fn task_id_default_is_empty_string() {
    let d: TaskId = TaskId::default();
    assert_eq!(d.as_str(), "");
}

#[test]
fn task_id_display_matches_inner_string() {
    let raw = "2026-08-23T192049-abcdef01";
    let id = TaskId::new(raw);
    assert_eq!(id.to_string(), raw);
    assert_eq!(TaskId::default().to_string(), "");
}

#[test]
fn task_id_new_keeps_the_string() {
    let id = TaskId::new("2026-08-23T192049-abcdef01");
    assert_eq!(id.0, "2026-08-23T192049-abcdef01");
}

#[test]
fn find_task_id_in_plain_tracing_line() {
    let line = "2026-08-25T00:44:56.123Z  INFO alps.cli: starting task task_id=2026-08-25T004456-9f8e7d6c";
    assert_eq!(find_task_id(line), Some("2026-08-25T004456-9f8e7d6c".to_string()));
}

#[test]
fn find_task_id_in_coloured_tracing_line() {
    let line = "\u{1b}[32m INFO\u{1b}[0m \u{1b}[2malps.cli\u{1b}[0m: starting task \u{1b}[3mtask_id\u{1b}[0m\u{1b}[2m=\u{1b}[0m2026-08-25T004456-0a1b2c3d";
    assert_eq!(find_task_id(line), Some("2026-08-25T004456-0a1b2c3d".to_string()));
}

#[test]
fn find_task_id_stops_at_first_non_hex() {
    let line = "task_id=2026-08-25T004456-abc123 workdir=/tmp";
    assert_eq!(find_task_id(line), Some("2026-08-25T004456-abc123".to_string()));
    let upper = "task_id=2026-08-25T004456-abcXYZ";
    assert_eq!(find_task_id(upper), Some("2026-08-25T004456-abc".to_string()));
}

#[test]
fn find_task_id_rejects_malformed_ids() {
    assert_eq!(find_task_id("no id here"), None);
    assert_eq!(find_task_id("task_id: 2026-08-25T004456-abc"), None);
    assert_eq!(find_task_id("task_id=2026-08-25T004456-"), None);
    assert_eq!(find_task_id("task_id=2026-8-25T004456-abc"), None);
    assert_eq!(find_task_id("task_id=2026-08-25 004456-abc"), None);
    assert_eq!(find_task_id(""), None);
}

#[test]
fn find_task_id_moves_past_keys_that_announce_nothing() {
    let line = "DEBUG span parent_task_id=none task_id=2026-08-23T192049-abcdef01";
    assert_eq!(find_task_id(line), Some("2026-08-23T192049-abcdef01".to_string()));
    let line = "task_id missing; task_id=2026-08-25T004456-abc";
    assert_eq!(find_task_id(line), Some("2026-08-25T004456-abc".to_string()));
    let two = "task_id=2026-08-25T004456-aaa task_id=2026-08-25T004456-bbb";
    assert_eq!(find_task_id(two), Some("2026-08-25T004456-aaa".to_string()));
}

#[test]
fn find_task_id_skips_any_control_sequence_around_the_equals_sign() {
    let line = "task_id\u{1b}[1;32m\u{1b}[K=\u{1b}[0m\u{1b}[38;5;245m2026-08-25T004456-0a1b";
    assert_eq!(find_task_id(line), Some("2026-08-25T004456-0a1b".to_string()));
}

#[test]
fn task_log_tail_ralph_rejects_path_traversal() {
    assert!(!is_path_safe_task_id("../../../etc/passwd"), "must reject task_id containing '..'");
}

#[test]
fn task_log_tail_ralph_rejects_slash() {
    assert!(!is_path_safe_task_id("foo/bar"), "must reject task_id containing '/'");
}

#[test]
fn path_guard_rejects_backslash_and_nul_and_accepts_real_ids() {
    assert!(!is_path_safe_task_id("foo\\bar"));
    assert!(!is_path_safe_task_id("foo\0bar"));
    assert!(!is_path_safe_task_id(".."));
    assert!(is_path_safe_task_id("a.b"));
    assert!(is_path_safe_task_id("2026-08-25T004456-9f8e7d6c"));
    assert!(is_path_safe_task_id(""));
}

#[test]
fn announced_ids_pass_the_path_guard() {
    let line = "starting task task_id=2026-08-25T004456-9f8e7d6c";
    let id = find_task_id(line).expect("announced");
    assert!(is_path_safe_task_id(&id));
}
