use alps_ui::pids::{
    cancel_lookup, classify_kill, recorded_start, CancelLookup, find_pid_entry, prune_pid_entries, KillOutcome, PidEntry, ProcessRegistry,
};

fn entry(id: &str, pid: u32, started_at: &str) -> PidEntry {
    PidEntry::new(id.to_string(), pid, started_at.to_string())
}

fn ids(entries: &[PidEntry]) -> Vec<String> {
    entries.iter().map(|e| e.task_id.clone()).collect()
}

#[test]
fn find_pid_entry_returns_first_match() {
    let entries = vec![
        entry("a", 1, "2026-08-26T10:00:00+00:00"),
        entry("b", 2, "2026-08-26T10:01:00+00:00"),
        entry("b", 3, "2026-08-26T10:02:00+00:00"),
    ];
    assert_eq!(find_pid_entry(&entries, "b"), Some((2, "2026-08-26T10:01:00+00:00".to_string())));
    assert_eq!(find_pid_entry(&entries, "c"), None);
    assert_eq!(find_pid_entry(&[], "a"), None);
}

#[test]
fn prune_pid_entries_drops_every_entry_of_the_task() {
    let entries = vec![entry("a", 1, "t1"), entry("b", 2, "t2"), entry("a", 3, "t3"), entry("c", 4, "t4")];
    let kept = prune_pid_entries(&entries, "a").expect("something pruned");
    assert_eq!(ids(&kept), vec!["b".to_string(), "c".to_string()]);
    assert_eq!(kept[0].pid, 2);
    assert_eq!(find_pid_entry(&kept, "a"), None);
    assert_eq!(find_pid_entry(&kept, "c"), find_pid_entry(&entries, "c"));
    // Pruning again finds nothing to prune.
    assert!(prune_pid_entries(&kept, "a").is_none());
}

#[test]
fn prune_pid_entries_leaves_the_file_alone_when_task_is_absent() {
    let entries = vec![entry("a", 1, "t1")];
    assert!(prune_pid_entries(&entries, "zzz").is_none());
    assert!(prune_pid_entries(&[], "a").is_none());
}

#[test]
fn registry_take_returns_what_insert_registered() {
    let mut reg: ProcessRegistry<&'static str> = ProcessRegistry::new();
    reg.insert("t1".to_string(), "child-1", 101, "2026-08-26T10:00:00+00:00".to_string(), "/w".to_string());
    reg.insert("t2".to_string(), "child-2", 102, "2026-08-26T10:05:00+00:00".to_string(), "/w".to_string());
    let taken = reg.take("t1").expect("registered");
    assert_eq!(taken, ("child-1", 101, "2026-08-26T10:00:00+00:00".to_string(), "/w".to_string()));
    assert!(reg.take("t1").is_none(), "take removes the entry");
    assert_eq!(reg.snapshot().len(), 1);
    assert_eq!(reg.take("t2").map(|t| t.1), Some(102));
}

#[test]
fn registry_insert_replaces_the_previous_process() {
    let mut reg: ProcessRegistry<u8> = ProcessRegistry::new();
    reg.insert("t".to_string(), 1, 11, "s1".to_string(), "/a".to_string());
    reg.insert("u".to_string(), 2, 22, "s2".to_string(), "/b".to_string());
    reg.insert("t".to_string(), 3, 33, "s3".to_string(), "/c".to_string());
    assert_eq!(
        reg.snapshot(),
        vec![
            ("u".to_string(), 22, "s2".to_string(), "/b".to_string()),
            ("t".to_string(), 33, "s3".to_string(), "/c".to_string()),
        ]
    );
    assert_eq!(reg.take("t").map(|t| t.0), Some(3));
}

#[test]
fn snapshot_is_empty_after_init() {
    let reg: ProcessRegistry<()> = ProcessRegistry::new();
    assert!(reg.snapshot().is_empty());
}

#[test]
fn classify_kill_outcomes() {
    assert_eq!(classify_kill(true, Some(0), ""), KillOutcome::Signalled);
    assert_eq!(classify_kill(false, Some(1), "kill: (4242) - No such process"), KillOutcome::AlreadyCompleted);
    assert_eq!(classify_kill(false, Some(2), "kill: (4242) - No such process"), KillOutcome::AlreadyCompleted);
    assert_eq!(classify_kill(false, Some(1), ""), KillOutcome::AlreadyCompleted);
    assert_eq!(classify_kill(false, Some(2), "kill: permission denied"), KillOutcome::Failed);
    assert_eq!(classify_kill(false, None, "killed by signal"), KillOutcome::Failed);
}

#[test]
fn cancel_lookup_prefers_registry_and_reads_file_only_as_fallback() {
    let mem = Some((10, "2026-08-26T10:00:00+00:00".to_string()));
    assert_eq!(cancel_lookup(mem.clone(), None), CancelLookup::Signal(10, Some("2026-08-26T10:00:00+00:00".to_string())));
    assert_eq!(cancel_lookup(mem, Some(Some((20, None)))), CancelLookup::Signal(10, Some("2026-08-26T10:00:00+00:00".to_string())));
    assert_eq!(cancel_lookup(None, None), CancelLookup::ReadPidFile);
    assert_eq!(cancel_lookup(None, Some(Some((20, None)))), CancelLookup::Signal(20, None));
    assert_eq!(cancel_lookup(None, Some(None)), CancelLookup::NoSuchTask);
}

#[test]
fn recorded_start_reads_rfc3339_into_utc() {
    assert_eq!(recorded_start("2026-08-26T12:00:00+02:00"), Some("2026-08-26T10:00:00+00:00".to_string()));
    assert_eq!(recorded_start("2026-08-26T10:00:00Z"), Some("2026-08-26T10:00:00+00:00".to_string()));
    assert_eq!(recorded_start("yesterday"), None);
}

#[test]
fn pid_file_written_from_registry_finds_each_process() {
    let mut reg: ProcessRegistry<u8> = ProcessRegistry::new();
    reg.insert("t1".to_string(), 0, 501, "2026-08-26T10:00:00+00:00".to_string(), "/w".to_string());
    reg.insert("t2".to_string(), 0, 502, "2026-08-26T10:01:00+00:00".to_string(), "/w".to_string());
    let entries = reg.pid_entries();
    assert_eq!(entries.len(), 2);
    assert_eq!(find_pid_entry(&entries, "t2"), Some((502, "2026-08-26T10:01:00+00:00".to_string())));
    assert_eq!(find_pid_entry(&entries, "t1"), Some((501, "2026-08-26T10:00:00+00:00".to_string())));
    assert_eq!(find_pid_entry(&entries, "t3"), None);
}
