use alps_ui::diff::{
    commit_range, commits_to_render, git_log_means_no_history, parse_commit_log, short_sha, CommitDiff,
    MAX_COMMITS_TO_RENDER,
};

fn make_commit(sha: &str, message: &str, patch: &str) -> CommitDiff {
    CommitDiff {
        sha: sha.to_string(),
        author: "ALPS".to_string(),
        timestamp: "2026-08-26T10:00:00Z".to_string(),
        message: message.to_string(),
        patch: patch.to_string(),
    }
}

#[test]
fn short_sha_is_7_chars() {
    let c = make_commit("abc1234567890def", "msg", "");
    assert_eq!(short_sha(&c.sha), "abc1234");
}

#[test]
fn short_sha_handles_short_input() {
    let c = make_commit("abc", "msg", "");
    assert_eq!(short_sha(&c.sha).len(), 3);
    assert_eq!(short_sha(&c.sha), "abc");
}

#[test]
fn parse_commit_log_reads_one_commit() {
    let text = "0123456789abcdef\nKyle\n2026-08-26T10:00:00+00:00\nfix: foo\n\u{1e}\n";
    let commits = parse_commit_log(text);
    assert_eq!(commits.len(), 1);
    assert_eq!(commits[0].sha, "0123456789abcdef");
    assert_eq!(commits[0].author, "Kyle");
    assert_eq!(commits[0].timestamp, "2026-08-26T10:00:00+00:00");
    assert_eq!(commits[0].message, "fix: foo");
    assert_eq!(commits[0].patch, "");
}

#[test]
fn parse_commit_log_skips_blank_and_short_records() {
    assert!(parse_commit_log("").is_empty());
    assert!(parse_commit_log("\n\u{1e}\n").is_empty());
    assert!(parse_commit_log("sha\nauthor\n\u{1e}").is_empty());
}

#[test]
fn parse_commit_log_reads_every_commit() {
    // git ends each record with a line break after U+001E; the next record
    // starts after it.
    let text = "aaa\nA\nT1\nfirst\n\u{1e}\nbbb\nB\nT2\nsecond\n\u{1e}\nccc\nC\nT3\nthird\n\u{1e}\n";
    let commits = parse_commit_log(text);
    assert_eq!(commits.len(), 3);
    assert_eq!(commits[0].sha, "aaa");
    assert_eq!(commits[1].sha, "bbb");
    assert_eq!(commits[1].author, "B");
    assert_eq!(commits[1].timestamp, "T2");
    assert_eq!(commits[1].message, "second");
    assert_eq!(commits[2].sha, "ccc");
    assert_eq!(commits[2].message, "third");
}

#[test]
fn parse_commit_log_strips_carriage_returns() {
    let commits = parse_commit_log("s\r\na\r\nt\r\nm\r\n\u{1e}");
    assert_eq!(commits.len(), 1);
    assert_eq!(commits[0].sha, "s");
    assert_eq!(commits[0].message, "m");
}

#[test]
fn git_log_failures_that_mean_no_history() {
    assert!(git_log_means_no_history("fatal: bad revision 'alps/x..main'"));
    assert!(git_log_means_no_history("fatal: ambiguous argument 'alps/x..main': unknown revision"));
    assert!(git_log_means_no_history("fatal: your current branch 'main' does not have any commits yet"));
    assert!(!git_log_means_no_history("fatal: not a git repository"));
    assert!(!git_log_means_no_history(""));
}

#[test]
fn commit_range_names_the_task_branch() {
    assert_eq!(commit_range("2026-08-26T100000-abc"), "alps/2026-08-26T100000-abc..main");
}

#[test]
fn commits_to_render_caps_and_counts_the_rest() {
    let commits: Vec<CommitDiff> = (0..105).map(|i| make_commit(&format!("{i:07}"), "m", "")).collect();
    let (visible, hidden) = commits_to_render(commits);
    assert_eq!(visible.len(), MAX_COMMITS_TO_RENDER);
    assert_eq!(hidden, 5);
    assert_eq!(visible[99].sha, "0000099");
    let (few, none) = commits_to_render(vec![make_commit("a", "m", "")]);
    assert_eq!(few.len(), 1);
    assert_eq!(none, 0);
}
