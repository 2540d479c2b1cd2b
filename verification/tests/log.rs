use alps_ui::log::{
    append_capped, filter_lines, next_cursor, tail_lines, LogLine, MAX_BUFFERED_LINES, MAX_LINES_PER_POLL,
};

fn make_line(n: u64, text: &str) -> LogLine {
    LogLine::new(n, text.to_string())
}

fn fixture(lines: &[&str]) -> Vec<Result<String, String>> {
    lines.iter().enumerate().map(|(i, l)| Ok(format!("line{i}: {l}"))).collect()
}

#[test]
fn next_cursor_empty_buffer_returns_zero() {
    let buf: Vec<LogLine> = Vec::new();
    assert_eq!(next_cursor(&buf), 0, "empty buffer must start at line 0");
}

#[test]
fn next_cursor_non_empty_returns_last_line_no_plus_one() {
    let buf = vec![make_line(0, "a"), make_line(1, "b"), make_line(2, "c")];
    assert_eq!(next_cursor(&buf), 3);
}

#[test]
fn next_cursor_after_truncation_uses_line_no_not_position() {
    let buf: Vec<LogLine> = (500..1500).map(|i| make_line(i, "x")).collect();
    assert_eq!(buf.len(), 1000, "buf should be 1000 lines (capped)");
    assert_eq!(next_cursor(&buf), 1500, "next cursor must be 1500, NOT 1000");
}

#[test]
fn append_capped_truncates_front_on_overflow() {
    let mut buf: Vec<LogLine> =
        (0..MAX_BUFFERED_LINES as u64).map(|i| make_line(i, &format!("old-{i}"))).collect();
    let fresh = vec![
        make_line(MAX_BUFFERED_LINES as u64, "new-0"),
        make_line((MAX_BUFFERED_LINES + 1) as u64, "new-1"),
        make_line((MAX_BUFFERED_LINES + 2) as u64, "new-2"),
        make_line((MAX_BUFFERED_LINES + 3) as u64, "new-3"),
        make_line((MAX_BUFFERED_LINES + 4) as u64, "new-4"),
    ];
    append_capped(&mut buf, fresh);
    assert_eq!(buf.len(), MAX_BUFFERED_LINES);
    assert_eq!(buf[0].text, "old-5");
    assert_eq!(buf[MAX_BUFFERED_LINES - 1].text, "new-4");
}

#[test]
fn append_capped_no_truncate_under_limit() {
    let mut buf: Vec<LogLine> = Vec::new();
    append_capped(&mut buf, vec![make_line(0, "a"), make_line(1, "b")]);
    assert_eq!(buf.len(), 2);
    assert_eq!(buf[0].text, "a");
    assert_eq!(buf[1].text, "b");
}

#[test]
fn tail_file_missing_returns_empty() {
    // A missing file reads as no lines at all.
    let result = tail_lines(&Vec::new(), 0).expect("no lines = Ok");
    assert!(result.is_empty());
}

#[test]
fn tail_file_full_read_from_zero() {
    let result = tail_lines(&fixture(&["alpha", "beta", "gamma"]), 0).expect("read fixture");
    assert_eq!(result.len(), 3);
    assert_eq!(result[0], LogLine::new(0, "line0: alpha".to_string()));
    assert_eq!(result[1], LogLine::new(1, "line1: beta".to_string()));
    assert_eq!(result[2], LogLine::new(2, "line2: gamma".to_string()));
}

#[test]
fn tail_file_cursor_skips_seen_lines() {
    let result = tail_lines(&fixture(&["a", "b", "c", "d"]), 2).expect("read with cursor");
    assert_eq!(result.len(), 2);
    assert_eq!(result[0].line_no, 2);
    assert_eq!(result[1].line_no, 3);
}

#[test]
fn tail_file_cursor_past_eof_returns_empty() {
    let result = tail_lines(&fixture(&["only"]), 99).expect("cursor past EOF");
    assert!(result.is_empty());
}

#[test]
fn tail_lines_caps_one_poll() {
    let lines: Vec<Result<String, String>> = (0..1200).map(|i| Ok(format!("l{i}"))).collect();
    let result = tail_lines(&lines, 100).expect("read");
    assert_eq!(result.len(), MAX_LINES_PER_POLL);
    assert_eq!(result[0].line_no, 100);
    assert_eq!(result[MAX_LINES_PER_POLL - 1].line_no, 599);
}

#[test]
fn tail_lines_reports_first_unreadable_line_in_window() {
    let lines = vec![
        Ok("a".to_string()),
        Err("stream did not contain valid UTF-8".to_string()),
        Ok("c".to_string()),
    ];
    assert_eq!(tail_lines(&lines, 0), Err((1, "stream did not contain valid UTF-8".to_string())));
    // An unreadable line before the cursor is never read.
    assert_eq!(tail_lines(&lines, 2), Ok(vec![LogLine::new(2, "c".to_string())]));
}

#[test]
fn polling_twice_advances_the_cursor_by_the_lines_read() {
    let file: Vec<Result<String, String>> = (0..700).map(|i| Ok(format!("l{i}"))).collect();
    let mut buf: Vec<LogLine> = Vec::new();
    for _ in 0..3 {
        let c = next_cursor(&buf);
        let fresh = tail_lines(&file, c).expect("read");
        let n = fresh.len() as u64;
        append_capped(&mut buf, fresh);
        assert_eq!(next_cursor(&buf), c + n);
    }
    assert_eq!(next_cursor(&buf), 700);
    assert_eq!(buf[0].line_no, 0);
}

#[test]
fn filter_lines_keeps_matching_lines_in_order() {
    let lines = vec![make_line(3, "error: a"), make_line(4, "ok"), make_line(5, "another error")];
    let kept = filter_lines(&lines, "error");
    assert_eq!(kept, vec![make_line(3, "error: a"), make_line(5, "another error")]);
    assert_eq!(filter_lines(&lines, ""), lines);
    assert!(filter_lines(&lines, "missing").is_empty());
}
