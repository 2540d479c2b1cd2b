//! The sample task list: one task in each state a task passes through in
//! normal operation.

use vstd::prelude::*;
use vstd::string::StringSliceAdditionalSpecFns;
use crate::calendar::{const_str_to_unix, unix_time};
use crate::domain::{TaskState, TaskSummary};

verus! {

broadcast use vstd::string::group_string_axioms;

/// A sample row: its id, state, attempts, creation and completion times.
pub open spec fn row_is(
    t: TaskSummary,
    id: Seq<char>,
    state: TaskState,
    attempts: u32,
    created_at: int,
    completed_at: Option<int>,
) -> bool {
    &&& t.task_id@ == id
    &&& t.state == state
    &&& t.attempts == attempts
    &&& t.created_at == created_at
    &&& match (t.completed_at, completed_at) {
        (Some(a), Some(b)) => a == b,
        (None, None) => true,
        _ => false,
    }
}

/// A prompt excerpt of a realistic size: ASCII, 20 to 200 characters.
pub open spec fn realistic_excerpt(s: Seq<char>) -> bool {
    &&& 20 <= s.len() <= 200
    &&& vstd::utf8::is_ascii_chars(s)
}

/// The seconds of a compact stamp, with the proof that it converts.
fn stamp(s: &str) -> (t: i64)
    requires
        s@.len() == 17,
        vstd::string::is_ascii(s),
        forall|i: int| 0 <= i < 17 && i != 4 && i != 7 && i != 10 ==> '0' <= #[trigger] s@[i] <= '9',
        s@[4] == '-' && s@[7] == '-' && s@[10] == 'T',
        ({
            let m = (s@[5] as int - 48) * 10 + (s@[6] as int - 48);
            let d = (s@[8] as int - 48) * 10 + (s@[9] as int - 48);
            let y = (s@[0] as int - 48) * 1000 + (s@[1] as int - 48) * 100 + (s@[2] as int - 48) * 10
                + (s@[3] as int - 48);
            crate::calendar::is_valid_date(y, m, d) && 1970 <= y <= 2100
        }),
    ensures
        t as int == unix_time(
            (s@[0] as int - 48) * 1000 + (s@[1] as int - 48) * 100 + (s@[2] as int - 48) * 10 + (
            s@[3] as int - 48),
            (s@[5] as int - 48) * 10 + (s@[6] as int - 48),
            (s@[8] as int - 48) * 10 + (s@[9] as int - 48),
            (s@[11] as int - 48) * 10 + (s@[12] as int - 48),
            (s@[13] as int - 48) * 10 + (s@[14] as int - 48),
            (s@[15] as int - 48) * 10 + (s@[16] as int - 48),
        ),
{
    proof {
        let b = s.spec_bytes();
        assert(b.len() == 17);
        assert forall|i: int| 0 <= i < 17 implies b[i] as int == s@[i] as int by {}
        assert forall|i: int| crate::calendar::is_stamp_digit_position(i) implies b[i] >= 48 by {
            assert(b[i] as int == s@[i] as int);
        }
        assert(crate::calendar::stamp_month(b) <= 12);
        assert(crate::calendar::is_convertible_stamp(b));
    }
    const_str_to_unix(s)
}


/// A row with only the fields every task has; the rest are unset.
fn row(task_id: String, state: TaskState, attempts: u32, prompt_excerpt: String, created_at: i64) -> (t: TaskSummary)
    ensures
        t.task_id == task_id,
        t.state == state,
        t.attempts == attempts,
        t.prompt_excerpt == prompt_excerpt,
        t.created_at == created_at,
        t.completed_at is None,
        t.stories_passed is None,
        t.stories_total is None,
        t.iterations is None,
        t.elapsed_secs is None,
        t.review_assertions_passed is None,
        t.review_assertions_total is None,
        t.critical_findings is None,
        t.judge_verdict is None,
        t.judge_model is None,
{
    TaskSummary {
        task_id,
        state,
        attempts,
        prompt_excerpt,
        created_at,
        completed_at: None,
        stories_passed: None,
        stories_total: None,
        iterations: None,
        elapsed_secs: None,
        review_assertions_passed: None,
        review_assertions_total: None,
        critical_findings: None,
        judge_verdict: None,
        judge_model: None,
    }
}

/// The sample task list: one row for each of the eight states a task passes
/// through in normal operation (none `Unknown`), with realistic prompt
/// excerpts; the finished rows (Done, Rejected, Failed) carry a completion
/// time no earlier than their creation time and their run's metrics, the
/// Done row all of them with an `ACCEPTED` verdict.
pub fn fixtures() -> (r: Vec<TaskSummary>)
    ensures
        r@.len() == 8,
        row_is(r@[0], "2026-08-24T003012-1a2b3c4d"@, TaskState::Idle, 0, unix_time(2026, 8, 24, 0, 30, 12), None),
        row_is(r@[1], "2026-08-24T001547-5e6f7a8b"@, TaskState::Planned, 1, unix_time(2026, 8, 24, 0, 15, 47), None),
        row_is(r@[2], "2026-08-23T225612-9c0d1e2f"@, TaskState::Implemented, 1, unix_time(2026, 8, 23, 22, 56, 12), None),
        row_is(r@[3], "2026-08-23T213304-3a4b5c6d"@, TaskState::Reviewed, 1, unix_time(2026, 8, 23, 21, 33, 4), None),
        row_is(r@[4], "2026-08-23T195821-7e8f9a0b"@, TaskState::Running, 2, unix_time(2026, 8, 23, 19, 58, 21), None),
        row_is(r@[5], "2026-08-23T181045-1c2b3d4e"@, TaskState::Done, 1, unix_time(2026, 8, 23, 18, 10, 45), Some(unix_time(2026, 8, 23, 18, 23, 17))),
        row_is(r@[6], "2026-08-23T160228-5a6b7c8d"@, TaskState::Rejected, 1, unix_time(2026, 8, 23, 16, 2, 28), Some(unix_time(2026, 8, 23, 16, 19, 2))),
        row_is(r@[7], "2026-08-23T134517-9e0f1a2b"@, TaskState::Failed, 1, unix_time(2026, 8, 23, 13, 45, 17), Some(unix_time(2026, 8, 23, 13, 50, 44))),
        forall|k: int| 0 <= k < 8 ==> realistic_excerpt((#[trigger] r@[k]).prompt_excerpt@),
        forall|k: int| 0 <= k < 8 ==> (#[trigger] r@[k]).state != TaskState::Unknown,
        forall|k: int|
            0 <= k < 8 ==> ((#[trigger] r@[k]).completed_at is Some <==> r@[k].state.is_terminal()),
        forall|k: int|
            0 <= k < 8 && (#[trigger] r@[k]).completed_at is Some ==> r@[k].completed_at->0 >= r@[k].created_at,
        r@[5].stories_passed == Some(4u32),
        r@[5].stories_total == Some(4u32),
        r@[5].iterations == Some(3u32),
        r@[5].elapsed_secs == Some(7320u64),
        r@[5].review_assertions_passed == Some(7u32),
        r@[5].review_assertions_total == Some(7u32),
        r@[5].critical_findings == Some(0u32),
        r@[5].judge_verdict matches Some(v) && v@ == "ACCEPTED"@,
        r@[5].judge_model matches Some(v) && v@ == "gpt-5-mini"@,
        r@[6].judge_verdict matches Some(v) && v@ == "REJECTED"@,
        r@[7].judge_verdict matches Some(v) && v@ == "FAILED"@,
        r@[0].prompt_excerpt@ == "Refactor the metrics aggregator to stream values incrementally instead of buffering in memory."@,
        r@[1].prompt_excerpt@ == "Add a settings page so users can change the workdir without restarting the app."@,
        r@[2].prompt_excerpt@ == "Migrate the persistence layer from bincode to postcard so cross-version reads work."@,
        r@[3].prompt_excerpt@ == "Wire the cancellation token through every long-running tokio task so shutdown is clean."@,
        r@[4].prompt_excerpt@ == "Render a responsive Kanban view in the Dashboard so users can drag tasks between columns."@,
        r@[5].prompt_excerpt@ == "Add structured logging with tracing-subscriber so each task gets a request-scoped span."@,
        r@[6].prompt_excerpt@ == "Replace the bespoke retry policy with a backoff library; reset Rejected tasks on retry."@,
        r@[7].prompt_excerpt@ == "Investigate the OOM crash when reading receipt bundles >500MB from cold storage."@,
        forall|k: int|
            0 <= k < 5 ==> {
                let t = #[trigger] r@[k];
                &&& t.stories_passed is None
                &&& t.stories_total is None
                &&& t.iterations is None
                &&& t.elapsed_secs is None
                &&& t.review_assertions_passed is None
                &&& t.review_assertions_total is None
                &&& t.critical_findings is None
                &&& t.judge_verdict is None
                &&& t.judge_model is None
            },
        r@[6].stories_passed is None,
        r@[6].stories_total is None,
        r@[6].iterations == Some(2u32),
        r@[6].elapsed_secs == Some(5124u64),
        r@[6].review_assertions_passed == Some(3u32),
        r@[6].review_assertions_total == Some(6u32),
        r@[6].critical_findings == Some(2u32),
        r@[6].judge_model matches Some(v) && v@ == "gpt-5-mini"@,
        r@[7].stories_passed is None,
        r@[7].stories_total is None,
        r@[7].iterations == Some(1u32),
        r@[7].elapsed_secs == Some(527u64),
        r@[7].review_assertions_passed is None,
        r@[7].review_assertions_total is None,
        r@[7].critical_findings is None,
        r@[7].judge_model is None,
{
    let mut v: Vec<TaskSummary> = Vec::new();
    proof {
        reveal_strlit("2026-08-24T003012");
        reveal_strlit("Refactor the metrics aggregator to stream values incrementally instead of buffering in memory.");
        assert(vstd::string::is_ascii("2026-08-24T003012"));
        assert(vstd::string::is_ascii("Refactor the metrics aggregator to stream values incrementally instead of buffering in memory."));
    }
    let created_0 = stamp("2026-08-24T003012");
    let excerpt_0 = "Refactor the metrics aggregator to stream values incrementally instead of buffering in memory.".to_owned();
    v.push(row("2026-08-24T003012-1a2b3c4d".to_owned(), TaskState::Idle, 0, excerpt_0, created_0));
    proof {
        reveal_strlit("2026-08-24T001547");
        reveal_strlit("Add a settings page so users can change the workdir without restarting the app.");
        assert(vstd::string::is_ascii("2026-08-24T001547"));
        assert(vstd::string::is_ascii("Add a settings page so users can change the workdir without restarting the app."));
    }
    let created_1 = stamp("2026-08-24T001547");
    let excerpt_1 = "Add a settings page so users can change the workdir without restarting the app.".to_owned();
    v.push(row("2026-08-24T001547-5e6f7a8b".to_owned(), TaskState::Planned, 1, excerpt_1, created_1));
    proof {
        reveal_strlit("2026-08-23T225612");
        reveal_strlit("Migrate the persistence layer from bincode to postcard so cross-version reads work.");
        assert(vstd::string::is_ascii("2026-08-23T225612"));
        assert(vstd::string::is_ascii("Migrate the persistence layer from bincode to postcard so cross-version reads work."));
    }
    let created_2 = stamp("2026-08-23T225612");
    let excerpt_2 = "Migrate the persistence layer from bincode to postcard so cross-version reads work.".to_owned();
    v.push(row("2026-08-23T225612-9c0d1e2f".to_owned(), TaskState::Implemented, 1, excerpt_2, created_2));
    proof {
        reveal_strlit("2026-08-23T213304");
        reveal_strlit("Wire the cancellation token through every long-running tokio task so shutdown is clean.");
        assert(vstd::string::is_ascii("2026-08-23T213304"));
        assert(vstd::string::is_ascii("Wire the cancellation token through every long-running tokio task so shutdown is clean."));
    }
    let created_3 = stamp("2026-08-23T213304");
    let excerpt_3 = "Wire the cancellation token through every long-running tokio task so shutdown is clean.".to_owned();
    v.push(row("2026-08-23T213304-3a4b5c6d".to_owned(), TaskState::Reviewed, 1, excerpt_3, created_3));
    proof {
        reveal_strlit("2026-08-23T195821");
        reveal_strlit("Render a responsive Kanban view in the Dashboard so users can drag tasks between columns.");
        assert(vstd::string::is_ascii("2026-08-23T195821"));
        assert(vstd::string::is_ascii("Render a responsive Kanban view in the Dashboard so users can drag tasks between columns."));
    }
    let created_4 = stamp("2026-08-23T195821");
    let excerpt_4 = "Render a responsive Kanban view in the Dashboard so users can drag tasks between columns.".to_owned();
    v.push(row("2026-08-23T195821-7e8f9a0b".to_owned(), TaskState::Running, 2, excerpt_4, created_4));
    proof {
        reveal_strlit("2026-08-23T181045");
        reveal_strlit("Add structured logging with tracing-subscriber so each task gets a request-scoped span.");
        reveal_strlit("2026-08-23T182317");
        assert(vstd::string::is_ascii("2026-08-23T181045"));
        assert(vstd::string::is_ascii("Add structured logging with tracing-subscriber so each task gets a request-scoped span."));
        assert(vstd::string::is_ascii("2026-08-23T182317"));
    }
    let created_5 = stamp("2026-08-23T181045");
    let completed_5 = stamp("2026-08-23T182317");
    let excerpt_5 = "Add structured logging with tracing-subscriber so each task gets a request-scoped span.".to_owned();
    v.push(TaskSummary {
        task_id: "2026-08-23T181045-1c2b3d4e".to_owned(),
        state: TaskState::Done,
        attempts: 1,
        prompt_excerpt: excerpt_5,
        created_at: created_5,
        completed_at: Some(completed_5),
        stories_passed: Some(4),
        stories_total: Some(4),
        iterations: Some(3),
        elapsed_secs: Some(7320),
        review_assertions_passed: Some(7),
        review_assertions_total: Some(7),
        critical_findings: Some(0),
        judge_verdict: Some("ACCEPTED".to_owned()),
        judge_model: Some("gpt-5-mini".to_owned()),
    });
    proof {
        reveal_strlit("2026-08-23T160228");
        reveal_strlit("Replace the bespoke retry policy with a backoff library; reset Rejected tasks on retry.");
        reveal_strlit("2026-08-23T161902");
        assert(vstd::string::is_ascii("2026-08-23T160228"));
        assert(vstd::string::is_ascii("Replace the bespoke retry policy with a backoff library; reset Rejected tasks on retry."));
        assert(vstd::string::is_ascii("2026-08-23T161902"));
    }
    let created_6 = stamp("2026-08-23T160228");
    let completed_6 = stamp("2026-08-23T161902");
    let excerpt_6 = "Replace the bespoke retry policy with a backoff library; reset Rejected tasks on retry.".to_owned();
    v.push(TaskSummary {
        task_id: "2026-08-23T160228-5a6b7c8d".to_owned(),
        state: TaskState::Rejected,
        attempts: 1,
        prompt_excerpt: excerpt_6,
        created_at: created_6,
        completed_at: Some(completed_6),
        stories_passed: None,
        stories_total: None,
        iterations: Some(2),
        elapsed_secs: Some(5124),
        review_assertions_passed: Some(3),
        review_assertions_total: Some(6),
        critical_findings: Some(2),
        judge_verdict: Some("REJECTED".to_owned()),
        judge_model: Some("gpt-5-mini".to_owned()),
    });
    proof {
        reveal_strlit("2026-08-23T134517");
        reveal_strlit("Investigate the OOM crash when reading receipt bundles >500MB from cold storage.");
        reveal_strlit("2026-08-23T135044");
        assert(vstd::string::is_ascii("2026-08-23T134517"));
        assert(vstd::string::is_ascii("Investigate the OOM crash when reading receipt bundles >500MB from cold storage."));
        assert(vstd::string::is_ascii("2026-08-23T135044"));
    }
    let created_7 = stamp("2026-08-23T134517");
    let completed_7 = stamp("2026-08-23T135044");
    let excerpt_7 = "Investigate the OOM crash when reading receipt bundles >500MB from cold storage.".to_owned();
    v.push(TaskSummary {
        task_id: "2026-08-23T134517-9e0f1a2b".to_owned(),
        state: TaskState::Failed,
        attempts: 1,
        prompt_excerpt: excerpt_7,
        created_at: created_7,
        completed_at: Some(completed_7),
        stories_passed: None,
        stories_total: None,
        iterations: Some(1),
        elapsed_secs: Some(527),
        review_assertions_passed: None,
        review_assertions_total: None,
        critical_findings: None,
        judge_verdict: Some("FAILED".to_owned()),
        judge_model: None,
    });
    v
}

} // verus!
