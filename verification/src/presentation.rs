//! How the console labels and colours what it shows: task states, review
//! findings, assertion results, story progress, and the path of a page
//! that does not exist.

use vstd::prelude::*;
use crate::domain::{Severity, TaskState};

verus! {

/// The label of a task state's pill.
pub open spec fn state_label(s: TaskState) -> Seq<char> {
    match s {
        TaskState::Running => "Running"@,
        TaskState::Idle => "Idle"@,
        TaskState::Planned => "Planned"@,
        TaskState::Implemented => "Implemented"@,
        TaskState::Reviewed => "Reviewed"@,
        TaskState::Done => "Done"@,
        TaskState::Rejected => "Rejected"@,
        TaskState::Failed => "Failed"@,
        TaskState::Unknown => "Unknown"@,
    }
}

/// The background class of a task state's pill: amber while work is under
/// way or awaits judgement, slate while idle, emerald when done, rose when
/// rejected or failed, orange when the state is unknown.
pub open spec fn state_colour(s: TaskState) -> Seq<char> {
    match s {
        TaskState::Running => "bg-amber-500"@,
        TaskState::Idle => "bg-slate-400"@,
        TaskState::Planned => "bg-slate-400"@,
        TaskState::Implemented => "bg-slate-400"@,
        TaskState::Reviewed => "bg-amber-500"@,
        TaskState::Done => "bg-emerald-500"@,
        TaskState::Rejected => "bg-rose-500"@,
        TaskState::Failed => "bg-rose-700"@,
        TaskState::Unknown => "bg-orange-500"@,
    }
}

/// The label and background class of the pill that shows a task's state.
pub fn status_pill(state: TaskState) -> (r: (&'static str, &'static str))
    ensures
        r.0@ == state_label(state),
        r.1@ == state_colour(state),
{
    match state {
        TaskState::Running => ("Running", "bg-amber-500"),
        TaskState::Idle => ("Idle", "bg-slate-400"),
        TaskState::Planned => ("Planned", "bg-slate-400"),
        TaskState::Implemented => ("Implemented", "bg-slate-400"),
        TaskState::Reviewed => ("Reviewed", "bg-amber-500"),
        TaskState::Done => ("Done", "bg-emerald-500"),
        TaskState::Rejected => ("Rejected", "bg-rose-500"),
        TaskState::Failed => ("Failed", "bg-rose-700"),
        TaskState::Unknown => ("Unknown", "bg-orange-500"),
    }
}

/// The label of a finding's severity pill.
pub open spec fn severity_label(s: Severity) -> Seq<char> {
    match s {
        Severity::Info => "Info"@,
        Severity::Warning => "Warning"@,
        Severity::Error => "Error"@,
        Severity::Critical => "Critical"@,
    }
}

/// The background class of a finding's severity pill.
pub open spec fn severity_colour(s: Severity) -> Seq<char> {
    match s {
        Severity::Info => "bg-slate-400"@,
        Severity::Warning => "bg-amber-500"@,
        Severity::Error => "bg-rose-500"@,
        Severity::Critical => "bg-rose-700"@,
    }
}

/// The label and background class of the pill that shows a finding's
/// severity.
pub fn severity_pill(severity: Severity) -> (r: (&'static str, &'static str))
    ensures
        r.0@ == severity_label(severity),
        r.1@ == severity_colour(severity),
{
    match severity {
        Severity::Info => ("Info", "bg-slate-400"),
        Severity::Warning => ("Warning", "bg-amber-500"),
        Severity::Error => ("Error", "bg-rose-500"),
        Severity::Critical => ("Critical", "bg-rose-700"),
    }
}

/// The mark and text class of an assertion's result: a green tick when it
/// passed, a red cross when it did not.
pub fn assertion_mark(passed: bool) -> (r: (&'static str, &'static str))
    ensures
        r.0@ == if passed { "✓"@ } else { "✗"@ },
        r.1@ == if passed { "text-emerald-500"@ } else { "text-rose-500"@ },
{
    if passed {
        ("✓", "text-emerald-500")
    } else {
        ("✗", "text-rose-500")
    }
}

/// The label and class of a story's progress pill: `Pass` in emerald once
/// the story passes, `Pending` in slate before.
pub fn story_pill(passes: bool) -> (r: (&'static str, &'static str))
    ensures
        r.0@ == if passes { "Pass"@ } else { "Pending"@ },
        r.1@ == if passes {
            "rounded-full px-2.5 py-0.5 text-xs font-medium text-white bg-emerald-500"@
        } else {
            "rounded-full px-2.5 py-0.5 text-xs font-medium text-white bg-slate-400"@
        },
{
    if passes {
        ("Pass", "rounded-full px-2.5 py-0.5 text-xs font-medium text-white bg-emerald-500")
    } else {
        ("Pending", "rounded-full px-2.5 py-0.5 text-xs font-medium text-white bg-slate-400")
    }
}

/// The segments joined by `/`.
pub open spec fn joined(segments: Seq<Seq<char>>) -> Seq<char>
    decreases segments.len(),
{
    if segments.len() == 0 {
        Seq::empty()
    } else if segments.len() == 1 {
        segments[0]
    } else {
        joined(segments.drop_last()) + seq!['/'] + segments.last()
    }
}

/// The path the not-found page names: `/` followed by the unmatched
/// segments joined by `/`, so `/` alone when there are none.
pub fn not_found_path(segments: &[String]) -> (r: String)
    ensures
        r@ == seq!['/'] + joined(segments@.map_values(|s: String| s@)),
{
    let ghost segs = segments@.map_values(|s: String| s@);
    let mut r = "/".to_owned();
    proof {
        reveal_strlit("/");
    }
    let mut i: usize = 0;
    while i < segments.len()
        invariant
            i <= segments@.len(),
            segs == segments@.map_values(|s: String| s@),
            r@ == seq!['/'] + joined(segs.take(i as int)),
        decreases segments@.len() - i,
    {
        assert(segs.take(i + 1).drop_last() =~= segs.take(i as int));
        assert(segs.take(i + 1).last() == segments@[i as int]@);
        if i > 0 {
            r.append("/");
        }
        r.append(segments[i].as_str());
        proof {
            reveal_strlit("/");
            if i == 0 {
                assert(segs.take(1).len() == 1);
                assert(r@ =~= seq!['/'] + joined(segs.take(1)));
            } else {
                assert(joined(segs.take(i + 1)) == joined(segs.take(i as int)) + seq!['/']
                    + segments@[i as int]@);
                assert(r@ =~= seq!['/'] + joined(segs.take(i + 1)));
            }
        }
        i = i + 1;
    }
    assert(segs.take(segments@.len() as int) =~= segs);
    r
}

} // verus!
