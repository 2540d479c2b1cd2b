//! Log tailing: the lines a poll returns from a log file, and the capped
//! in-memory buffer that the log page keeps per pane with its read cursor.

use vstd::prelude::*;
use crate::text::{chars_of, contains_chars, contains_seq, occurs_at};

verus! {

/// Maximum lines returned per poll.
pub const MAX_LINES_PER_POLL: usize = 500;

/// Maximum lines a log pane keeps in memory; the oldest are dropped first.
pub const MAX_BUFFERED_LINES: usize = 1000;

/// One line of a log file. `line_no` is the line's 0-indexed offset in the
/// file (not a sequence number: the file's first line is `line_no = 0`).
#[derive(Debug, Clone, PartialEq, Eq)]
pub struct LogLine {
    pub line_no: u64,
    pub text: String,
}

impl View for LogLine {
    type V = (u64, Seq<char>);

    open spec fn view(&self) -> (u64, Seq<char>) {
        (self.line_no, self.text@)
    }
}

impl LogLine {
    pub fn new(line_no: u64, text: String) -> (l: LogLine)
        ensures
            l.line_no == line_no,
            l.text == text,
    {
        LogLine { line_no, text }
    }
}

/// The views of a sequence of log lines.
pub open spec fn lines_view(v: Seq<LogLine>) -> Seq<(u64, Seq<char>)> {
    v.map_values(|l: LogLine| l@)
}

/// The end of the poll window that starts at `since` in a file of `len` lines.
pub open spec fn window_end(len: int, since: int) -> int {
    if since >= len {
        since
    } else if since + MAX_LINES_PER_POLL <= len {
        since + MAX_LINES_PER_POLL
    } else {
        len
    }
}

/// The first line in `[lo, hi)` that could not be read.
pub open spec fn first_unreadable(lines: Seq<Result<String, String>>, lo: int, hi: int) -> Option<int>
    decreases hi - lo,
{
    if lo >= hi {
        None
    } else if lines[lo] is Err {
        Some(lo)
    } else {
        first_unreadable(lines, lo + 1, hi)
    }
}

/// The text of a line that was read.
pub open spec fn read_text(r: Result<String, String>) -> Seq<char> {
    match r {
        Ok(t) => t@,
        Err(_) => Seq::empty(),
    }
}

/// The lines one poll returns: those of the window `[since, window_end)`,
/// each numbered by its offset in the file.
pub open spec fn tailed_lines(lines: Seq<Result<String, String>>, since: int) -> Seq<(u64, Seq<char>)> {
    let e = window_end(lines.len() as int, since);
    Seq::new(
        (if e > since { e - since } else { 0 }) as nat,
        |k: int| ((since + k) as u64, read_text(lines[since + k])),
    )
}

proof fn lemma_first_unreadable_step(lines: Seq<Result<String, String>>, lo: int, mid: int, hi: int)
    requires
        lo <= mid < hi,
        first_unreadable(lines, lo, mid) is None,
        lines[mid] is Ok,
    ensures
        first_unreadable(lines, lo, mid + 1) is None,
    decreases mid - lo,
{
    if lo < mid {
        lemma_first_unreadable_step(lines, lo + 1, mid, hi);
    } else {
        assert(first_unreadable(lines, mid + 1, mid + 1) is None);
    }
}

proof fn lemma_first_unreadable_hit(lines: Seq<Result<String, String>>, lo: int, mid: int, hi: int)
    requires
        lo <= mid < hi,
        first_unreadable(lines, lo, mid) is None,
        lines[mid] is Err,
    ensures
        first_unreadable(lines, lo, hi) == Some(mid),
    decreases mid - lo,
{
    if lo < mid {
        lemma_first_unreadable_hit(lines, lo + 1, mid, hi);
    }
}

/// The lines of one poll of a log file whose lines, as read, are `lines`:
/// starting at offset `since_line_no`, at most `MAX_LINES_PER_POLL` of them.
/// A cursor at or past the end gives no lines. A line that could not be
/// read inside the window is an error naming its offset; one outside the
/// window is never looked at.
pub fn tail_lines(lines: &Vec<Result<String, String>>, since_line_no: u64) -> (r: Result<
    Vec<LogLine>,
    (u64, String),
>)
    ensures
        ({
            let since = since_line_no as int;
            let e = window_end(lines@.len() as int, since);
            match r {
                Ok(out) => {
                    &&& first_unreadable(lines@, since, e) is None
                    &&& lines_view(out@) == tailed_lines(lines@, since)
                },
                Err((n, msg)) => {
                    &&& first_unreadable(lines@, since, e) == Some(n as int)
                    &&& lines@[n as int] == Err::<String, String>(msg)
                },
            }
        }),
{
    let len = lines.len();
    let ghost since = since_line_no as int;
    let ghost e = window_end(len as int, since);
    let mut out: Vec<LogLine> = Vec::new();
    if since_line_no >= len as u64 {
        proof {
            assert(lines_view(out@) =~= tailed_lines(lines@, since));
        }
        return Ok(out);
    }
    let start = since_line_no as usize;
    let mut idx: usize = start;
    while idx < len && out.len() < MAX_LINES_PER_POLL
        invariant
            len == lines@.len(),
            start as int == since,
            since == since_line_no as int,
            since < len,
            e == window_end(len as int, since),
            start <= idx <= len,
            out@.len() == idx - start,
            idx <= e,
            first_unreadable(lines@, since, idx as int) is None,
            forall|k: int|
                0 <= k < out@.len() ==> (#[trigger] out@[k])@ == ((since + k) as u64, read_text(
                    lines@[since + k],
                )),
        decreases len - idx,
    {
        match &lines[idx] {
            Ok(t) => {
                proof {
                    lemma_first_unreadable_step(lines@, since, idx as int, e);
                }
                out.push(LogLine { line_no: idx as u64, text: t.clone() });
            },
            Err(msg) => {
                proof {
                    lemma_first_unreadable_hit(lines@, since, idx as int, e);
                }
                let m = msg.clone();
                assert(lines@[idx as int] == Err::<String, String>(m));
                assert(first_unreadable(lines@, since, e) == Some(idx as int));
                return Err((idx as u64, m));
            },
        }
        idx = idx + 1;
    }
    proof {
        assert(idx == e);
        assert(lines_view(out@) =~= tailed_lines(lines@, since));
    }
    Ok(out)
}

/// The offset of the first line not yet in the buffer `b`: one past its last
/// line, or the start of the file for an empty buffer.
pub open spec fn cursor_after(b: Seq<LogLine>) -> int {
    if b.len() == 0 {
        0
    } else {
        b.last().line_no + 1
    }
}

/// What a buffer holds after `fresh` lines arrive: all of them appended,
/// then the oldest dropped until at most `MAX_BUFFERED_LINES` remain.
pub open spec fn capped(b: Seq<LogLine>, fresh: Seq<LogLine>) -> Seq<LogLine> {
    let all = b + fresh;
    if all.len() > MAX_BUFFERED_LINES {
        all.skip(all.len() - MAX_BUFFERED_LINES)
    } else {
        all
    }
}

/// The lines of `b` are numbered `start, start + 1, ...`.
pub open spec fn numbered_from(b: Seq<LogLine>, start: int) -> bool {
    forall|k: int| 0 <= k < b.len() ==> (#[trigger] b[k]).line_no == start + k
}

/// The lines of `b` carry consecutive file offsets.
pub open spec fn consecutive(b: Seq<LogLine>) -> bool {
    b.len() == 0 || numbered_from(b, b[0].line_no as int)
}

/// The offset the next poll of a pane starts at: one past the last
/// buffered line's offset (not the buffer's length, which stops matching
/// the file once the oldest lines have been dropped), or 0 for an empty
/// buffer.
pub fn next_cursor(buf: &[LogLine]) -> (c: u64)
    requires
        buf@.len() > 0 ==> buf@.last().line_no < u64::MAX,
    ensures
        c as int == cursor_after(buf@),
{
    if buf.len() == 0 {
        0
    } else {
        buf[buf.len() - 1].line_no + 1
    }
}

/// Appends `new_lines` to `buf`, then drops lines from the front until at
/// most `MAX_BUFFERED_LINES` remain. Nothing is deduplicated.
pub fn append_capped(buf: &mut Vec<LogLine>, new_lines: Vec<LogLine>)
    ensures
        final(buf)@ == capped(old(buf)@, new_lines@),
{
    let mut new_lines = new_lines;
    buf.append(&mut new_lines);
    if buf.len() > MAX_BUFFERED_LINES {
        let excess = buf.len() - MAX_BUFFERED_LINES;
        let kept = buf.split_off(excess);
        *buf = kept;
    }
}

/// Lines numbered from `start` keep consecutive numbers from the first kept
/// line when some are dropped from the front.
proof fn lemma_numbered_skip(b: Seq<LogLine>, start: int, n: int)
    requires
        numbered_from(b, start),
        0 <= n <= b.len(),
    ensures
        numbered_from(b.skip(n), start + n),
{
    assert forall|k: int| 0 <= k < b.skip(n).len() implies (#[trigger] b.skip(n)[k]).line_no == start
        + n + k by {
        assert(b.skip(n)[k] == b[n + k]);
    }
}

/// The log pane's cursor law. When a pane's buffer carries consecutive file
/// offsets and a poll from its cursor returns the next lines of the file,
/// then after they are appended (and the oldest dropped) the buffer still
/// carries consecutive offsets, holds at most `MAX_BUFFERED_LINES` lines,
/// and its cursor has advanced by exactly the number of lines the poll
/// returned, however many were dropped.
pub proof fn law_cursor_advances_by_lines_read(
    buf: Seq<LogLine>,
    file: Seq<Result<String, String>>,
    fresh: Seq<LogLine>,
)
    requires
        consecutive(buf),
        file.len() < u64::MAX,
        cursor_after(buf) <= u64::MAX,
        lines_view(fresh) == tailed_lines(file, cursor_after(buf)),
    ensures
        consecutive(capped(buf, fresh)),
        capped(buf, fresh).len() <= MAX_BUFFERED_LINES,
        cursor_after(capped(buf, fresh)) == cursor_after(buf) + fresh.len(),
{
    let c = cursor_after(buf);
    let e = window_end(file.len() as int, c);
    assert(lines_view(fresh).len() == fresh.len());
    assert(fresh.len() == (if e > c { e - c } else { 0 }));
    assert forall|k: int| 0 <= k < fresh.len() implies (#[trigger] fresh[k]).line_no == c + k by {
        assert(lines_view(fresh)[k] == fresh[k]@);
        assert(c + k < file.len());
        assert(tailed_lines(file, c)[k].0 == (c + k) as u64);
    }
    let all = buf + fresh;
    let start: int = if buf.len() == 0 { 0 } else { buf[0].line_no as int };
    assert(numbered_from(all, start)) by {
        assert forall|k: int| 0 <= k < all.len() implies (#[trigger] all[k]).line_no == start + k by {
            if k < buf.len() {
                assert(all[k] == buf[k]);
            } else {
                assert(all[k] == fresh[k - buf.len()]);
            }
        }
    }
    if all.len() > MAX_BUFFERED_LINES {
        let n = all.len() - MAX_BUFFERED_LINES;
        lemma_numbered_skip(all, start, n);
        assert(capped(buf, fresh) == all.skip(n));
        assert(all.skip(n)[0].line_no == start + n);
    } else if all.len() > 0 {
        assert(all[0].line_no == start);
    }
}

/// The lines of `v` whose text contains `query`, in order.
pub open spec fn matching_lines(v: Seq<(u64, Seq<char>)>, query: Seq<char>) -> Seq<(u64, Seq<char>)>
    decreases v.len(),
{
    if v.len() == 0 {
        v
    } else {
        let rest = matching_lines(v.drop_last(), query);
        if contains_seq(v.last().1, query) {
            rest.push(v.last())
        } else {
            rest
        }
    }
}

/// A copy of a log line.
fn copy_line(l: &LogLine) -> (c: LogLine)
    ensures
        c@ == l@,
{
    LogLine::new(l.line_no, l.text.clone())
}

/// The lines a pane shows for the filter `query`: all of them when the
/// query is empty, else those whose text contains it.
pub fn filter_lines(lines: &[LogLine], query: &str) -> (r: Vec<LogLine>)
    ensures
        lines_view(r@) == if query@.len() == 0 {
            lines_view(lines@)
        } else {
            matching_lines(lines_view(lines@), query@)
        },
{
    let q = chars_of(query);
    let empty = query.is_empty();
    let ghost all = lines_view(lines@);
    let mut r: Vec<LogLine> = Vec::new();
    let mut i: usize = 0;
    while i < lines.len()
        invariant
            i <= lines@.len(),
            q@ == query@,
            empty == (query@.len() == 0),
            all == lines_view(lines@),
            lines_view(r@) == if empty {
                all.take(i as int)
            } else {
                matching_lines(all.take(i as int), query@)
            },
        decreases lines@.len() - i,
    {
        let l = &lines[i];
        let ghost before = lines_view(r@);
        assert(all.take(i + 1).drop_last() =~= all.take(i as int));
        assert(all.take(i + 1).last() == l@);
        let text = chars_of(l.text.as_str());
        if empty || contains_chars(text.as_slice(), q.as_slice()) {
            r.push(copy_line(l));
            assert(lines_view(r@) =~= before.push(l@));
        }
        assert(all.take(i as int).push(l@) =~= all.take(i + 1));
        i = i + 1;
    }
    assert(all.take(lines@.len() as int) =~= all);
    r
}

/// Every text contains the empty text, so an empty filter would keep every
/// line even if it were applied.
pub proof fn law_empty_filter_keeps_every_line(v: Seq<(u64, Seq<char>)>)
    ensures
        matching_lines(v, Seq::<char>::empty()) == v,
    decreases v.len(),
{
    if v.len() > 0 {
        law_empty_filter_keeps_every_line(v.drop_last());
        assert(occurs_at(v.last().1, Seq::<char>::empty(), 0)) by {
            assert(v.last().1.subrange(0, 0) =~= Seq::<char>::empty());
        }
        assert(v.drop_last().push(v.last()) =~= v);
    }
}

/// Filtering keeps only lines that contain the query, each with its own
/// file offset, and never more lines than there were.
pub proof fn law_filter_keeps_only_matches(v: Seq<(u64, Seq<char>)>, query: Seq<char>)
    ensures
        matching_lines(v, query).len() <= v.len(),
        forall|k: int|
            0 <= k < matching_lines(v, query).len() ==> contains_seq(
                (#[trigger] matching_lines(v, query)[k]).1,
                query,
            ) && v.contains(matching_lines(v, query)[k]),
    decreases v.len(),
{
    if v.len() > 0 {
        let d = v.drop_last();
        law_filter_keeps_only_matches(d, query);
        let m = matching_lines(v, query);
        assert forall|k: int| 0 <= k < m.len() implies contains_seq((#[trigger] m[k]).1, query)
            && v.contains(m[k]) by {
            let md = matching_lines(d, query);
            if k < md.len() {
                assert(m[k] == md[k]);
                let j = choose|j: int| 0 <= j < d.len() && d[j] == md[k];
                assert(v[j] == d[j]);
            } else {
                assert(m[k] == v.last());
                assert(v[v.len() - 1] == v.last());
            }
        }
    }
}

/// The test a line passes to be kept under the filter `query`.
pub open spec fn mentions(query: Seq<char>) -> spec_fn((u64, Seq<char>)) -> bool {
    |l: (u64, Seq<char>)| contains_seq(l.1, query)
}

/// Filtering keeps exactly the lines whose text contains the query, found
/// anywhere in it, in their order: it is the sequence's own filter by
/// `contains_seq`, so every matching line is kept.
pub proof fn law_filter_keeps_exactly_the_matches(v: Seq<(u64, Seq<char>)>, query: Seq<char>)
    ensures
        matching_lines(v, query) == v.filter(mentions(query)),
        forall|k: int|
            0 <= k < v.len() && contains_seq(#[trigger] v[k].1, query) ==> matching_lines(
                v,
                query,
            ).contains(v[k]),
    decreases v.len(),
{
    reveal(Seq::filter);
    let pred = mentions(query);
    if v.len() > 0 {
        let d = v.drop_last();
        law_filter_keeps_exactly_the_matches(d, query);
        assert(matching_lines(v, query) == v.filter(pred));
        let m = matching_lines(v, query);
        assert forall|k: int| 0 <= k < v.len() && contains_seq(#[trigger] v[k].1, query) implies m.contains(
            v[k],
        ) by {
            if k == v.len() - 1 {
                assert(m[m.len() - 1] == v[k]);
            } else {
                assert(d[k] == v[k]);
                let md = matching_lines(d, query);
                let j = choose|j: int| 0 <= j < md.len() && md[j] == d[k];
                if contains_seq(v.last().1, query) {
                    assert(m[j] == md[j]);
                } else {
                    assert(m[j] == md[j]);
                }
            }
        }
    } else {
        assert(v.filter(pred) == v);
    }
}

/// A full pane drops only its oldest lines, and only as many as it must:
/// it keeps the newest `min(|buf| + |fresh|, 1000)` lines of the buffer
/// followed by the fresh lines, in order.
pub proof fn law_cap_drops_only_the_excess(buf: Seq<LogLine>, fresh: Seq<LogLine>)
    ensures
        ({
            let all = buf + fresh;
            let c = capped(buf, fresh);
            &&& c.len() == if all.len() > 1000 { 1000 } else { all.len() }
            &&& c == all.subrange(all.len() - c.len(), all.len() as int)
        }),
{
    let all = buf + fresh;
    let c = capped(buf, fresh);
    if all.len() > 1000 {
        assert(c =~= all.subrange(all.len() - 1000, all.len() as int));
    } else {
        assert(c =~= all.subrange(0, all.len() as int));
    }
}

/// Where every line from the cursor on could be read, a poll returns the
/// next lines of the file, at most 500, each with its own offset and its
/// text exactly as it was read.
pub proof fn law_poll_returns_the_lines_as_read(lines: Seq<Result<String, String>>, since: int)
    requires
        0 <= since,
        lines.len() <= u64::MAX,
        forall|i: int| since <= i < lines.len() ==> (#[trigger] lines[i]) is Ok,
    ensures
        ({
            let out = tailed_lines(lines, since);
            &&& out.len() == if since >= lines.len() {
                0
            } else if lines.len() - since > 500 {
                500
            } else {
                lines.len() - since
            }
            &&& forall|k: int|
                0 <= k < out.len() ==> (#[trigger] out[k]).0 == since + k && lines[since
                    + k] is Ok && out[k].1 == lines[since + k]->Ok_0@
        }),
{
    let out = tailed_lines(lines, since);
    assert forall|k: int| 0 <= k < out.len() implies (#[trigger] out[k]).0 == since + k && lines[since
        + k] is Ok && out[k].1 == lines[since + k]->Ok_0@ by {
        assert(since + k < lines.len());
        assert(lines[since + k] is Ok);
    }
}

} // verus!
