//! Commit history of a task's branch: parsing `git log` output into commits,
//! telling "no history yet" failures apart from real ones, and the few
//! renderings the diff page needs.

use vstd::prelude::*;
use vstd::string::StringSliceAdditionalSpecFns;
use crate::text::{
    blank_chars, chars_of, contains_seq, is_blank, is_white_space, str_contains, string_from_chars,
};

verus! {

/// The most commits the diff page renders; the rest are only counted.
pub const MAX_COMMITS_TO_RENDER: usize = 100;

/// One commit and its unified diff.
#[derive(Debug, Clone, PartialEq)]
pub struct CommitDiff {
    /// Full commit SHA.
    pub sha: String,
    /// Author name.
    pub author: String,
    /// ISO 8601 commit timestamp.
    pub timestamp: String,
    /// Subject line of the commit message.
    pub message: String,
    /// Unified diff; empty for merge or no-diff commits.
    pub patch: String,
}

impl View for CommitDiff {
    type V = (Seq<char>, Seq<char>, Seq<char>, Seq<char>, Seq<char>);

    open spec fn view(&self) -> (Seq<char>, Seq<char>, Seq<char>, Seq<char>, Seq<char>) {
        (self.sha@, self.author@, self.timestamp@, self.message@, self.patch@)
    }
}

/// The pieces of `s` between occurrences of `sep`, as `str::split` gives
/// them: one more piece than there are separators.
pub open spec fn split_on(s: Seq<char>, sep: char) -> Seq<Seq<char>>
    decreases s.len(),
{
    if s.len() == 0 {
        seq![Seq::empty()]
    } else {
        let prev = split_on(s.drop_last(), sep);
        if s.last() == sep {
            prev.push(Seq::empty())
        } else {
            prev.update(prev.len() - 1, prev.last().push(s.last()))
        }
    }
}

pub proof fn lemma_split_on_nonempty(s: Seq<char>, sep: char)
    ensures
        split_on(s, sep).len() >= 1,
    decreases s.len(),
{
    if s.len() > 0 {
        lemma_split_on_nonempty(s.drop_last(), sep);
    }
}

/// A line without the carriage return of a `\r\n` ending.
pub open spec fn strip_cr(l: Seq<char>) -> Seq<char> {
    if l.len() > 0 && l.last() == '\r' {
        l.drop_last()
    } else {
        l
    }
}

/// The lines of `s`, as `str::lines` gives them: split at `\n`, each line
/// that a `\n` ended without its `\r`, and no empty line after a final
/// line ending.
pub open spec fn lines_of(s: Seq<char>) -> Seq<Seq<char>> {
    let parts = split_on(s, '\n');
    let n = parts.len() - 1;
    let ended = Seq::new(n as nat, |k: int| strip_cr(parts[k]));
    if parts.last().len() == 0 {
        ended
    } else {
        ended.push(parts.last())
    }
}

/// The views of a vector of character vectors.
pub open spec fn pieces_view(v: Seq<Vec<char>>) -> Seq<Seq<char>> {
    v.map_values(|x: Vec<char>| x@)
}

/// Splits `s` at every `sep`.
pub fn split_chars(s: &[char], sep: char) -> (r: Vec<Vec<char>>)
    ensures
        pieces_view(r@) == split_on(s@, sep),
{
    let mut pieces: Vec<Vec<char>> = Vec::new();
    let mut cur: Vec<char> = Vec::new();
    let mut i: usize = 0;
    while i < s.len()
        invariant
            i <= s@.len(),
            pieces_view(pieces@).push(cur@) == split_on(s@.take(i as int), sep),
        decreases s@.len() - i,
    {
        let c = s[i];
        proof {
            let t = s@.take(i + 1);
            assert(t.drop_last() =~= s@.take(i as int));
            assert(t.last() == c);
            lemma_split_on_nonempty(s@.take(i as int), sep);
        }
        let ghost pv = pieces_view(pieces@);
        if c == sep {
            let done = cur;
            pieces.push(done);
            cur = Vec::new();
            proof {
                assert(pieces_view(pieces@) =~= pv.push(done@));
                assert(pieces_view(pieces@).push(cur@) =~= pv.push(done@).push(Seq::empty()));
            }
        } else {
            cur.push(c);
            proof {
                let prev = split_on(s@.take(i as int), sep);
                assert(pieces_view(pieces@).push(cur@) =~= prev.update(
                    prev.len() - 1,
                    prev.last().push(c),
                ));
            }
        }
        i = i + 1;
    }
    let ghost pv = pieces_view(pieces@);
    let ghost last = cur@;
    pieces.push(cur);
    proof {
        assert(s@.take(s@.len() as int) =~= s@);
        assert(pieces_view(pieces@) =~= pv.push(last));
    }
    pieces
}

/// `l` without the carriage return of a `\r\n` ending.
fn strip_cr_exec(l: Vec<char>) -> (r: Vec<char>)
    ensures
        r@ == strip_cr(l@),
{
    let mut l = l;
    if l.len() > 0 && l[l.len() - 1] == '\r' {
        l.pop();
    }
    l
}

/// The lines of `s`, as `str::lines` gives them.
pub fn lines_chars(s: &[char]) -> (r: Vec<Vec<char>>)
    ensures
        pieces_view(r@) == lines_of(s@),
{
    let parts = split_chars(s, '\n');
    proof {
        lemma_split_on_nonempty(s@, '\n');
    }
    let n = parts.len() - 1;
    let mut out: Vec<Vec<char>> = Vec::new();
    let mut k: usize = 0;
    while k < n
        invariant
            n == parts@.len() - 1,
            pieces_view(parts@) == split_on(s@, '\n'),
            k <= n,
            out@.len() == k,
            forall|j: int| 0 <= j < k ==> (#[trigger] out@[j])@ == strip_cr(parts@[j]@),
        decreases n - k,
    {
        let p = parts[k].clone();
        assert(p@ == parts@[k as int]@);
        out.push(strip_cr_exec(p));
        k = k + 1;
    }
    let last = parts[n].clone();
    let ghost parts_v = split_on(s@, '\n');
    assert(last@ == parts_v.last());
    let ghost ended = Seq::new(n as nat, |j: int| strip_cr(parts_v[j]));
    proof {
        assert forall|j: int| 0 <= j < n implies pieces_view(out@)[j] == ended[j] by {
            assert(parts_v[j] == parts@[j]@);
        }
        assert(pieces_view(out@) =~= ended);
    }
    if last.len() > 0 {
        out.push(last);
        proof {
            assert(pieces_view(out@) =~= ended.push(parts_v.last()));
        }
    }
    out
}

/// A commit's header fields from the lines of its `git log` record: SHA,
/// author, timestamp and subject, with no diff yet.
pub open spec fn commit_of_lines(ls: Seq<Seq<char>>) -> (Seq<char>, Seq<char>, Seq<char>, Seq<char>, Seq<char>) {
    (ls[0], ls[1], ls[2], ls[3], Seq::empty())
}

/// A record without the line break `git log` prints after the separator
/// that ends the record before it.
pub open spec fn record_body(r: Seq<char>) -> Seq<char> {
    if r.len() > 0 && r[0] == '\n' {
        r.drop_first()
    } else {
        r
    }
}

/// The commits a sequence of `git log` records describes: each record that
/// is not blank and has at least four lines once its leading line break is
/// dropped, in order; the others are skipped.
pub open spec fn commits_of_records(rs: Seq<Seq<char>>) -> Seq<(Seq<char>, Seq<char>, Seq<char>, Seq<char>, Seq<char>)>
    decreases rs.len(),
{
    if rs.len() == 0 {
        Seq::empty()
    } else {
        let prev = commits_of_records(rs.drop_last());
        let r = rs.last();
        let ls = lines_of(record_body(r));
        if !is_blank(r) && ls.len() >= 4 {
            prev.push(commit_of_lines(ls))
        } else {
            prev
        }
    }
}

/// The commits that `git log --format=%H%n%an%n%aI%n%s%n%x1e` printed: its
/// output split at the record separator U+001E.
pub open spec fn commits_of_log(text: Seq<char>) -> Seq<(Seq<char>, Seq<char>, Seq<char>, Seq<char>, Seq<char>)> {
    commits_of_records(split_on(text, '\u{1e}'))
}

/// The views of a sequence of commits.
pub open spec fn commits_view(v: Seq<CommitDiff>) -> Seq<(Seq<char>, Seq<char>, Seq<char>, Seq<char>, Seq<char>)> {
    v.map_values(|c: CommitDiff| c@)
}

/// Parses the output of `git log --format=%H%n%an%n%aI%n%s%n%x1e` into
/// commits with empty diffs: the output is split at the record separator
/// U+001E, the line break that follows each separator is dropped from the
/// record after it, blank records are skipped, and so is any record of
/// fewer than four lines; the first four lines of a record are its SHA,
/// author, timestamp and subject.
pub fn parse_commit_log(text: &str) -> (r: Vec<CommitDiff>)
    ensures
        commits_view(r@) == commits_of_log(text@),
{
    let s = chars_of(text);
    let records = split_chars(s.as_slice(), '\u{1e}');
    let ghost rs = pieces_view(records@);
    let mut out: Vec<CommitDiff> = Vec::new();
    let mut k: usize = 0;
    while k < records.len()
        invariant
            rs == pieces_view(records@),
            rs == split_on(s@, '\u{1e}'),
            k <= records@.len(),
            commits_view(out@) == commits_of_records(rs.take(k as int)),
        decreases records@.len() - k,
    {
        let rec = &records[k];
        proof {
            assert(rs.take(k + 1).drop_last() =~= rs.take(k as int));
            assert(rs.take(k + 1).last() == rec@);
        }
        let ghost before = commits_view(out@);
        if !blank_chars(rec.as_slice()) {
            let body: &[char] = if rec.len() > 0 && rec[0] == '\n' {
                vstd::slice::slice_subrange(rec.as_slice(), 1, rec.len())
            } else {
                rec.as_slice()
            };
            assert(body@ =~= record_body(rec@));
            let ls = lines_chars(body);
            if ls.len() >= 4 {
                let c = CommitDiff {
                    sha: string_from_chars(ls[0].as_slice()),
                    author: string_from_chars(ls[1].as_slice()),
                    timestamp: string_from_chars(ls[2].as_slice()),
                    message: string_from_chars(ls[3].as_slice()),
                    patch: String::new(),
                };
                proof {
                    assert(c@ == commit_of_lines(lines_of(record_body(rec@))));
                }
                out.push(c);
                proof {
                    assert(commits_view(out@) =~= before.push(c@));
                }
            }
        }
        k = k + 1;
    }
    proof {
        assert(rs.take(rs.len() as int) =~= rs);
    }
    out
}

/// The `git log` failures that mean the branch has no history yet rather
/// than that something is broken.
pub open spec fn means_no_history(stderr: Seq<char>) -> bool {
    ||| contains_seq(stderr, "unknown revision"@)
    ||| contains_seq(stderr, "ambiguous argument"@)
    ||| contains_seq(stderr, "does not have any commits yet"@)
    ||| contains_seq(stderr, "bad revision"@)
}

/// Does a failed `git log`'s standard error say that the branch or `main`
/// does not resolve (no history yet, shown as an empty diff) rather than
/// report a real failure?
pub fn git_log_means_no_history(stderr: &str) -> (b: bool)
    ensures
        b == means_no_history(stderr@),
{
    str_contains(stderr, "unknown revision") || str_contains(stderr, "ambiguous argument")
        || str_contains(stderr, "does not have any commits yet") || str_contains(
        stderr,
        "bad revision",
    )
}

/// The revision range whose commits make up a task's diff:
/// `alps/<task_id>..main`.
pub fn commit_range(task_id: &str) -> (r: String)
    ensures
        r@ == seq!['a', 'l', 'p', 's', '/'] + task_id@ + seq!['.', '.', 'm', 'a', 'i', 'n'],
{
    let mut r = String::new();
    crate::format::push_chars(&mut r, &['a', 'l', 'p', 's', '/']);
    let id = chars_of(task_id);
    crate::format::push_chars(&mut r, id.as_slice());
    crate::format::push_chars(&mut r, &['.', '.', 'm', 'a', 'i', 'n']);
    r
}

/// The abbreviated SHA a commit card shows: the first seven bytes of the
/// SHA, or the whole SHA when it is shorter.
pub fn short_sha(sha: &str) -> (r: String)
    requires
        sha.len() >= 7 ==> vstd::utf8::is_char_boundary(sha.spec_bytes(), 7),
    ensures
        vstd::utf8::encode_utf8(r@) == if sha.len() >= 7 {
            sha.spec_bytes().take(7)
        } else {
            sha.spec_bytes()
        },
{
    if sha.len() >= 7 {
        let (head, _) = sha.split_at(7);
        let r = head.to_owned();
        proof {
            assert(head.spec_bytes() =~= sha.spec_bytes().take(7));
        }
        r
    } else {
        sha.to_owned()
    }
}

/// The commits the diff page renders (the first `MAX_COMMITS_TO_RENDER`)
/// and how many more it only counts.
pub fn commits_to_render(commits: Vec<CommitDiff>) -> (r: (Vec<CommitDiff>, usize))
    ensures
        r.0@ == if commits@.len() > MAX_COMMITS_TO_RENDER {
            commits@.take(MAX_COMMITS_TO_RENDER as int)
        } else {
            commits@
        },
        r.1 == if commits@.len() > MAX_COMMITS_TO_RENDER {
            commits@.len() - MAX_COMMITS_TO_RENDER
        } else {
            0
        },
{
    let total = commits.len();
    let hidden = total.saturating_sub(MAX_COMMITS_TO_RENDER);
    let mut visible = commits;
    visible.truncate(MAX_COMMITS_TO_RENDER);
    (visible, hidden)
}

/// Splitting at a separator that joins two texts splits each of them.
proof fn lemma_split_on_concat(a: Seq<char>, b: Seq<char>, sep: char)
    ensures
        split_on(a + seq![sep] + b, sep) == split_on(a, sep) + split_on(b, sep),
    decreases b.len(),
{
    let c = a + seq![sep] + b;
    if b.len() == 0 {
        assert(c.drop_last() =~= a);
        assert(c.last() == sep);
        assert(split_on(b, sep) == seq![Seq::<char>::empty()]);
        assert(split_on(a, sep).push(Seq::<char>::empty()) =~= split_on(a, sep) + seq![
            Seq::<char>::empty(),
        ]);
    } else {
        assert(c.drop_last() =~= a + seq![sep] + b.drop_last());
        assert(c.last() == b.last());
        lemma_split_on_concat(a, b.drop_last(), sep);
        lemma_split_on_nonempty(b.drop_last(), sep);
        lemma_split_on_nonempty(a, sep);
        let pa = split_on(a, sep);
        let pb = split_on(b.drop_last(), sep);
        if b.last() == sep {
            assert((pa + pb).push(Seq::<char>::empty()) =~= pa + pb.push(Seq::<char>::empty()));
        } else {
            let prev = pa + pb;
            assert(prev.last() == pb.last());
            assert(prev.update(prev.len() - 1, prev.last().push(b.last())) =~= pa + pb.update(
                pb.len() - 1,
                pb.last().push(b.last()),
            ));
        }
    }
}

/// A text without the separator is a single piece.
proof fn lemma_split_on_none(a: Seq<char>, sep: char)
    requires
        !a.contains(sep),
    ensures
        split_on(a, sep) == seq![a],
    decreases a.len(),
{
    if a.len() > 0 {
        assert(!a.drop_last().contains(sep)) by {
            if a.drop_last().contains(sep) {
                let i = choose|i: int| 0 <= i < a.drop_last().len() && a.drop_last()[i] == sep;
                assert(a[i] == sep);
            }
        }
        lemma_split_on_none(a.drop_last(), sep);
        assert(a[a.len() - 1] != sep);
        assert(a.drop_last().push(a.last()) =~= a);
        assert(seq![a.drop_last()].update(0, a.drop_last().push(a.last())) =~= seq![a]);
    } else {
        assert(a =~= Seq::<char>::empty());
    }
}

/// A field `git log` can print on a line of its own and read back: no
/// line break, no record separator, no trailing carriage return.
pub open spec fn is_plain_field(f: Seq<char>) -> bool {
    &&& !f.contains('\n')
    &&& !f.contains('\u{1e}')
    &&& (f.len() == 0 || f.last() != '\r')
}

/// A commit's header: SHA, author, timestamp, subject.
pub type CommitHeader = (Seq<char>, Seq<char>, Seq<char>, Seq<char>);

/// A header `git log` can print and read back: plain fields, a SHA that is
/// not blank.
pub open spec fn is_plain_header(c: CommitHeader) -> bool {
    &&& is_plain_field(c.0)
    &&& is_plain_field(c.1)
    &&& is_plain_field(c.2)
    &&& is_plain_field(c.3)
    &&& !is_blank(c.0)
}

/// The lines `git log --format=%H%n%an%n%aI%n%s%n%x1e` prints for one
/// commit before its record separator.
pub open spec fn commit_record(c: CommitHeader) -> Seq<char> {
    c.0 + seq!['\n'] + c.1 + seq!['\n'] + c.2 + seq!['\n'] + c.3 + seq!['\n']
}

/// What `git log --format=%H%n%an%n%aI%n%s%n%x1e` prints for the commits
/// `cs`: each record, its separator U+001E and a line break.
pub open spec fn git_log_of(cs: Seq<CommitHeader>) -> Seq<char>
    decreases cs.len(),
{
    if cs.len() == 0 {
        Seq::empty()
    } else {
        git_log_of(cs.drop_last()) + commit_record(cs.last()) + seq!['\u{1e}'] + seq!['\n']
    }
}

/// The commits a log of `cs` should parse to: the headers, with no diff.
pub open spec fn headers_as_commits(cs: Seq<CommitHeader>) -> Seq<(Seq<char>, Seq<char>, Seq<char>, Seq<char>, Seq<char>)> {
    cs.map_values(|c: CommitHeader| (c.0, c.1, c.2, c.3, Seq::<char>::empty()))
}

/// The log of `cs` without its final separator and line break.
spec fn log_body(cs: Seq<CommitHeader>) -> Seq<char>
    decreases cs.len(),
{
    if cs.len() <= 1 {
        commit_record(cs[0])
    } else {
        log_body(cs.drop_last()) + seq!['\u{1e}'] + (seq!['\n'] + commit_record(cs.last()))
    }
}

/// The records the log of `cs` splits into, before its final empty line.
spec fn record_texts(cs: Seq<CommitHeader>) -> Seq<Seq<char>>
    decreases cs.len(),
{
    if cs.len() <= 1 {
        seq![commit_record(cs[0])]
    } else {
        record_texts(cs.drop_last()).push(seq!['\n'] + commit_record(cs.last()))
    }
}

/// No character of `f` is `c`: a plain field holds no separator.
proof fn lemma_concat_lacks(a: Seq<char>, b: Seq<char>, c: char)
    requires
        !a.contains(c),
        !b.contains(c),
    ensures
        !(a + b).contains(c),
{
    if (a + b).contains(c) {
        let i = choose|i: int| 0 <= i < (a + b).len() && (a + b)[i] == c;
        if i < a.len() {
            assert(a[i] == c);
        } else {
            assert(b[i - a.len()] == c);
        }
    }
}

/// A plain header's record holds no separator, is not blank, and its lines
/// are the four fields.
proof fn lemma_commit_record(c: CommitHeader)
    requires
        is_plain_header(c),
    ensures
        !commit_record(c).contains('\u{1e}'),
        !(seq!['\n'] + commit_record(c)).contains('\u{1e}'),
        !is_blank(commit_record(c)),
        !is_blank(seq!['\n'] + commit_record(c)),
        record_body(commit_record(c)) == commit_record(c),
        record_body(seq!['\n'] + commit_record(c)) == commit_record(c),
        lines_of(commit_record(c)) == seq![c.0, c.1, c.2, c.3],
{
    let nl = seq!['\n'];
    let (sha, author, timestamp, subject) = c;
    let rec = commit_record(c);
    assert(!nl.contains('\u{1e}')) by {
        if nl.contains('\u{1e}') {
            let i = choose|i: int| 0 <= i < nl.len() && nl[i] == '\u{1e}';
            assert(nl[0] == '\n');
        }
    }
    lemma_concat_lacks(sha, nl, '\u{1e}');
    lemma_concat_lacks(sha + nl, author, '\u{1e}');
    lemma_concat_lacks(sha + nl + author, nl, '\u{1e}');
    lemma_concat_lacks(sha + nl + author + nl, timestamp, '\u{1e}');
    lemma_concat_lacks(sha + nl + author + nl + timestamp, nl, '\u{1e}');
    lemma_concat_lacks(sha + nl + author + nl + timestamp + nl, subject, '\u{1e}');
    lemma_concat_lacks(sha + nl + author + nl + timestamp + nl + subject, nl, '\u{1e}');
    lemma_concat_lacks(nl, rec, '\u{1e}');
    let i = choose|i: int| 0 <= i < sha.len() && !is_white_space(#[trigger] sha[i]);
    assert(rec[i] == sha[i]);
    assert((nl + rec)[i + 1] == rec[i]);
    assert(sha.len() > 0);
    assert(rec[0] == sha[0]);
    assert(sha[0] != '\n') by {
        if sha[0] == '\n' {
            assert(sha.contains('\n'));
        }
    }
    assert((nl + rec).drop_first() =~= rec);
    lemma_split_on_none(sha, '\n');
    lemma_split_on_none(author, '\n');
    lemma_split_on_none(timestamp, '\n');
    lemma_split_on_none(subject, '\n');
    lemma_split_on_concat(sha, author, '\n');
    lemma_split_on_concat(sha + nl + author, timestamp, '\n');
    lemma_split_on_concat(sha + nl + author + nl + timestamp, subject, '\n');
    lemma_split_on_concat(sha + nl + author + nl + timestamp + nl + subject, Seq::<char>::empty(), '\n');
    assert(split_on(Seq::<char>::empty(), '\n') == seq![Seq::<char>::empty()]);
    assert(rec =~= sha + nl + author + nl + timestamp + nl + subject + seq!['\n'] + Seq::<char>::empty());
    let parts = split_on(rec, '\n');
    assert(parts =~= seq![sha, author, timestamp, subject, Seq::<char>::empty()]);
    assert(lines_of(rec) =~= seq![sha, author, timestamp, subject]);
}

proof fn lemma_log_body(cs: Seq<CommitHeader>)
    requires
        cs.len() >= 1,
    ensures
        git_log_of(cs) == log_body(cs) + seq!['\u{1e}'] + seq!['\n'],
    decreases cs.len(),
{
    if cs.len() == 1 {
        assert(cs.drop_last() =~= Seq::<CommitHeader>::empty());
        assert(git_log_of(cs.drop_last()) == Seq::<char>::empty());
        assert(cs.last() == cs[0]);
        assert(git_log_of(cs) =~= commit_record(cs[0]) + seq!['\u{1e}'] + seq!['\n']);
    } else {
        lemma_log_body(cs.drop_last());
        assert(git_log_of(cs) =~= log_body(cs) + seq!['\u{1e}'] + seq!['\n']);
    }
}

proof fn lemma_split_log_body(cs: Seq<CommitHeader>)
    requires
        cs.len() >= 1,
        forall|i: int| 0 <= i < cs.len() ==> is_plain_header(#[trigger] cs[i]),
    ensures
        split_on(log_body(cs), '\u{1e}') == record_texts(cs),
    decreases cs.len(),
{
    lemma_commit_record(cs.last());
    if cs.len() == 1 {
        lemma_split_on_none(commit_record(cs[0]), '\u{1e}');
    } else {
        let d = cs.drop_last();
        assert forall|i: int| 0 <= i < d.len() implies is_plain_header(#[trigger] d[i]) by {
            assert(d[i] == cs[i]);
        }
        lemma_split_log_body(d);
        lemma_split_on_concat(log_body(d), seq!['\n'] + commit_record(cs.last()), '\u{1e}');
        lemma_split_on_none(seq!['\n'] + commit_record(cs.last()), '\u{1e}');
        assert(record_texts(d) + seq![seq!['\n'] + commit_record(cs.last())] =~= record_texts(cs));
    }
}

proof fn lemma_records_parse(cs: Seq<CommitHeader>)
    requires
        cs.len() >= 1,
        forall|i: int| 0 <= i < cs.len() ==> is_plain_header(#[trigger] cs[i]),
    ensures
        commits_of_records(record_texts(cs)) == headers_as_commits(cs),
    decreases cs.len(),
{
    let c = cs.last();
    assert(c == cs[cs.len() - 1]);
    lemma_commit_record(c);
    let rs = record_texts(cs);
    if cs.len() == 1 {
        assert(rs.drop_last() =~= Seq::<Seq<char>>::empty());
        assert(commits_of_records(Seq::<Seq<char>>::empty()) == Seq::<
            (Seq<char>, Seq<char>, Seq<char>, Seq<char>, Seq<char>),
        >::empty());
        assert(rs.last() == commit_record(c));
        assert(commits_of_records(rs) =~= headers_as_commits(cs));
    } else {
        let d = cs.drop_last();
        assert forall|i: int| 0 <= i < d.len() implies is_plain_header(#[trigger] d[i]) by {
            assert(d[i] == cs[i]);
        }
        lemma_records_parse(d);
        assert(rs.drop_last() =~= record_texts(d));
        assert(rs.last() == seq!['\n'] + commit_record(c));
        assert(headers_as_commits(cs) =~= headers_as_commits(d).push(
            (c.0, c.1, c.2, c.3, Seq::<char>::empty()),
        ));
    }
}

/// What `git log` prints for any commits with plain headers parses back
/// to those commits, in order, with empty diffs.
pub proof fn law_commit_log_round_trips(cs: Seq<CommitHeader>)
    requires
        forall|i: int| 0 <= i < cs.len() ==> is_plain_header(#[trigger] cs[i]),
    ensures
        commits_of_log(git_log_of(cs)) == headers_as_commits(cs),
{
    let nl = seq!['\n'];
    assert(is_blank(nl)) by {
        assert(forall|i: int| 0 <= i < nl.len() ==> nl[i] == '\n');
    }
    assert(!nl.contains('\u{1e}')) by {
        if nl.contains('\u{1e}') {
            let i = choose|i: int| 0 <= i < nl.len() && nl[i] == '\u{1e}';
            assert(nl[0] == '\n');
        }
    }
    if cs.len() == 0 {
        let rs = split_on(Seq::<char>::empty(), '\u{1e}');
        assert(rs == seq![Seq::<char>::empty()]);
        assert(is_blank(Seq::<char>::empty()));
        assert(rs.drop_last() =~= Seq::<Seq<char>>::empty());
        assert(commits_of_records(Seq::<Seq<char>>::empty()) == Seq::<
            (Seq<char>, Seq<char>, Seq<char>, Seq<char>, Seq<char>),
        >::empty());
        assert(headers_as_commits(cs) =~= Seq::<
            (Seq<char>, Seq<char>, Seq<char>, Seq<char>, Seq<char>),
        >::empty());
    } else {
        lemma_log_body(cs);
        lemma_split_log_body(cs);
        lemma_split_on_concat(log_body(cs), nl, '\u{1e}');
        lemma_split_on_none(nl, '\u{1e}');
        let rs = split_on(git_log_of(cs), '\u{1e}');
        assert(rs =~= record_texts(cs).push(nl));
        assert(rs.drop_last() =~= record_texts(cs));
        assert(rs.last() == nl);
        lemma_records_parse(cs);
    }
}

} // verus!
