//! Task identifiers: the `TaskId` newtype, the parser that discovers a new
//! task's id in the orchestrator's start-up output, and the guard that keeps
//! an id from escaping the `tasks/` directory.

use vstd::prelude::*;
use crate::text::{
    chars_of, contains_chars, contains_seq, find_from, first_occurrence_from, has_char,
    occurs_at, string_from_range,
};

verus! {

/// Identifier of one orchestrator task, shaped `YYYY-MM-DDTHHMMSS-<hex>` by
/// the orchestrator but accepted here as any string: the router is a
/// transport, not a validator.
#[derive(Debug, Clone, PartialEq, Eq, Hash)]
pub struct TaskId(pub String);

impl View for TaskId {
    type V = Seq<char>;

    open spec fn view(&self) -> Seq<char> {
        self.0@
    }
}

impl TaskId {
    /// A `TaskId` holding exactly `s`; nothing is validated.
    pub fn new(s: &str) -> (id: TaskId)
        ensures
            id@ == s@,
    {
        TaskId(s.to_owned())
    }

    /// The inner string.
    pub fn as_str(&self) -> (s: &str)
        ensures
            s@ == self@,
    {
        self.0.as_str()
    }

    /// The id rendered as text: the inner string, byte for byte.
    pub fn to_string(&self) -> (s: String)
        ensures
            s@ == self@,
    {
        self.0.clone()
    }
}

impl Default for TaskId {
    /// The empty id.
    fn default() -> (id: TaskId)
        ensures
            id@ == Seq::<char>::empty(),
    {
        TaskId(String::new())
    }
}

impl core::str::FromStr for TaskId {
    type Err = core::convert::Infallible;

    /// Parsing never fails: any string is an id.
    fn from_str(s: &str) -> (r: Result<TaskId, core::convert::Infallible>)
        ensures
            r matches Ok(id) && id@ == s@,
    {
        Ok(TaskId::new(s))
    }
}

/// The word that precedes the id in the orchestrator's start-up line.
pub open spec fn id_key() -> Seq<char> {
    seq!['t', 'a', 's', 'k', '_', 'i', 'd']
}

/// The escape character that starts an ANSI colour sequence.
pub open spec fn esc() -> char {
    '\u{1b}'
}

/// A final character of an ANSI control sequence (ECMA-48: 0x40..=0x7e).
pub open spec fn is_final_char(c: char) -> bool {
    '\u{40}' <= c && c <= '\u{7e}'
}

pub open spec fn is_digit(c: char) -> bool {
    '0' <= c && c <= '9'
}

pub open spec fn is_lower_hex(c: char) -> bool {
    is_digit(c) || ('a' <= c && c <= 'f')
}

/// The first position at or after `k` that holds a final character, or the
/// end of `t`.
pub open spec fn params_end(t: Seq<char>, k: int) -> int
    decreases t.len() - k,
{
    if k >= t.len() {
        t.len() as int
    } else if is_final_char(t[k]) {
        k
    } else {
        params_end(t, k + 1)
    }
}

pub proof fn lemma_params_end_bounds(t: Seq<char>, k: int)
    requires
        0 <= k,
    ensures
        k <= params_end(t, k) || (k > t.len() && params_end(t, k) == t.len()),
        params_end(t, k) <= t.len() || k > t.len(),
        params_end(t, k) < t.len() ==> is_final_char(t[params_end(t, k)]),
        forall|m: int| k <= m < params_end(t, k) ==> !is_final_char(#[trigger] t[m]),
    decreases t.len() - k,
{
    if k < t.len() && !is_final_char(t[k]) {
        lemma_params_end_bounds(t, k + 1);
    }
}

/// The position reached from `i` by skipping every ANSI escape sequence
/// (`ESC [ params final`) that starts there; an unterminated one runs to
/// the end of `t`.
pub open spec fn skip_escapes(t: Seq<char>, i: int) -> int
    decreases t.len() - i,
{
    if 0 <= i && i + 1 < t.len() && t[i] == esc() && t[i + 1] == '[' {
        let j = params_end(t, i + 2);
        proof {
            lemma_params_end_bounds(t, i + 2);
        }
        skip_escapes(t, if j < t.len() { j + 1 } else { t.len() as int })
    } else {
        i
    }
}

/// `n` digits start at `j`.
pub open spec fn digits_at(t: Seq<char>, j: int, n: int) -> bool {
    &&& 0 <= j
    &&& j + n <= t.len()
    &&& forall|m: int| j <= m < j + n ==> is_digit(#[trigger] t[m])
}

pub open spec fn char_is(t: Seq<char>, j: int, c: char) -> bool {
    0 <= j < t.len() && t[j] == c
}

/// The dated stem `YYYY-MM-DDTHHMMSS-` of a task id starts at `j`.
pub open spec fn dated_stem_at(t: Seq<char>, j: int) -> bool {
    &&& digits_at(t, j, 4)
    &&& char_is(t, j + 4, '-')
    &&& digits_at(t, j + 5, 2)
    &&& char_is(t, j + 7, '-')
    &&& digits_at(t, j + 8, 2)
    &&& char_is(t, j + 10, 'T')
    &&& digits_at(t, j + 11, 6)
    &&& char_is(t, j + 17, '-')
}

/// The end of the run of lowercase hex digits that starts at `k`.
pub open spec fn hex_run_end(t: Seq<char>, k: int) -> int
    decreases t.len() - k,
{
    if 0 <= k < t.len() && is_lower_hex(t[k]) {
        hex_run_end(t, k + 1)
    } else {
        k
    }
}

/// `id` has the orchestrator's task-id shape `YYYY-MM-DDTHHMMSS-<hex>`.
pub open spec fn is_task_id_shape(id: Seq<char>) -> bool {
    &&& dated_stem_at(id, 0)
    &&& id.len() > 18
    &&& forall|m: int| 18 <= m < id.len() ==> is_lower_hex(#[trigger] id[m])
}

/// The id that the `task_id` at position `k` announces, if any: the word
/// `task_id` at `k`, any colour escapes, `=`, any colour escapes, then
/// `YYYY-MM-DDTHHMMSS-` and a non-empty run of lowercase hex digits, which
/// ends the id.
pub open spec fn announcement_at(s: Seq<char>, k: int) -> Option<Seq<char>> {
    if occurs_at(s, id_key(), k) {
        let i = skip_escapes(s, k + 7);
        if 0 <= i < s.len() && s[i] == '=' {
            let j = skip_escapes(s, i + 1);
            let e = hex_run_end(s, j + 18);
            if dated_stem_at(s, j) && e > j + 18 {
                Some(s.subrange(j, e))
            } else {
                None
            }
        } else {
            None
        }
    } else {
        None
    }
}

/// The id announced by the first `task_id` at or after `k` that announces one.
pub open spec fn announced_from(s: Seq<char>, k: int) -> Option<Seq<char>>
    decreases s.len() + 1 - k,
{
    if k < 0 || k + 7 > s.len() {
        None
    } else {
        match announcement_at(s, k) {
            Some(id) => Some(id),
            None => announced_from(s, k + 1),
        }
    }
}

/// The id a start-up line announces: the first `task_id=<id>` in it whose
/// `<id>` has the task-id shape, colour escapes around the `=` allowed.
pub open spec fn announced_task_id(s: Seq<char>) -> Option<Seq<char>> {
    announced_from(s, 0)
}

/// Positions without the word `task_id` announce nothing, so the search
/// moves on to the next occurrence.
proof fn lemma_announced_from_skip(s: Seq<char>, from: int, k: int)
    requires
        0 <= from <= k,
        k + 7 <= s.len(),
        forall|j: int| from <= j < k ==> !occurs_at(s, id_key(), j),
    ensures
        announced_from(s, from) == announced_from(s, k),
    decreases k - from,
{
    if from < k {
        assert(!occurs_at(s, id_key(), from));
        lemma_announced_from_skip(s, from + 1, k);
    }
}

/// With no `task_id` at or after `from`, nothing is announced there.
proof fn lemma_announced_from_none(s: Seq<char>, from: int)
    requires
        0 <= from,
        first_occurrence_from(s, id_key(), from) is None,
    ensures
        announced_from(s, from) is None,
    decreases s.len() + 1 - from,
{
    if from + 7 <= s.len() {
        crate::text::lemma_first_occurrence_none(s, id_key(), from, from);
        assert(first_occurrence_from(s, id_key(), from + 1) is None);
        lemma_announced_from_none(s, from + 1);
    }
}

fn is_final_exec(c: char) -> (b: bool)
    ensures
        b == is_final_char(c),
{
    '\u{40}' <= c && c <= '\u{7e}'
}

fn is_digit_exec(c: char) -> (b: bool)
    ensures
        b == is_digit(c),
{
    '0' <= c && c <= '9'
}

fn is_lower_hex_exec(c: char) -> (b: bool)
    ensures
        b == is_lower_hex(c),
{
    ('0' <= c && c <= '9') || ('a' <= c && c <= 'f')
}

/// Skips the ANSI escape sequences that start at `start`.
fn skip_escapes_exec(t: &[char], start: usize) -> (r: usize)
    requires
        start <= t@.len(),
    ensures
        r as int == skip_escapes(t@, start as int),
        start <= r <= t@.len(),
{
    let len = t.len();
    let mut i = start;
    loop
        invariant
            len == t@.len(),
            start <= i <= len,
            skip_escapes(t@, start as int) == skip_escapes(t@, i as int),
        decreases len - i,
    {
        if len >= 2 && i < len - 1 && t[i] == '\u{1b}' && t[i + 1] == '[' {
            let mut j = i + 2;
            proof {
                lemma_params_end_bounds(t@, i + 2);
            }
            while j < len && !is_final_exec(t[j])
                invariant
                    len == t@.len(),
                    i + 2 <= j <= len,
                    params_end(t@, i + 2) == params_end(t@, j as int),
                decreases len - j,
            {
                j = j + 1;
            }
            if j < len {
                i = j + 1;
            } else {
                i = len;
            }
        } else {
            return i;
        }
    }
}

fn digits_exec(t: &[char], j: usize, n: usize) -> (b: bool)
    ensures
        b == digits_at(t@, j as int, n as int),
{
    if j > t.len() || n > t.len() - j {
        return false;
    }
    let mut m: usize = j;
    while m < j + n
        invariant
            j + n <= t.len(),
            j <= m <= j + n,
            forall|x: int| j <= x < m ==> is_digit(t@[x]),
        decreases j + n - m,
    {
        if !is_digit_exec(t[m]) {
            return false;
        }
        m = m + 1;
    }
    true
}

fn char_is_exec(t: &[char], j: usize, c: char) -> (b: bool)
    ensures
        b == char_is(t@, j as int, c),
{
    j < t.len() && t[j] == c
}

fn dated_stem_exec(t: &[char], j: usize) -> (b: bool)
    requires
        j <= t@.len(),
    ensures
        b == dated_stem_at(t@, j as int),
{
    if t.len() - j < 18 {
        return false;
    }
    digits_exec(t, j, 4) && char_is_exec(t, j + 4, '-') && digits_exec(t, j + 5, 2)
        && char_is_exec(t, j + 7, '-') && digits_exec(t, j + 8, 2) && char_is_exec(t, j + 10, 'T')
        && digits_exec(t, j + 11, 6) && char_is_exec(t, j + 17, '-')
}

fn hex_run_exec(t: &[char], k: usize) -> (e: usize)
    requires
        k <= t@.len(),
    ensures
        e as int == hex_run_end(t@, k as int),
        k <= e <= t@.len(),
{
    let mut e = k;
    while e < t.len() && is_lower_hex_exec(t[e])
        invariant
            k <= e <= t@.len(),
            hex_run_end(t@, k as int) == hex_run_end(t@, e as int),
        decreases t@.len() - e,
    {
        e = e + 1;
    }
    e
}

/// The id the `task_id` at `k` announces (see `announcement_at`).
fn announcement_exec(s: &[char], k: usize) -> (r: Option<String>)
    requires
        occurs_at(s@, id_key(), k as int),
    ensures
        match r {
            Some(id) => announcement_at(s@, k as int) == Some(id@),
            None => announcement_at(s@, k as int) is None,
        },
{
    assert(id_key().len() == 7);
    let len = s.len();
    assert(k + 7 <= len);
    let i = skip_escapes_exec(s, k + 7);
    if i >= s.len() || s[i] != '=' {
        return None;
    }
    let j = skip_escapes_exec(s, i + 1);
    if !dated_stem_exec(s, j) {
        return None;
    }
    let e = hex_run_exec(s, j + 18);
    if e == j + 18 {
        return None;
    }
    Some(string_from_range(s, j, e))
}

/// The task id that an orchestrator start-up line announces: the first
/// `task_id=<id>` in it whose `<id>` has the shape `YYYY-MM-DDTHHMMSS-<hex>`,
/// colour escapes around the `=` allowed; `None` where the line announces
/// none.
pub fn find_task_id(line: &str) -> (r: Option<String>)
    ensures
        match r {
            Some(id) => announced_task_id(line@) == Some(id@),
            None => announced_task_id(line@) is None,
        },
{
    let s = chars_of(line);
    let key: Vec<char> = vec!['t', 'a', 's', 'k', '_', 'i', 'd'];
    assert(key@ =~= id_key());
    let mut from: usize = 0;
    loop
        invariant
            key@ == id_key(),
            s@ == line@,
            from <= s@.len() + 1,
            announced_task_id(s@) == announced_from(s@, from as int),
        decreases s@.len() + 1 - from,
    {
        let k = match find_from(s.as_slice(), key.as_slice(), from) {
            Some(k) => k,
            None => {
                proof {
                    lemma_announced_from_none(s@, from as int);
                }
                return None;
            },
        };
        proof {
            crate::text::lemma_first_occurrence_some(s@, id_key(), from as int);
            assert(occurs_at(s@, id_key(), k as int));
            assert(id_key().len() == 7);
            assert(k + 7 <= s@.len());
            lemma_announced_from_skip(s@, from as int, k as int);
        }
        let len = s.len();
        assert(k < len);
        match announcement_exec(s.as_slice(), k) {
            Some(id) => {
                return Some(id);
            },
            None => {
                from = k + 1;
            },
        }
    }
}

/// A hex run that covers `[a, b)` and stops at `b` ends at `b`.
proof fn lemma_hex_run_end(t: Seq<char>, a: int, b: int)
    requires
        0 <= a <= b <= t.len(),
        forall|m: int| a <= m < b ==> is_lower_hex(#[trigger] t[m]),
        b == t.len() || !is_lower_hex(t[b]),
    ensures
        hex_run_end(t, a) == b,
    decreases b - a,
{
    if a < b {
        lemma_hex_run_end(t, a + 1, b);
    }
}

/// Only the first character of `task_id` is a `t`.
proof fn lemma_id_key_single_t(d: int)
    requires
        1 <= d < 7,
    ensures
        id_key()[d] != 't',
{
    assert(id_key()[1] == 'a');
    assert(id_key()[2] == 's');
    assert(id_key()[3] == 'k');
    assert(id_key()[4] == '_');
    assert(id_key()[5] == 'i');
    assert(id_key()[6] == 'd');
}

/// An occurrence of `task_id` that ends within `prefix` would be one in `prefix`.
proof fn lemma_no_key_inside_prefix(s: Seq<char>, prefix: Seq<char>, j: int)
    requires
        prefix.len() <= s.len(),
        forall|m: int| 0 <= m < prefix.len() ==> s[m] == prefix[m],
        !contains_seq(prefix, id_key()),
        0 <= j,
        j + 7 <= prefix.len(),
    ensures
        !occurs_at(s, id_key(), j),
{
    if occurs_at(s, id_key(), j) {
        assert(prefix.subrange(j, j + 7) =~= s.subrange(j, j + 7));
        assert(occurs_at(prefix, id_key(), j));
    }
}

/// An occurrence of `task_id` cannot straddle the start of another one.
proof fn lemma_no_key_straddling(s: Seq<char>, p: int, j: int)
    requires
        0 <= j < p < j + 7,
        p < s.len(),
        s[p] == 't',
    ensures
        !occurs_at(s, id_key(), j),
{
    if occurs_at(s, id_key(), j) {
        let d = p - j;
        assert(s.subrange(j, j + 7)[d] == s[p]);
        lemma_id_key_single_t(d);
    }
}

/// A task id is safe to use as one path segment when it holds no `..`,
/// no `/`, no `\` and no NUL, so that `tasks/<id>` stays inside `tasks/`.
pub open spec fn is_path_safe(id: Seq<char>) -> bool {
    &&& !contains_seq(id, seq!['.', '.'])
    &&& !id.contains('/')
    &&& !id.contains('\\')
    &&& !id.contains('\0')
}

/// The guard the server functions apply to a task id before touching the
/// file system.
pub fn is_path_safe_task_id(task_id: &str) -> (b: bool)
    ensures
        b == is_path_safe(task_id@),
{
    let s = chars_of(task_id);
    let dots: Vec<char> = vec!['.', '.'];
    assert(dots@ =~= seq!['.', '.']);
    !contains_chars(s.as_slice(), dots.as_slice()) && !has_char(s.as_slice(), '/') && !has_char(
        s.as_slice(),
        '\\',
    ) && !has_char(s.as_slice(), '\0')
}

proof fn lemma_hex_run_is_hex(t: Seq<char>, k: int)
    requires
        0 <= k,
    ensures
        forall|m: int| k <= m < hex_run_end(t, k) ==> is_lower_hex(#[trigger] t[m]),
        k <= hex_run_end(t, k),
        k <= t.len() ==> hex_run_end(t, k) <= t.len(),
    decreases t.len() - k,
{
    if 0 <= k < t.len() && is_lower_hex(t[k]) {
        lemma_hex_run_is_hex(t, k + 1);
    }
}

/// Whatever the `task_id` at `k` announces has the task-id shape and so
/// passes the path guard.
proof fn lemma_announcement_shape(s: Seq<char>, k: int)
    ensures
        announcement_at(s, k) matches Some(id) ==> is_task_id_shape(id) && is_path_safe(id),
{
    if let Some(id) = announcement_at(s, k) {
        let i = skip_escapes(s, k + 7);
        let j = skip_escapes(s, i + 1);
        let e = hex_run_end(s, j + 18);
        assert(0 <= i < s.len() && s[i] == '=');
        assert(dated_stem_at(s, j) && e > j + 18);
        assert(id == s.subrange(j, e));
        lemma_hex_run_is_hex(s, j + 18);
        assert(dated_stem_at(id, 0)) by {
            assert(forall|m: int| 0 <= m < id.len() ==> id[m] == s[j + m]);
            assert(digits_at(s, j, 4));
            assert(digits_at(s, j + 5, 2));
            assert(digits_at(s, j + 8, 2));
            assert(digits_at(s, j + 11, 6));
        }
        assert forall|m: int| 18 <= m < id.len() implies is_lower_hex(#[trigger] id[m]) by {
            assert(id[m] == s[j + m]);
        }
        assert forall|m: int| 0 <= m < id.len() implies id[m] != '.' && id[m] != '/' && id[m]
            != '\\' && id[m] != '\0' by {
            if m >= 18 {
                assert(is_lower_hex(id[m]));
            } else if m == 4 || m == 7 || m == 17 {
                assert(id[m] == '-');
            } else if m == 10 {
                assert(id[m] == 'T');
            } else {
                assert(is_digit(id[m]));
            }
        }
        assert(!contains_seq(id, seq!['.', '.'])) by {
            if contains_seq(id, seq!['.', '.']) {
                let q = choose|q: int| occurs_at(id, seq!['.', '.'], q);
                assert(id.subrange(q, q + 2)[0] == id[q]);
            }
        }
    }
}

proof fn lemma_announced_from_shape(s: Seq<char>, k: int)
    ensures
        announced_from(s, k) matches Some(id) ==> is_task_id_shape(id) && is_path_safe(id),
    decreases s.len() + 1 - k,
{
    if !(k < 0 || k + 7 > s.len()) {
        lemma_announcement_shape(s, k);
        lemma_announced_from_shape(s, k + 1);
    }
}

/// Every id that an orchestrator start-up line announces has the task-id
/// shape, and so passes the path guard.
pub proof fn law_announced_ids_are_path_safe(line: Seq<char>)
    ensures
        announced_task_id(line) matches Some(id) ==> is_task_id_shape(id) && is_path_safe(id),
{
    lemma_announced_from_shape(line, 0);
}

/// The parameter characters of a control sequence (U+0020..=U+003F), none
/// of which ends the sequence.
pub open spec fn is_csi_params(params: Seq<char>) -> bool {
    forall|m: int| 0 <= m < params.len() ==> '\u{20}' <= #[trigger] params[m] && params[m] <= '\u{3f}'
}

/// The control sequence `ESC [ <params> <fin>` that terminals read as a
/// style or cursor command.
pub open spec fn csi(params: Seq<char>, fin: char) -> Seq<char> {
    seq![esc(), '['] + params + seq![fin]
}

/// Control sequences, one after another.
pub open spec fn csi_run(es: Seq<(Seq<char>, char)>) -> Seq<char>
    decreases es.len(),
{
    if es.len() == 0 {
        Seq::empty()
    } else {
        csi(es[0].0, es[0].1) + csi_run(es.drop_first())
    }
}

/// Each sequence of `es` has parameter characters and ends with a final
/// character.
pub open spec fn is_csi_run(es: Seq<(Seq<char>, char)>) -> bool {
    forall|i: int| 0 <= i < es.len() ==> is_csi_params((#[trigger] es[i]).0) && is_final_char(es[i].1)
}

proof fn lemma_params_end_at(t: Seq<char>, k: int, e: int)
    requires
        0 <= k <= e < t.len(),
        forall|m: int| k <= m < e ==> !is_final_char(#[trigger] t[m]),
        is_final_char(t[e]),
    ensures
        params_end(t, k) == e,
    decreases e - k,
{
    if k < e {
        lemma_params_end_at(t, k + 1, e);
    }
}

/// Skipping escapes at a control sequence goes on right after it.
proof fn lemma_skip_csi(t: Seq<char>, i: int, params: Seq<char>, fin: char)
    requires
        0 <= i,
        i + csi(params, fin).len() <= t.len(),
        t.subrange(i, i + csi(params, fin).len()) == csi(params, fin),
        is_csi_params(params),
        is_final_char(fin),
    ensures
        skip_escapes(t, i) == skip_escapes(t, i + csi(params, fin).len()),
{
    let n = params.len() as int;
    let g = csi(params, fin);
    assert(t[i] == g[0] && t[i + 1] == g[1]);
    assert forall|m: int| i + 2 <= m < i + 2 + n implies !is_final_char(#[trigger] t[m]) by {
        assert(t[m] == g[m - i]);
        assert(g[m - i] == params[m - i - 2]);
    }
    assert(t[i + 2 + n] == g[2 + n]);
    lemma_params_end_at(t, i + 2, i + 2 + n);
}

/// Skipping escapes at a run of control sequences goes on right after it.
proof fn lemma_skip_csi_run(t: Seq<char>, i: int, es: Seq<(Seq<char>, char)>)
    requires
        0 <= i,
        is_csi_run(es),
        i + csi_run(es).len() <= t.len(),
        t.subrange(i, i + csi_run(es).len()) == csi_run(es),
    ensures
        skip_escapes(t, i) == skip_escapes(t, i + csi_run(es).len()),
    decreases es.len(),
{
    if es.len() > 0 {
        let c = csi(es[0].0, es[0].1);
        let rest = es.drop_first();
        let r = csi_run(rest);
        let l = c.len() as int;
        assert(csi_run(es) == c + r);
        assert forall|x: int| 0 <= x < rest.len() implies is_csi_params((#[trigger] rest[x]).0)
            && is_final_char(rest[x].1) by {
            assert(rest[x] == es[x + 1]);
        }
        assert(t.subrange(i, i + l) =~= c) by {
            assert forall|m: int| 0 <= m < l implies t.subrange(i, i + l)[m] == c[m] by {
                assert(t.subrange(i, i + csi_run(es).len())[m] == (c + r)[m]);
            }
        }
        assert(t.subrange(i + l, i + l + r.len()) =~= r) by {
            assert forall|m: int| 0 <= m < r.len() implies t.subrange(i + l, i + l + r.len())[m]
                == r[m] by {
                assert(t.subrange(i, i + csi_run(es).len())[l + m] == (c + r)[l + m]);
            }
        }
        lemma_skip_csi(t, i, es[0].0, es[0].1);
        lemma_skip_csi_run(t, i + l, rest);
    }
}

/// A start-up line `<prefix>task_id<escapes>=<escapes><id><suffix>`.
#[verifier::opaque]
pub open spec fn escaped_announcement(
    prefix: Seq<char>,
    before: Seq<(Seq<char>, char)>,
    after: Seq<(Seq<char>, char)>,
    id: Seq<char>,
    suffix: Seq<char>,
) -> Seq<char> {
    prefix + id_key() + csi_run(before) + seq!['='] + csi_run(after) + id + suffix
}

/// Where each part of an escaped announcement sits.
proof fn lemma_escaped_layout(
    prefix: Seq<char>,
    before: Seq<(Seq<char>, char)>,
    after: Seq<(Seq<char>, char)>,
    id: Seq<char>,
    suffix: Seq<char>,
)
    ensures
        ({
            let s = escaped_announcement(prefix, before, after, id, suffix);
            let p = prefix.len() as int;
            let a = p + 7;
            let b = a + csi_run(before).len();
            let f = b + 1 + csi_run(after).len();
            let e = f + id.len();
            &&& s.len() == e + suffix.len()
            &&& forall|m: int| 0 <= m < p ==> s[m] == prefix[m]
            &&& s.subrange(p, a) == id_key()
            &&& s[p] == 't'
            &&& s.subrange(a, b) == csi_run(before)
            &&& s[b] == '='
            &&& s.subrange(b + 1, f) == csi_run(after)
            &&& forall|m: int| 0 <= m < id.len() ==> s[f + m] == id[m]
            &&& s.subrange(f, e) == id
            &&& (suffix.len() > 0 ==> s[e] == suffix[0])
        }),
{
    reveal(escaped_announcement);
    let s = escaped_announcement(prefix, before, after, id, suffix);
    let p = prefix.len() as int;
    let a = p + 7;
    let b = a + csi_run(before).len();
    let f = b + 1 + csi_run(after).len();
    let e = f + id.len();
    assert(s.subrange(p, a) =~= id_key());
    assert(s[p] == id_key()[0]);
    assert(s.subrange(a, b) =~= csi_run(before));
    assert(s.subrange(b + 1, f) =~= csi_run(after));
    assert(s.subrange(f, e) =~= id);
    if suffix.len() > 0 {
        assert(s[e + 0] == suffix[0]);
    }
}

/// A start-up line announces `<id>` whatever control sequences (colours,
/// styles, any final character) stand on either side of its `=`: the id
/// is found after any prefix without the word `task_id`, and before any
/// suffix that does not go on with a lowercase hex digit.
pub proof fn law_escaped_announcement_is_found(
    prefix: Seq<char>,
    before: Seq<(Seq<char>, char)>,
    after: Seq<(Seq<char>, char)>,
    id: Seq<char>,
    suffix: Seq<char>,
)
    requires
        !contains_seq(prefix, id_key()),
        is_csi_run(before),
        is_csi_run(after),
        is_task_id_shape(id),
        suffix.len() == 0 || !is_lower_hex(suffix[0]),
    ensures
        announced_task_id(escaped_announcement(prefix, before, after, id, suffix)) == Some(id),
{
    let s = escaped_announcement(prefix, before, after, id, suffix);
    let p = prefix.len() as int;
    let a = p + 7;
    let b = a + csi_run(before).len();
    let f = b + 1 + csi_run(after).len();
    let e = f + id.len();
    lemma_escaped_layout(prefix, before, after, id, suffix);
    assert forall|j: int| 0 <= j < p implies !occurs_at(s, id_key(), j) by {
        if j + 7 <= p {
            lemma_no_key_inside_prefix(s, prefix, j);
        } else {
            lemma_no_key_straddling(s, p, j);
        }
    }
    lemma_announced_from_skip(s, 0, p);
    assert(occurs_at(s, id_key(), p));
    lemma_skip_csi_run(s, a, before);
    assert(s[b] == '=');
    assert(s[b] != esc());
    assert(skip_escapes(s, b) == b);
    lemma_skip_csi_run(s, b + 1, after);
    assert(is_digit(id[0]));
    assert(s[f] == id[0]);
    assert(skip_escapes(s, f) == f);
    assert(dated_stem_at(s, f)) by {
        assert(dated_stem_at(id, 0));
        assert forall|m: int| f <= m < f + 18 implies #[trigger] s[m] == id[m - f] by {
            assert(s[f + (m - f)] == id[m - f]);
        }
        assert forall|m: int| f <= m < f + 4 implies is_digit(#[trigger] s[m]) by {
            assert(is_digit(id[m - f]));
        }
        assert forall|m: int| f + 5 <= m < f + 7 implies is_digit(#[trigger] s[m]) by {
            assert(is_digit(id[m - f]));
        }
        assert forall|m: int| f + 8 <= m < f + 10 implies is_digit(#[trigger] s[m]) by {
            assert(is_digit(id[m - f]));
        }
        assert forall|m: int| f + 11 <= m < f + 17 implies is_digit(#[trigger] s[m]) by {
            assert(is_digit(id[m - f]));
        }
    }
    assert forall|m: int| f + 18 <= m < e implies is_lower_hex(#[trigger] s[m]) by {
        assert(s[f + (m - f)] == id[m - f]);
    }
    lemma_hex_run_end(s, f + 18, e);
    assert(announcement_at(s, p) == Some(id));
}

/// A line that says `task_id=<id>`, with `<id>` of the orchestrator's shape,
/// announces `<id>` whatever precedes it (so long as the word `task_id`
/// does not occur there) and whatever follows it (so long as it does not
/// go on with a lowercase hex digit); the same line with control sequences
/// around the `=` announces the same id.
pub proof fn law_announced_task_id_is_found(
    prefix: Seq<char>,
    before: Seq<(Seq<char>, char)>,
    after: Seq<(Seq<char>, char)>,
    id: Seq<char>,
    suffix: Seq<char>,
)
    requires
        !contains_seq(prefix, id_key()),
        is_csi_run(before),
        is_csi_run(after),
        is_task_id_shape(id),
        suffix.len() == 0 || !is_lower_hex(suffix[0]),
    ensures
        announced_task_id(prefix + id_key() + seq!['='] + id + suffix) == Some(id),
        announced_task_id(escaped_announcement(prefix, before, after, id, suffix))
            == announced_task_id(prefix + id_key() + seq!['='] + id + suffix),
{
    let none = Seq::<(Seq<char>, char)>::empty();
    assert(is_csi_run(none));
    law_escaped_announcement_is_found(prefix, before, after, id, suffix);
    law_escaped_announcement_is_found(prefix, none, none, id, suffix);
    reveal(escaped_announcement);
    assert(csi_run(none) == Seq::<char>::empty());
    assert(escaped_announcement(prefix, none, none, id, suffix) =~= prefix + id_key() + seq!['=']
        + id + suffix);
}

} // verus!
