//! Bookkeeping of the orchestrator processes a console has spawned: the
//! entries of the on-disk pid file and the in-memory registry of live
//! child handles, keyed by task id.

use vstd::prelude::*;
use crate::text::{chars_of, contains_chars, contains_seq};
use crate::keyed::{
    lookup, without_key, has_key, keys_unique, lemma_lookup_some_iff_has_key, lemma_lookup_unique,
    lemma_without_key_unique, lemma_without_unique_key, lemma_without_absent_key, lemma_lookup_push,
    law_removed_key_is_gone, law_removal_keeps_other_keys,
};

verus! {

/// One entry of the pid file: which process runs which task, and when it
/// was started (RFC 3339 text, carried through unchanged).
#[derive(Debug)]
pub struct PidEntry {
    pub task_id: String,
    pub pid: u32,
    pub started_at: String,
}

impl View for PidEntry {
    type V = (Seq<char>, (u32, Seq<char>));

    open spec fn view(&self) -> (Seq<char>, (u32, Seq<char>)) {
        (self.task_id@, (self.pid, self.started_at@))
    }
}

/// The keyed view of a list of pid-file entries.
pub open spec fn entries_view(s: Seq<PidEntry>) -> Seq<(Seq<char>, (u32, Seq<char>))> {
    s.map_values(|e: PidEntry| e@)
}

impl PidEntry {
    pub fn new(task_id: String, pid: u32, started_at: String) -> (e: PidEntry)
        ensures
            e.task_id == task_id,
            e.pid == pid,
            e.started_at == started_at,
    {
        PidEntry { task_id, pid, started_at }
    }

    /// A copy of this entry.
    pub fn duplicate(&self) -> (e: PidEntry)
        ensures
            e@ == self@,
    {
        PidEntry { task_id: self.task_id.clone(), pid: self.pid, started_at: self.started_at.clone() }
    }
}

/// The pid and start time recorded for `task_id`: those of the first entry
/// that names it, or `None` when no entry does.
pub fn find_pid_entry(entries: &[PidEntry], task_id: &str) -> (r: Option<(u32, String)>)
    ensures
        match r {
            Some((pid, started)) => lookup(entries_view(entries@), task_id@) == Some(
                (pid, started@),
            ),
            None => lookup(entries_view(entries@), task_id@) is None,
        },
{
    let key = task_id.to_owned();
    let ghost whole = entries_view(entries@);
    let mut i: usize = 0;
    assert(whole.skip(0) =~= whole);
    while i < entries.len()
        invariant
            i <= entries@.len(),
            key@ == task_id@,
            whole == entries_view(entries@),
            lookup(whole, key@) == lookup(whole.skip(i as int), key@),
        decreases entries@.len() - i,
    {
        let e = &entries[i];
        let ghost rest = whole.skip(i as int);
        assert(rest[0] == e@);
        if e.task_id == key {
            return Some((e.pid, e.started_at.clone()));
        }
        assert(rest.drop_first() =~= whole.skip(i + 1));
        i = i + 1;
    }
    None
}

/// The entries to keep once `task_id` is pruned from the pid file, in
/// their order; `None` when no entry names `task_id`, so that the file is
/// left untouched.
pub fn prune_pid_entries(entries: &[PidEntry], task_id: &str) -> (r: Option<Vec<PidEntry>>)
    ensures
        match r {
            Some(kept) => has_key(entries_view(entries@), task_id@) && entries_view(kept@)
                == without_key(entries_view(entries@), task_id@),
            None => !has_key(entries_view(entries@), task_id@),
        },
{
    let key = task_id.to_owned();
    let ghost whole = entries_view(entries@);
    let mut kept: Vec<PidEntry> = Vec::new();
    let mut removed = false;
    let mut i: usize = 0;
    assert(whole.skip(0) =~= whole);
    assert(entries_view(kept@) + without_key(whole, key@) =~= without_key(whole, key@));
    while i < entries.len()
        invariant
            i <= entries@.len(),
            key@ == task_id@,
            whole == entries_view(entries@),
            without_key(whole, key@) == entries_view(kept@) + without_key(
                whole.skip(i as int),
                key@,
            ),
            removed <==> exists|j: int| 0 <= j < i && (#[trigger] whole[j]).0 == key@,
        decreases entries@.len() - i,
    {
        let e = &entries[i];
        let ghost rest = whole.skip(i as int);
        assert(rest[0] == e@);
        assert(rest.drop_first() =~= whole.skip(i + 1));
        assert(whole[i as int] == e@);
        if e.task_id == key {
            removed = true;
        } else {
            let ghost before = entries_view(kept@);
            kept.push(e.duplicate());
            assert(entries_view(kept@) =~= before.push(e@));
            assert(before + (seq![e@] + without_key(whole.skip(i + 1), key@)) =~= before.push(e@)
                + without_key(whole.skip(i + 1), key@));
        }
        i = i + 1;
    }
    assert(whole.skip(entries@.len() as int) =~= Seq::<(Seq<char>, (u32, Seq<char>))>::empty());
    assert(entries_view(kept@) + Seq::<(Seq<char>, (u32, Seq<char>))>::empty() =~= entries_view(
        kept@,
    ));
    if removed {
        Some(kept)
    } else {
        None
    }
}

/// A live orchestrator process: the handle to its child process, its pid,
/// when it was started (RFC 3339 text) and the workdir it runs against.
pub struct Registered<H> {
    pub task_id: String,
    pub handle: H,
    pub pid: u32,
    pub started_at: String,
    pub workdir: String,
}

impl<H> View for Registered<H> {
    type V = (Seq<char>, (H, u32, Seq<char>, Seq<char>));

    open spec fn view(&self) -> (Seq<char>, (H, u32, Seq<char>, Seq<char>)) {
        (self.task_id@, (self.handle, self.pid, self.started_at@, self.workdir@))
    }
}

/// The processes a console has spawned and not yet cancelled, at most one
/// per task id, in the order they were registered.
pub struct ProcessRegistry<H> {
    entries: Vec<Registered<H>>,
}

/// The metadata a snapshot lists for each registered process.
pub open spec fn metadata_view<H>(s: Seq<(Seq<char>, (H, u32, Seq<char>, Seq<char>))>) -> Seq<
    (Seq<char>, u32, Seq<char>, Seq<char>),
> {
    s.map_values(|e: (Seq<char>, (H, u32, Seq<char>, Seq<char>))| (e.0, e.1.1, e.1.2, e.1.3))
}

impl<H> View for ProcessRegistry<H> {
    type V = Seq<(Seq<char>, (H, u32, Seq<char>, Seq<char>))>;

    closed spec fn view(&self) -> Seq<(Seq<char>, (H, u32, Seq<char>, Seq<char>))> {
        self.entries@.map_values(|r: Registered<H>| r@)
    }
}

impl<H> ProcessRegistry<H> {
    /// No two registered processes share a task id.
    #[verifier::type_invariant]
    closed spec fn unique_tasks(self) -> bool {
        keys_unique(self@)
    }

    /// An empty registry.
    pub fn new() -> (r: ProcessRegistry<H>)
        ensures
            r@ == Seq::<(Seq<char>, (H, u32, Seq<char>, Seq<char>))>::empty(),
    {
        let r = ProcessRegistry { entries: Vec::new() };
        assert(r@ =~= Seq::<(Seq<char>, (H, u32, Seq<char>, Seq<char>))>::empty());
        r
    }

    fn index_of(entries: &Vec<Registered<H>>, key: &String) -> (r: Option<usize>)
        ensures
            match r {
                Some(i) => i < entries@.len() && entries@[i as int].task_id@ == key@,
                None => !has_key(entries@.map_values(|r: Registered<H>| r@), key@),
            },
    {
        let ghost whole = entries@.map_values(|r: Registered<H>| r@);
        let mut i: usize = 0;
        while i < entries.len()
            invariant
                i <= entries@.len(),
                whole == entries@.map_values(|r: Registered<H>| r@),
                forall|j: int| 0 <= j < i ==> (#[trigger] whole[j]).0 != key@,
            decreases entries@.len() - i,
        {
            if entries[i].task_id == *key {
                return Some(i);
            }
            assert(whole[i as int] == entries@[i as int]@);
            i = i + 1;
        }
        None
    }

    /// Registers the process spawned for `task_id`, replacing any process
    /// registered for it before.
    pub fn insert(
        &mut self,
        task_id: String,
        handle: H,
        pid: u32,
        started_at: String,
        workdir: String,
    )
        ensures
            final(self)@ == without_key(old(self)@, task_id@).push(
                (task_id@, (handle, pid, started_at@, workdir@)),
            ),
    {
        proof {
            use_type_invariant(&*self);
        }
        let mut entries: Vec<Registered<H>> = Vec::new();
        std::mem::swap(&mut entries, &mut self.entries);
        let ghost before = entries@.map_values(|r: Registered<H>| r@);
        assert(before == old(self)@);
        match Self::index_of(&entries, &task_id) {
            Some(i) => {
                let _ = entries.remove(i);
                proof {
                    assert(before[i as int] == old(self).entries@[i as int]@);
                    lemma_without_unique_key(before, i as int);
                    assert(entries@.map_values(|r: Registered<H>| r@) =~= before.remove(i as int));
                }
            },
            None => {
                proof {
                    lemma_without_absent_key(before, task_id@);
                }
            },
        }
        let ghost kept = entries@.map_values(|r: Registered<H>| r@);
        let e = Registered { task_id, handle, pid, started_at, workdir };
        let ghost ev = e@;
        entries.push(e);
        proof {
            assert(entries@.map_values(|r: Registered<H>| r@) =~= kept.push(ev));
            lemma_without_key_unique(before, ev.0);
            law_removed_key_is_gone(before, ev.0);
            lemma_lookup_some_iff_has_key(kept, ev.0);
            let s = kept.push(ev);
            assert forall|a: int, b: int| 0 <= a < b < s.len() implies (#[trigger] s[a]).0 != (
            #[trigger] s[b]).0 by {
                if b == s.len() - 1 {
                    assert(s[a] == kept[a]);
                    if kept[a].0 == ev.0 {
                        assert(has_key(kept, ev.0));
                    }
                } else {
                    assert(s[a] == kept[a] && s[b] == kept[b]);
                }
            }
        }
        self.entries = entries;
    }

    /// Takes the process registered for `task_id` out of the registry,
    /// with its pid, start time and workdir; `None`, and the registry
    /// unchanged, when no process is registered for it.
    pub fn take(&mut self, task_id: &str) -> (r: Option<(H, u32, String, String)>)
        ensures
            match r {
                Some((handle, pid, started_at, workdir)) => lookup(old(self)@, task_id@) == Some(
                    (handle, pid, started_at@, workdir@),
                ) && final(self)@ == without_key(old(self)@, task_id@),
                None => lookup(old(self)@, task_id@) is None && final(self)@ == old(self)@,
            },
    {
        proof {
            use_type_invariant(&*self);
        }
        let key = task_id.to_owned();
        let mut entries: Vec<Registered<H>> = Vec::new();
        std::mem::swap(&mut entries, &mut self.entries);
        let ghost before = entries@.map_values(|r: Registered<H>| r@);
        assert(before == old(self)@);
        match Self::index_of(&entries, &key) {
            Some(i) => {
                let e = entries.remove(i);
                proof {
                    assert(before[i as int] == e@);
                    lemma_lookup_unique(before, i as int);
                    lemma_without_unique_key(before, i as int);
                    assert(entries@.map_values(|r: Registered<H>| r@) =~= before.remove(i as int));
                    lemma_without_key_unique(before, key@);
                }
                self.entries = entries;
                let Registered { task_id: _, handle, pid, started_at, workdir } = e;
                Some((handle, pid, started_at, workdir))
            },
            None => {
                proof {
                    lemma_lookup_some_iff_has_key(before, key@);
                }
                self.entries = entries;
                None
            },
        }
    }

    /// The task id, pid, start time and workdir of every registered
    /// process, in registration order.
    pub fn snapshot(&self) -> (r: Vec<(String, u32, String, String)>)
        ensures
            r@.map_values(|t: (String, u32, String, String)| (t.0@, t.1, t.2@, t.3@))
                == metadata_view(self@),
    {
        let mut r: Vec<(String, u32, String, String)> = Vec::new();
        let mut i: usize = 0;
        while i < self.entries.len()
            invariant
                i <= self.entries@.len(),
                r@.map_values(|t: (String, u32, String, String)| (t.0@, t.1, t.2@, t.3@))
                    =~= metadata_view(self@).take(i as int),
            decreases self.entries@.len() - i,
        {
            let e = &self.entries[i];
            let ghost before = r@.map_values(
                |t: (String, u32, String, String)| (t.0@, t.1, t.2@, t.3@),
            );
            r.push((e.task_id.clone(), e.pid, e.started_at.clone(), e.workdir.clone()));
            proof {
                assert(self@[i as int] == e@);
                assert(r@.map_values(|t: (String, u32, String, String)| (t.0@, t.1, t.2@, t.3@))
                    =~= before.push(metadata_view(self@)[i as int]));
                assert(metadata_view(self@).take(i as int).push(metadata_view(self@)[i as int])
                    =~= metadata_view(self@).take(i + 1));
            }
            i = i + 1;
        }
        assert(metadata_view(self@).take(self.entries@.len() as int) =~= metadata_view(self@));
        r
    }

    /// The pid-file entries that record the registered processes: task id,
    /// pid and start time of each, in registration order.
    pub fn pid_entries(&self) -> (r: Vec<PidEntry>)
        ensures
            entries_view(r@) == recorded_view(self@),
    {
        let mut r: Vec<PidEntry> = Vec::new();
        let mut i: usize = 0;
        while i < self.entries.len()
            invariant
                i <= self.entries@.len(),
                entries_view(r@) =~= recorded_view(self@).take(i as int),
            decreases self.entries@.len() - i,
        {
            let e = &self.entries[i];
            let ghost before = entries_view(r@);
            r.push(PidEntry::new(e.task_id.clone(), e.pid, e.started_at.clone()));
            proof {
                assert(self@[i as int] == e@);
                assert(entries_view(r@) =~= before.push(recorded_view(self@)[i as int]));
                assert(recorded_view(self@).take(i as int).push(recorded_view(self@)[i as int])
                    =~= recorded_view(self@).take(i + 1));
            }
            i = i + 1;
        }
        assert(recorded_view(self@).take(self.entries@.len() as int) =~= recorded_view(self@));
        r
    }
}

/// Taking a task's process right after registering it hands back exactly
/// what was registered, and leaves the registry as it was without that task.
pub proof fn law_take_returns_what_insert_registered<H>(
    before: Seq<(Seq<char>, (H, u32, Seq<char>, Seq<char>))>,
    task_id: Seq<char>,
    value: (H, u32, Seq<char>, Seq<char>),
)
    ensures
        ({
            let after = without_key(before, task_id).push((task_id, value));
            &&& lookup(after, task_id) == Some(value)
            &&& without_key(after, task_id) == without_key(before, task_id)
        }),
{
    let kept = without_key(before, task_id);
    law_removed_key_is_gone(before, task_id);
    lemma_lookup_some_iff_has_key(kept, task_id);
    lemma_lookup_push(kept, (task_id, value), task_id);
    lemma_without_push_same_key(kept, (task_id, value));
}

/// Registering a process for one task leaves what every other task finds
/// in the registry unchanged.
pub proof fn law_insert_keeps_other_tasks<H>(
    before: Seq<(Seq<char>, (H, u32, Seq<char>, Seq<char>))>,
    task_id: Seq<char>,
    value: (H, u32, Seq<char>, Seq<char>),
    other: Seq<char>,
)
    requires
        other != task_id,
    ensures
        lookup(without_key(before, task_id).push((task_id, value)), other) == lookup(before, other),
{
    lemma_lookup_push(without_key(before, task_id), (task_id, value), other);
    law_removal_keeps_other_keys(before, task_id, other);
}

proof fn lemma_without_push_same_key<V>(s: Seq<(Seq<char>, V)>, e: (Seq<char>, V))
    requires
        !has_key(s, e.0),
    ensures
        without_key(s.push(e), e.0) == s,
    decreases s.len(),
{
    if s.len() == 0 {
        assert(s.push(e).drop_first() =~= s);
        assert(s.push(e)[0] == e);
        assert(without_key(s, e.0) == s);
    } else {
        assert(s.push(e)[0] == s[0]);
        assert(s.push(e).drop_first() =~= s.drop_first().push(e));
        assert(s[0].0 != e.0) by {
            if s[0].0 == e.0 {
                assert(has_key(s, e.0));
            }
        }
        assert(!has_key(s.drop_first(), e.0)) by {
            if has_key(s.drop_first(), e.0) {
                let i = choose|i: int|
                    0 <= i < s.drop_first().len() && (#[trigger] s.drop_first()[i]).0 == e.0;
                assert(s[i + 1] == s.drop_first()[i]);
            }
        }
        lemma_without_push_same_key(s.drop_first(), e);
        assert(without_key(s.push(e), e.0) == seq![s[0]] + without_key(s.drop_first().push(e), e.0));
        assert(seq![s[0]] + s.drop_first() =~= s);
    }
}

/// What the `kill -TERM <pid>` that cancels a task came to.
#[derive(Debug, Clone, Copy, PartialEq, Eq, Structural)]
pub enum KillOutcome {
    /// The signal was delivered.
    Signalled,
    /// The process had already exited (`ESRCH`): the task completed.
    AlreadyCompleted,
    /// `kill` failed for another reason.
    Failed,
}

/// The words `kill` prints when the process does not exist.
pub open spec fn no_such_process() -> Seq<char> {
    seq!['N', 'o', ' ', 's', 'u', 'c', 'h', ' ', 'p', 'r', 'o', 'c', 'e', 's', 's']
}

/// Classifies the exit of `kill -TERM`: success is a delivered signal; a
/// failure whose error output says "No such process", or whose exit code
/// is 1, means the task already completed; any other failure is a failure.
pub fn classify_kill(success: bool, exit_code: Option<i32>, stderr: &str) -> (r: KillOutcome)
    ensures
        r == if success {
            KillOutcome::Signalled
        } else if contains_seq(stderr@, no_such_process()) || exit_code == Some(1i32) {
            KillOutcome::AlreadyCompleted
        } else {
            KillOutcome::Failed
        },
{
    if success {
        return KillOutcome::Signalled;
    }
    let words: Vec<char> = vec!['N', 'o', ' ', 's', 'u', 'c', 'h', ' ', 'p', 'r', 'o', 'c', 'e', 's', 's'];
    assert(words@ =~= no_such_process());
    let err = chars_of(stderr);
    let code_is_one = match exit_code {
        Some(c) => c == 1,
        None => false,
    };
    if contains_chars(err.as_slice(), words.as_slice()) || code_is_one {
        KillOutcome::AlreadyCompleted
    } else {
        KillOutcome::Failed
    }
}

/// What the cancel path does next.
#[derive(Debug, Clone, PartialEq, Eq)]
pub enum CancelLookup {
    /// Signal this pid; its start time, when known, is for the log.
    Signal(u32, Option<String>),
    /// The registry holds no process for the task: read the pid file.
    ReadPidFile,
    /// Neither the registry nor the pid file knows the task.
    NoSuchTask,
}

/// The cancel path's lookup: the process the in-memory registry held for
/// the task when it held one, and only otherwise the pid file, read once
/// this asks for it (`on_disk` is `None` until then, else what the file
/// records for the task).
pub fn cancel_lookup(
    in_memory: Option<(u32, String)>,
    on_disk: Option<Option<(u32, Option<String>)>>,
) -> (r: CancelLookup)
    ensures
        r == match in_memory {
            Some((pid, started)) => CancelLookup::Signal(pid, Some(started)),
            None => match on_disk {
                None => CancelLookup::ReadPidFile,
                Some(None) => CancelLookup::NoSuchTask,
                Some(Some((pid, started))) => CancelLookup::Signal(pid, started),
            },
        },
{
    match in_memory {
        Some((pid, started)) => CancelLookup::Signal(pid, Some(started)),
        None => match on_disk {
            None => CancelLookup::ReadPidFile,
            Some(None) => CancelLookup::NoSuchTask,
            Some(Some((pid, started))) => CancelLookup::Signal(pid, started),
        },
    }
}

/// The instant an RFC 3339 text names, rendered in RFC 3339 in UTC, as
/// chrono reads and writes it; `None` where chrono cannot read the text.
pub uninterp spec fn rfc3339_in_utc(text: Seq<char>) -> Option<Seq<char>>;

/// Reads `text` with `chrono::DateTime::parse_from_rfc3339`, moves it to
/// UTC and renders it with `to_rfc3339`. The contract names the result and
/// claims nothing else of it.
#[verifier::external_body]
fn parse_rfc3339_utc(text: &str) -> (r: Option<String>)
    ensures
        match r {
            Some(t) => rfc3339_in_utc(text@) == Some(t@),
            None => rfc3339_in_utc(text@) is None,
        },
{
    match chrono::DateTime::parse_from_rfc3339(text) {
        Ok(instant) => Some(instant.with_timezone(&chrono::Utc).to_rfc3339()),
        Err(_) => None,
    }
}

/// The start time a pid-file entry records, as the cancel path logs it:
/// the entry's RFC 3339 text read and rendered in UTC, or nothing when it
/// does not read as RFC 3339.
pub fn recorded_start(started_at: &str) -> (r: Option<String>)
    ensures
        match r {
            Some(t) => rfc3339_in_utc(started_at@) == Some(t@),
            None => rfc3339_in_utc(started_at@) is None,
        },
{
    parse_rfc3339_utc(started_at)
}

/// What the pid file records of registered processes: their pid and start
/// time, by task id.
pub open spec fn recorded_view<H>(s: Seq<(Seq<char>, (H, u32, Seq<char>, Seq<char>))>) -> Seq<
    (Seq<char>, (u32, Seq<char>)),
> {
    s.map_values(|e: (Seq<char>, (H, u32, Seq<char>, Seq<char>))| (e.0, (e.1.1, e.1.2)))
}

/// The pid file written from a registry answers every lookup as the
/// registry does: after a restart, the cancel path finds in the file the
/// pid and start time of the process the registry held for the task, and
/// nothing for a task the registry did not hold.
pub proof fn law_pid_file_finds_registered_process<H>(
    s: Seq<(Seq<char>, (H, u32, Seq<char>, Seq<char>))>,
    task_id: Seq<char>,
)
    ensures
        lookup(recorded_view(s), task_id) == match lookup(s, task_id) {
            Some(v) => Some((v.1, v.2)),
            None => None::<(u32, Seq<char>)>,
        },
    decreases s.len(),
{
    if s.len() > 0 {
        law_pid_file_finds_registered_process(s.drop_first(), task_id);
        assert(recorded_view(s).drop_first() =~= recorded_view(s.drop_first()));
        assert(recorded_view(s)[0] == (s[0].0, (s[0].1.1, s[0].1.2)));
    }
}

} // verus!
