//! The decisions of the console's two forms, as state machines that the
//! page drives: the new-task form, which starts a run, and the settings
//! form, which saves the workdir.

use vstd::prelude::*;
use crate::text::{str_is_blank, is_blank};

verus! {

/// Where the new-task form stands.
#[derive(Debug, Clone, PartialEq, Eq)]
pub enum SubmitState {
    Idle,
    Submitting,
    /// A task was launched under this id.
    Success(String),
    /// The submission failed with this message.
    Error(String),
}

/// The new-task form: the prompt being typed, where the last submission
/// stands, and the task id of the last run it started.
pub struct NewTaskForm {
    pub prompt: String,
    pub state: SubmitState,
    pub last_task_id: String,
}

/// The message shown for an empty prompt.
pub open spec fn empty_prompt_message() -> Seq<char> {
    "prompt cannot be empty"@
}

impl NewTaskForm {
    /// A fresh form: empty prompt, nothing submitted.
    pub fn new() -> (f: NewTaskForm)
        ensures
            f.prompt@.len() == 0,
            f.state == SubmitState::Idle,
            f.last_task_id@.len() == 0,
    {
        NewTaskForm { prompt: String::new(), state: SubmitState::Idle, last_task_id: String::new() }
    }

    /// The operator submits the form. A prompt that is empty once trimmed is
    /// refused with a message and starts nothing; any other prompt puts the
    /// form in `Submitting` and is returned, unchanged, for the page to run.
    pub fn submit(&mut self) -> (run: Option<String>)
        ensures
            final(self).prompt == old(self).prompt,
            final(self).last_task_id == old(self).last_task_id,
            is_blank(old(self).prompt@) ==> (run is None && (final(self).state matches SubmitState::Error(m)
                && m@ == empty_prompt_message())),
            !is_blank(old(self).prompt@) ==> ((run matches Some(p) && p@ == old(self).prompt@)
                && final(self).state == SubmitState::Submitting),
    {
        if str_is_blank(self.prompt.as_str()) {
            self.state = SubmitState::Error("prompt cannot be empty".to_owned());
            None
        } else {
            self.state = SubmitState::Submitting;
            Some(self.prompt.clone())
        }
    }

    /// The run the page started has answered: with the new task's id, which
    /// the form records while it clears the prompt, or with an error
    /// message, which it shows while it keeps the prompt.
    pub fn run_finished(&mut self, result: Result<String, String>)
        ensures
            match result {
                Ok(id) => final(self).state == SubmitState::Success(id) && final(self).last_task_id
                    == id && final(self).prompt@.len() == 0,
                Err(msg) => final(self).state == SubmitState::Error(msg) && final(self).last_task_id
                    == old(self).last_task_id && final(self).prompt == old(self).prompt,
            },
    {
        match result {
            Ok(id) => {
                self.last_task_id = id.clone();
                self.state = SubmitState::Success(id);
                self.prompt = String::new();
            },
            Err(msg) => {
                self.state = SubmitState::Error(msg);
            },
        }
    }
}

/// The settings form: the workdir being edited (none until the operator
/// types), whether a save is under way, and the last save's message.
pub struct SettingsForm {
    pub draft: Option<String>,
    pub saving: bool,
    pub toast: Option<String>,
}

/// The prefix that marks a toast as a failure.
pub open spec fn failure_prefix() -> Seq<char> {
    "Save failed"@
}

/// The toast shown after a save: `Saved <workdir>`, or `Save failed: <error>`.
pub open spec fn save_toast(value: Seq<char>, result: Result<(), Seq<char>>) -> Seq<char> {
    match result {
        Ok(_) => "Saved "@ + value,
        Err(e) => "Save failed: "@ + e,
    }
}

/// Does `s` start with `prefix`?
pub open spec fn starts_with(s: Seq<char>, prefix: Seq<char>) -> bool {
    prefix.len() <= s.len() && s.take(prefix.len() as int) == prefix
}

/// Is a toast a failure (shown in red)? It is when it starts with
/// `Save failed`.
pub fn toast_is_error(message: &str) -> (b: bool)
    ensures
        b == starts_with(message@, failure_prefix()),
{
    let m = crate::text::chars_of(message);
    let p: Vec<char> = vec!['S', 'a', 'v', 'e', ' ', 'f', 'a', 'i', 'l', 'e', 'd'];
    proof {
        reveal_strlit("Save failed");
    }
    assert(p@ =~= failure_prefix());
    if m.len() < p.len() {
        return false;
    }
    let mut i: usize = 0;
    while i < p.len()
        invariant
            i <= p@.len(),
            p@.len() <= m@.len(),
            m@ == message@,
            p@ == failure_prefix(),
            forall|k: int| 0 <= k < i ==> m@[k] == p@[k],
        decreases p@.len() - i,
    {
        if m[i] != p[i] {
            assert(message@.take(p@.len() as int)[i as int] != p@[i as int]);
            return false;
        }
        i = i + 1;
    }
    assert(message@.take(p@.len() as int) =~= p@);
    true
}

impl SettingsForm {
    /// A fresh form: nothing typed, nothing saving, no message.
    pub fn new() -> (f: SettingsForm)
        ensures
            f.draft is None,
            !f.saving,
            f.toast is None,
    {
        SettingsForm { draft: None, saving: false, toast: None }
    }

    /// What the workdir field shows: the draft, or the current workdir
    /// until the operator types.
    pub fn input_value(&self, current: &str) -> (r: String)
        ensures
            r@ == match self.draft {
                Some(d) => d@,
                None => current@,
            },
    {
        match &self.draft {
            Some(d) => d.clone(),
            None => current.to_owned(),
        }
    }

    /// The operator types into the workdir field.
    pub fn edit(&mut self, text: String)
        ensures
            final(self).draft == Some(text),
            final(self).saving == old(self).saving,
            final(self).toast == old(self).toast,
    {
        self.draft = Some(text);
    }

    /// The operator presses Save: the form is saving, and the value to
    /// persist (what the field shows) is returned.
    pub fn begin_save(&mut self, current: &str) -> (value: String)
        ensures
            value@ == match old(self).draft {
                Some(d) => d@,
                None => current@,
            },
            final(self).saving,
            final(self).draft == old(self).draft,
            final(self).toast == old(self).toast,
    {
        let value = self.input_value(current);
        self.saving = true;
        value
    }

    /// The save of `value` has answered. On success the draft is dropped
    /// and `value` is returned as the new workdir; either way the form stops
    /// saving and shows the toast for the outcome.
    pub fn finish_save(&mut self, value: String, result: Result<(), String>) -> (new_workdir: Option<String>)
        ensures
            !final(self).saving,
            final(self).toast matches Some(t) && t@ == save_toast(
                value@,
                match result {
                    Ok(_) => Ok(()),
                    Err(e) => Err(e@),
                },
            ),
            match result {
                Ok(_) => new_workdir == Some(value) && final(self).draft is None,
                Err(_) => new_workdir is None && final(self).draft == old(self).draft,
            },
    {
        self.saving = false;
        match result {
            Ok(()) => {
                let mut t = "Saved ".to_owned();
                t.append(value.as_str());
                self.toast = Some(t);
                self.draft = None;
                Some(value)
            },
            Err(e) => {
                let mut t = "Save failed: ".to_owned();
                t.append(e.as_str());
                self.toast = Some(t);
                None
            },
        }
    }
}

/// A successful save is never reported as a failure, and a failed one
/// always is: the toast's colour follows the outcome.
pub proof fn law_toast_colour_follows_outcome(value: Seq<char>, result: Result<(), Seq<char>>)
    ensures
        starts_with(save_toast(value, result), failure_prefix()) <==> result is Err,
{
    reveal_strlit("Saved ");
    reveal_strlit("Save failed: ");
    reveal_strlit("Save failed");
    let t = save_toast(value, result);
    match result {
        Ok(_) => {
            assert(t[4] == 'd');
            assert(failure_prefix()[4] == ' ');
            if starts_with(t, failure_prefix()) {
                assert(t.take(11)[4] == t[4]);
            }
        },
        Err(e) => {
            assert(t.take(11) =~= failure_prefix());
        },
    }
}

} // verus!
