//! Which workdir the console works against: the one saved in the config
//! file, else the one the environment names, else a default under the
//! home directory.

use vstd::prelude::*;

verus! {

/// What the JSON document `text` holds under its top-level key `key`, as
/// `serde_json` reads it: `None` when `text` is not JSON; `Some(None)` when
/// the document is not an object, lacks the key, or holds no string there;
/// `Some(Some(s))` when it holds the string `s`.
pub uninterp spec fn json_string_member(text: Seq<char>, key: Seq<char>) -> Option<Option<Seq<char>>>;

/// The view of an optional string member as the name above gives it.
pub open spec fn member_view(m: Option<Option<String>>) -> Option<Option<Seq<char>>> {
    match m {
        None => None,
        Some(None) => Some(None),
        Some(Some(s)) => Some(Some(s@)),
    }
}

/// Reads the string member `key` of the JSON document `text` with
/// `serde_json::from_str::<serde_json::Value>` and `Value::get`. Its
/// contract names the result and claims nothing else of it.
#[verifier::external_body]
fn json_member_text(text: &str, key: &str) -> (r: Option<Option<String>>)
    ensures
        member_view(r) == json_string_member(text@, key@),
{
    match serde_json::from_str::<serde_json::Value>(text) {
        Ok(doc) => match doc.get(key) {
            Some(serde_json::Value::String(member)) => Some(Some(member.clone())),
            _ => Some(None),
        },
        Err(_) => None,
    }
}

/// The config file could not be read as JSON.
#[derive(Debug, Clone, Copy, PartialEq, Eq, Structural)]
pub enum ConfigError {
    Malformed,
}

/// The key under which the config file records the workdir.
pub open spec fn workdir_key() -> Seq<char> {
    seq!['w', 'o', 'r', 'k', 'd', 'i', 'r']
}

/// The workdir a config document records, given what it holds under
/// `workdir`: an error when it is not JSON, nothing when the member is
/// missing, not a string or empty, else the member.
pub fn workdir_from_member(member: Option<Option<String>>) -> (r: Result<Option<String>, ConfigError>)
    ensures
        match member {
            None => r == Err::<Option<String>, ConfigError>(ConfigError::Malformed),
            Some(None) => r == Ok::<Option<String>, ConfigError>(None),
            Some(Some(w)) => if w@.len() == 0 {
                r == Ok::<Option<String>, ConfigError>(None)
            } else {
                r == Ok::<Option<String>, ConfigError>(Some(w))
            },
        },
{
    match member {
        None => Err(ConfigError::Malformed),
        Some(None) => Ok(None),
        Some(Some(w)) => if w.as_str().is_empty() {
            Ok(None)
        } else {
            Ok(Some(w))
        },
    }
}

/// The workdir the config document `contents` records (see
/// `workdir_from_member`).
pub fn config_workdir(contents: &str) -> (r: Result<Option<String>, ConfigError>)
    ensures
        match json_string_member(contents@, workdir_key()) {
            None => r == Err::<Option<String>, ConfigError>(ConfigError::Malformed),
            Some(None) => r == Ok::<Option<String>, ConfigError>(None),
            Some(Some(w)) => if w.len() == 0 {
                r == Ok::<Option<String>, ConfigError>(None)
            } else {
                r matches Ok(Some(s)) && s@ == w
            },
        },
{
    let key = "workdir";
    proof {
        reveal_strlit("workdir");
    }
    assert(key@ =~= workdir_key());
    workdir_from_member(json_member_text(contents, key))
}

/// The directory under the home directory that holds the runs by default.
pub open spec fn default_runs_suffix() -> Seq<char> {
    "/Development/alps-runs"@
}

/// The workdir to start with: the saved one, else the one the environment
/// names when it is not empty, else `<home>/Development/alps-runs`.
pub open spec fn resolved_workdir(saved: Option<Seq<char>>, env: Option<Seq<char>>, home: Seq<char>) -> Seq<char> {
    match saved {
        Some(s) => s,
        None => match env {
            Some(e) if e.len() > 0 => e,
            _ => home + default_runs_suffix(),
        },
    }
}

/// Resolves the workdir to start with (see `resolved_workdir`).
pub fn resolve_workdir(saved: Option<String>, env: Option<String>, home: &str) -> (r: String)
    ensures
        r@ == resolved_workdir(
            match saved {
                Some(s) => Some(s@),
                None => None,
            },
            match env {
                Some(e) => Some(e@),
                None => None,
            },
            home@,
        ),
{
    if let Some(s) = saved {
        return s;
    }
    if let Some(e) = env {
        if !e.as_str().is_empty() {
            return e;
        }
    }
    let mut r = home.to_owned();
    r.append("/Development/alps-runs");
    r
}

/// The saved workdir wins whatever the environment says; only without one
/// does a non-empty `ALPS_UI_WORKDIR` count, and only without both is the
/// default `<home>/Development/alps-runs` used.
pub proof fn law_saved_workdir_wins(saved: Option<Seq<char>>, env: Option<Seq<char>>, home: Seq<char>)
    ensures
        saved is Some ==> resolved_workdir(saved, env, home) == saved->0,
        (saved is None && (env matches Some(e) && e.len() > 0)) ==> resolved_workdir(saved, env, home)
            == env->0,
        (saved is None && !(env matches Some(e) && e.len() > 0)) ==> resolved_workdir(saved, env, home)
            == home + seq![
            '/', 'D', 'e', 'v', 'e', 'l', 'o', 'p', 'm', 'e', 'n', 't', '/', 'a', 'l', 'p', 's', '-',
            'r', 'u', 'n', 's',
        ],
{
    reveal_strlit("/Development/alps-runs");
    assert(default_runs_suffix() =~= seq![
        '/', 'D', 'e', 'v', 'e', 'l', 'o', 'p', 'm', 'e', 'n', 't', '/', 'a', 'l', 'p', 's', '-',
        'r', 'u', 'n', 's',
    ]);
}

} // verus!
