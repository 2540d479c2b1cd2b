//! How the console drives the `alps` command-line orchestrator: the
//! arguments of `alps run`, `alps list` and `alps show`, and what the
//! exit of `alps list` and `alps show` means.

use vstd::prelude::*;
use crate::text::{is_blank, str_is_blank};

verus! {

/// The arguments of the `alps run` that starts a task: the workdir, the
/// prompt file, and the deliverable path unless it is blank.
pub open spec fn run_args_view(workdir: Seq<char>, deliverable_path: Seq<char>, prompt_file: Seq<char>) -> Seq<Seq<char>> {
    let base = seq!["run"@, "--workdir"@, workdir, "--prompt-file"@, prompt_file];
    if is_blank(deliverable_path) {
        base
    } else {
        base + seq!["--deliverable-path"@, deliverable_path]
    }
}

/// The argument list of the `alps run` that starts a task.
pub fn run_args(workdir: &str, deliverable_path: &str, prompt_file: &str) -> (r: Vec<String>)
    ensures
        r@.map_values(|a: String| a@) == run_args_view(workdir@, deliverable_path@, prompt_file@),
{
    let mut r: Vec<String> = Vec::new();
    r.push("run".to_owned());
    r.push("--workdir".to_owned());
    r.push(workdir.to_owned());
    r.push("--prompt-file".to_owned());
    r.push(prompt_file.to_owned());
    if !str_is_blank(deliverable_path) {
        r.push("--deliverable-path".to_owned());
        r.push(deliverable_path.to_owned());
    }
    assert(r@.map_values(|a: String| a@) =~= run_args_view(
        workdir@,
        deliverable_path@,
        prompt_file@,
    ));
    r
}

/// What the exit of `alps show` says about the task asked for.
#[derive(Debug, Clone, Copy, PartialEq, Eq, Structural)]
pub enum ShowExit {
    /// It succeeded: its output is the task's detail.
    Found,
    /// It exited with code 2: no such task.
    NotFound,
    /// It failed otherwise, with this code (-1 when it had none).
    Failed(i32),
}

/// Classifies the exit of `alps show`.
pub fn classify_show_exit(success: bool, code: Option<i32>) -> (r: ShowExit)
    ensures
        r == if success {
            ShowExit::Found
        } else {
            match code {
                Some(2i32) => ShowExit::NotFound,
                Some(c) => ShowExit::Failed(c),
                None => ShowExit::Failed(-1i32),
            }
        },
{
    if success {
        return ShowExit::Found;
    }
    match code {
        Some(c) => if c == 2 {
            ShowExit::NotFound
        } else {
            ShowExit::Failed(c)
        },
        None => ShowExit::Failed(-1),
    }
}

/// Classifies the exit of `alps list`: `Ok` when it succeeded, else the
/// exit code it failed with (-1 when it had none).
pub fn classify_list_exit(success: bool, code: Option<i32>) -> (r: Result<(), i32>)
    ensures
        r == if success {
            Ok::<(), i32>(())
        } else {
            Err(
                match code {
                    Some(c) => c,
                    None => -1i32,
                },
            )
        },
{
    if success {
        Ok(())
    } else {
        match code {
            Some(c) => Err(c),
            None => Err(-1),
        }
    }
}

/// The arguments of the `alps list` that reads the task list.
pub fn list_args(workdir: &str) -> (r: Vec<String>)
    ensures
        r@.map_values(|a: String| a@) == seq!["list"@, "--json"@, "--workdir"@, workdir@],
{
    let mut r: Vec<String> = Vec::new();
    r.push("list".to_owned());
    r.push("--json".to_owned());
    r.push("--workdir".to_owned());
    r.push(workdir.to_owned());
    assert(r@.map_values(|a: String| a@) =~= seq!["list"@, "--json"@, "--workdir"@, workdir@]);
    r
}

/// The arguments of the `alps show` that reads one task.
pub fn show_args(workdir: &str, task_id: &str) -> (r: Vec<String>)
    ensures
        r@.map_values(|a: String| a@) == seq!["show"@, "--json"@, "--workdir"@, workdir@, task_id@],
{
    let mut r: Vec<String> = Vec::new();
    r.push("show".to_owned());
    r.push("--json".to_owned());
    r.push("--workdir".to_owned());
    r.push(workdir.to_owned());
    r.push(task_id.to_owned());
    assert(r@.map_values(|a: String| a@) =~= seq!["show"@, "--json"@, "--workdir"@, workdir@, task_id@]);
    r
}

} // verus!
