use alps_ui::domain::{Severity, TaskState};
use alps_ui::endpoint::{endpoint_hash_input, endpoint_url, server_fn_url};
use alps_ui::error::ServerFnError;
use alps_ui::forms::{toast_is_error, NewTaskForm, SettingsForm, SubmitState};
use alps_ui::orchestrator::{classify_list_exit, classify_show_exit, list_args, run_args, show_args, ShowExit};
use alps_ui::presentation::{assertion_mark, not_found_path, severity_pill, status_pill, story_pill};
use alps_ui::workdir::{config_workdir, resolve_workdir, workdir_from_member, ConfigError};

#[test]
fn run_args_include_deliverable_path_only_when_given() {
    assert_eq!(
        run_args("/w", "", "/tmp/p.md"),
        vec!["run", "--workdir", "/w", "--prompt-file", "/tmp/p.md"]
    );
    assert_eq!(run_args("/w", "   ", "/tmp/p.md").len(), 5);
    assert_eq!(
        run_args("/w", "out/app", "/tmp/p.md"),
        vec!["run", "--workdir", "/w", "--prompt-file", "/tmp/p.md", "--deliverable-path", "out/app"]
    );
}

#[test]
fn list_and_show_arguments() {
    assert_eq!(list_args("/w"), vec!["list", "--json", "--workdir", "/w"]);
    assert_eq!(show_args("/w", "t1"), vec!["show", "--json", "--workdir", "/w", "t1"]);
}

#[test]
fn show_exit_code_two_means_no_such_task() {
    assert_eq!(classify_show_exit(true, Some(0)), ShowExit::Found);
    assert_eq!(classify_show_exit(false, Some(2)), ShowExit::NotFound);
    assert_eq!(classify_show_exit(false, Some(1)), ShowExit::Failed(1));
    assert_eq!(classify_show_exit(false, None), ShowExit::Failed(-1));
    assert_eq!(classify_list_exit(true, Some(0)), Ok(()));
    assert_eq!(classify_list_exit(false, Some(2)), Err(2));
    assert_eq!(classify_list_exit(false, None), Err(-1));
}

#[test]
fn config_workdir_reads_the_workdir_member() {
    assert_eq!(config_workdir(r#"{"workdir":"/tmp/test"}"#), Ok(Some("/tmp/test".to_string())));
    assert_eq!(config_workdir(r#"{"workdir":""}"#), Ok(None));
    assert_eq!(config_workdir(r#"{"workdir":42}"#), Ok(None));
    assert_eq!(config_workdir(r#"{"other":"x"}"#), Ok(None));
    assert_eq!(config_workdir(r#"["workdir"]"#), Ok(None));
    assert_eq!(config_workdir("not json"), Err(ConfigError::Malformed));
}

#[test]
fn write_then_read_serde_shape_roundtrips() {
    let mut m = serde_json::Map::new();
    m.insert("workdir".to_string(), serde_json::Value::String("/tmp/test".to_string()));
    let s = serde_json::to_string(&serde_json::Value::Object(m)).expect("serialise");
    assert_eq!(config_workdir(&s), Ok(Some("/tmp/test".to_string())));
}

#[test]
fn workdir_from_member_cases() {
    assert_eq!(workdir_from_member(None), Err(ConfigError::Malformed));
    assert_eq!(workdir_from_member(Some(None)), Ok(None));
    assert_eq!(workdir_from_member(Some(Some(String::new()))), Ok(None));
    assert_eq!(workdir_from_member(Some(Some("/w".to_string()))), Ok(Some("/w".to_string())));
}

#[test]
fn default_workdir_falls_back_to_home_dev_alps_runs() {
    assert_eq!(resolve_workdir(None, None, "/home/kyle"), "/home/kyle/Development/alps-runs");
    assert_eq!(resolve_workdir(None, Some(String::new()), "/h"), "/h/Development/alps-runs");
    assert_eq!(resolve_workdir(None, Some("/env".to_string()), "/h"), "/env");
    assert_eq!(resolve_workdir(Some("/saved".to_string()), Some("/env".to_string()), "/h"), "/saved");
    assert_eq!(resolve_workdir(None, None, ""), "/Development/alps-runs");
}

#[test]
fn server_fn_url_hashes_manifest_dir_and_module() {
    assert_eq!(
        endpoint_hash_input("/home/kyle/alps-ui", "tasks"),
        "/home/kyle/alps-ui:alps_ui::api::tasks"
    );
    assert_eq!(endpoint_url("tasks_list", 42), "/api/tasks_list42");
    assert_eq!(
        server_fn_url("/home/kyle/alps-ui", "tasks", "tasks_list"),
        "/api/tasks_list9789516854107131152"
    );
    assert_eq!(
        server_fn_url("/srv/app", "log", "task_log_tail_ralph"),
        "/api/task_log_tail_ralph7183631436580571773"
    );
}

#[test]
fn new_task_form_refuses_blank_prompt() {
    let mut form = NewTaskForm::new();
    form.prompt = "   \n\t".to_string();
    assert_eq!(form.submit(), None);
    assert_eq!(form.state, SubmitState::Error("prompt cannot be empty".to_string()));
    assert_eq!(form.prompt, "   \n\t");
}

#[test]
fn new_task_form_submits_and_records_the_task() {
    let mut form = NewTaskForm::new();
    form.prompt = "  add a settings page ".to_string();
    assert_eq!(form.submit(), Some("  add a settings page ".to_string()));
    assert_eq!(form.state, SubmitState::Submitting);
    form.run_finished(Ok("2026-08-26T100000-abc".to_string()));
    assert_eq!(form.state, SubmitState::Success("2026-08-26T100000-abc".to_string()));
    assert_eq!(form.last_task_id, "2026-08-26T100000-abc");
    assert_eq!(form.prompt, "");
}

#[test]
fn new_task_form_keeps_prompt_on_failure() {
    let mut form = NewTaskForm::new();
    form.prompt = "do it".to_string();
    form.submit();
    form.run_finished(Err("spawn failed".to_string()));
    assert_eq!(form.state, SubmitState::Error("spawn failed".to_string()));
    assert_eq!(form.prompt, "do it");
    assert_eq!(form.last_task_id, "");
}

#[test]
fn settings_form_save_flow() {
    let mut form = SettingsForm::new();
    assert_eq!(form.input_value("/current"), "/current");
    form.edit("/new".to_string());
    assert_eq!(form.input_value("/current"), "/new");
    let value = form.begin_save("/current");
    assert_eq!(value, "/new");
    assert!(form.saving);
    let set = form.finish_save(value, Ok(()));
    assert_eq!(set, Some("/new".to_string()));
    assert!(!form.saving);
    assert_eq!(form.draft, None);
    let toast = form.toast.clone().expect("toast");
    assert_eq!(toast, "Saved /new");
    assert!(!toast_is_error(&toast));
}

#[test]
fn settings_form_failed_save_keeps_draft() {
    let mut form = SettingsForm::new();
    form.edit("/x".to_string());
    let value = form.begin_save("/current");
    assert_eq!(form.finish_save(value, Err("ServerError(500)".to_string())), None);
    assert_eq!(form.draft, Some("/x".to_string()));
    let toast = form.toast.clone().expect("toast");
    assert_eq!(toast, "Save failed: ServerError(500)");
    assert!(toast_is_error(&toast));
}

#[test]
fn toast_is_error_needs_the_whole_prefix() {
    assert!(toast_is_error("Save failed"));
    assert!(!toast_is_error("Save fail"));
    assert!(!toast_is_error("Saved Save failed"));
    assert!(!toast_is_error(""));
}

#[test]
fn status_pill_table() {
    assert_eq!(status_pill(TaskState::Running), ("Running", "bg-amber-500"));
    assert_eq!(status_pill(TaskState::Idle), ("Idle", "bg-slate-400"));
    assert_eq!(status_pill(TaskState::Planned), ("Planned", "bg-slate-400"));
    assert_eq!(status_pill(TaskState::Implemented), ("Implemented", "bg-slate-400"));
    assert_eq!(status_pill(TaskState::Reviewed), ("Reviewed", "bg-amber-500"));
    assert_eq!(status_pill(TaskState::Done), ("Done", "bg-emerald-500"));
    assert_eq!(status_pill(TaskState::Rejected), ("Rejected", "bg-rose-500"));
    assert_eq!(status_pill(TaskState::Failed), ("Failed", "bg-rose-700"));
    assert_eq!(status_pill(TaskState::Unknown), ("Unknown", "bg-orange-500"));
}

#[test]
fn severity_assertion_and_story_pills() {
    assert_eq!(severity_pill(Severity::Info), ("Info", "bg-slate-400"));
    assert_eq!(severity_pill(Severity::Warning), ("Warning", "bg-amber-500"));
    assert_eq!(severity_pill(Severity::Error), ("Error", "bg-rose-500"));
    assert_eq!(severity_pill(Severity::Critical), ("Critical", "bg-rose-700"));
    assert_eq!(assertion_mark(true), ("✓", "text-emerald-500"));
    assert_eq!(assertion_mark(false), ("✗", "text-rose-500"));
    assert_eq!(story_pill(true).0, "Pass");
    assert_eq!(story_pill(false).0, "Pending");
}

#[test]
fn not_found_path_joins_segments() {
    assert_eq!(not_found_path(&[]), "/");
    assert_eq!(not_found_path(&["some".to_string(), "random".to_string(), "path".to_string()]), "/some/random/path");
    assert_eq!(not_found_path(&["foo".to_string()]), "/foo");
}

#[test]
fn server_fn_error_displays_its_message() {
    let e = ServerFnError::new("task_cancel: no such task".to_string());
    assert_eq!(e.to_string(), "task_cancel: no such task");
    assert_eq!(e.0, "task_cancel: no such task");
}
