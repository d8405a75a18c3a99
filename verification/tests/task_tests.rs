use embeder::oracle::Diagnostic;
use embeder::tasks::{
    draft_oracle, drafted_message, drafting_message, error_diagnostics, task_boundary,
    workspace_path_for, GeneratePhase, GenerateTask, SnapshotBudget, TaskRegistry, TaskState,
    TaskStatus,
};

fn diag(severity: &str, message: &str) -> Diagnostic {
    Diagnostic {
        severity: severity.to_string(),
        message: message.to_string(),
        file: Some("src/main.c".to_string()),
        line: Some(3),
        col: None,
        raw: "raw text".to_string(),
    }
}

#[test]
fn unknown_task_has_an_explicit_error() {
    let registry = TaskRegistry::new();
    assert!(registry.task_status("missing").is_err());
    assert_eq!(registry.task_status("missing").err().unwrap(), "Unknown task");
}

#[test]
fn one_task_runs_at_a_time() {
    let mut r = TaskRegistry::new();
    assert!(r.register("1-0".to_string()).is_ok());
    assert_eq!(
        r.register("1-1".to_string()).unwrap_err(),
        "A workspace task is already running"
    );
    assert_eq!(r.len(), 1);
    r.emit("1-0", "intent", "running", "Reading saved workspace sources");
    r.complete("1-0", "{\"state\":\"verified\"}".to_string());
    let t = r.task_status("1-0").unwrap();
    assert_eq!(t.status, TaskStatus::Completed);
    assert_eq!(t.events.len(), 1);
    assert_eq!(t.events[0].stage, "intent");
    assert_eq!(t.result.as_deref(), Some("{\"state\":\"verified\"}"));
    assert!(r.register("1-1".to_string()).is_ok());
    assert_eq!(r.get("1-1").unwrap().status, TaskStatus::Running);
}

#[test]
fn registry_keeps_a_bounded_history() {
    let mut r = TaskRegistry::new();
    for i in 0..32 {
        let id = format!("t-{i}");
        r.register(id.clone()).unwrap();
        r.complete(&id, String::new());
    }
    assert_eq!(r.len(), 32);
    r.register("t-32".to_string()).unwrap();
    assert_eq!(r.len(), 1);
    assert!(r.get("t-0").is_none());
}

#[test]
fn events_for_unknown_tasks_are_ignored() {
    let mut r = TaskRegistry::new();
    r.emit("nobody", "a", "b", "c");
    r.complete("nobody", String::new());
    assert_eq!(r.len(), 0);
}

#[test]
fn generate_task_heals_then_verifies() {
    let mut g = GenerateTask::new("blink", 3);
    assert_eq!(g.phase, GeneratePhase::Draft);
    g.start_attempt();
    assert_eq!(g.attempt, 1);
    assert_eq!(g.ctx.attempt, 1);
    g.compiled(false, vec![diag("error", "expected ';'")]);
    assert_eq!(g.phase, GeneratePhase::Draft);
    assert_eq!(g.ctx.compile_diagnostics.len(), 1);
    g.start_attempt();
    g.compiled(true, Vec::new());
    assert_eq!(g.phase, GeneratePhase::Simulate);
    g.simulated(false, Some("expected_uart_not_found".to_string()));
    assert_eq!(g.phase, GeneratePhase::Draft);
    assert!(g.ctx.compile_diagnostics.is_empty());
    assert_eq!(g.ctx.sim_fault.as_deref(), Some("expected_uart_not_found"));
    g.start_attempt();
    g.compiled(true, Vec::new());
    g.simulated(true, None);
    assert_eq!(g.phase, GeneratePhase::Verified);
    assert!(g.self_healed());
}

#[test]
fn generate_task_halts_when_the_budget_is_spent() {
    let mut g = GenerateTask::new("blink", 2);
    g.start_attempt();
    g.compiled(false, Vec::new());
    g.start_attempt();
    g.compiled(false, Vec::new());
    assert_eq!(g.phase, GeneratePhase::Halted);
    assert_eq!(g.attempt, 2);
    assert_eq!(GenerateTask::new("x", 0).phase, GeneratePhase::Halted);
}

#[test]
fn task_outcome_states() {
    assert_eq!(TaskState::of(true, true, true), TaskState::Verified);
    assert_eq!(TaskState::of(true, false, false), TaskState::Built);
    assert_eq!(TaskState::of(true, true, false), TaskState::Halted);
    assert_eq!(TaskState::of(false, true, true), TaskState::Halted);
    assert_eq!(TaskState::of(true, false, true).as_str(), "built");
    let b = task_boundary(true);
    assert_eq!(b.verified, vec!["cpu_boot".to_string(), "uart_tx".to_string()]);
    assert!(b.not_modeled.contains(&"rf".to_string()));
    assert!(task_boundary(false).verified.is_empty());
}

#[test]
fn draft_messages() {
    assert_eq!(draft_oracle(true, "gemini", "flash"), "gemini/flash");
    assert_eq!(draft_oracle(false, "gemini", "flash"), "grounded-synthesis");
    assert_eq!(drafting_message(1), "Drafting firmware with the model");
    assert_eq!(drafting_message(2), "Self-healing: re-drafting from the compiler diagnostics");
    assert_eq!(
        drafted_message(true, "gemini/flash", 9, ""),
        "Drafted by gemini/flash \u{b7} grounded on 9 SVD facts"
    );
    assert_eq!(
        drafted_message(false, "", 9, "no key"),
        "Deterministic grounded synthesis (no key)"
    );
}

#[test]
fn only_errors_are_fed_back() {
    let ds = vec![diag("warning", "w"), diag("error", "e1"), diag("note", "n"), diag("error", "e2")];
    let fed = error_diagnostics(&ds);
    assert_eq!(fed.len(), 2);
    assert_eq!(fed[0].message, "e1");
    assert_eq!(fed[1].message, "e2");
    assert_eq!(fed[0].raw, "");
    assert_eq!(fed[0].file.as_deref(), Some("src/main.c"));
}

#[test]
fn snapshot_budget_enforces_both_limits() {
    let mut b = SnapshotBudget::new();
    assert!(b.add(400 * 1024).is_ok());
    assert!(b.add(400 * 1024).is_ok());
    assert_eq!(
        b.add(300 * 1024).unwrap_err(),
        "Workspace exceeds the 1 MiB source snapshot limit"
    );
    assert_eq!(b.total, 800 * 1024);
    let mut c = SnapshotBudget::new();
    assert!(c.add(600 * 1024).is_err());
}

#[test]
fn build_paths_map_back_to_the_workspace() {
    let paths = vec!["src/main.c".to_string(), "src/startup.c".to_string()];
    assert_eq!(
        workspace_path_for(r"C:\tmp\build\src\main.c", &paths).as_deref(),
        Some("src/main.c")
    );
    assert_eq!(workspace_path_for("src/startup.c", &paths).as_deref(), Some("src/startup.c"));
    assert_eq!(workspace_path_for("/tmp/other.c", &paths), None);
    assert_eq!(workspace_path_for("/tmp/xsrc/main.c", &paths), None);
}
