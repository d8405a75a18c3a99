use embeder::engine::{assign_tier, run_loop, Codegen, LoopConfig, LoopContext, LoopState};
use embeder::fixtures::{FixtureCompileOracle, FixtureSimOracle, BUG_MARKER};
use embeder::oracle::{CompileOracle, FirmwareDraft, SimOracle};
use embeder::provenance::ProvenanceEntry;
use embeder::tiers::Tier;

struct AlwaysOk;
impl Codegen for AlwaysOk {
    fn generate(&mut self, _ctx: &LoopContext) -> FirmwareDraft {
        FirmwareDraft::new(
            "stm32f4-discovery",
            "main.c",
            vec![("main.c".to_string(), "int main(){return 0;}".to_string())],
        )
    }
}

struct AlwaysBug;
impl Codegen for AlwaysBug {
    fn generate(&mut self, _ctx: &LoopContext) -> FirmwareDraft {
        FirmwareDraft::new(
            "stm32f4-discovery",
            "main.c",
            vec![("main.c".to_string(), format!("int main(){{ {} return 0; }}", BUG_MARKER))],
        )
    }
}

struct BugThenHeal;
impl Codegen for BugThenHeal {
    fn generate(&mut self, ctx: &LoopContext) -> FirmwareDraft {
        let src = if ctx.compile_diagnostics.is_empty() {
            format!("int main(){{ {} return 0; }}", BUG_MARKER)
        } else {
            "int main(){return 0;}".to_string()
        };
        FirmwareDraft::new("stm32f4-discovery", "main.c", vec![("main.c".to_string(), src)])
    }
}

#[test]
fn clean_build_verifies_in_one_attempt() {
    let mut l: Vec<ProvenanceEntry> = Vec::new();
    let mut cg = AlwaysOk;
    let o = run_loop("g", &mut cg, &FixtureCompileOracle, &FixtureSimOracle, &mut l, &LoopConfig::default());
    assert!(matches!(o.state, LoopState::Verified));
    assert_eq!(o.attempts, 1);
    assert_eq!(o.tier, Some(Tier::Verified));
    let b = o.boundary.expect("boundary present on verified");
    assert!(b.not_modeled.contains(&"rf".to_string()), "RF must be out of scope");
}

#[test]
fn self_heals_then_verifies() {
    let mut l: Vec<ProvenanceEntry> = Vec::new();
    let mut cg = BugThenHeal;
    let o = run_loop("g", &mut cg, &FixtureCompileOracle, &FixtureSimOracle, &mut l, &LoopConfig::default());
    assert!(matches!(o.state, LoopState::Verified));
    assert_eq!(o.attempts, 2, "one failed build, then a healed one");
}

#[test]
fn persistent_bug_halts_honestly() {
    let mut l: Vec<ProvenanceEntry> = Vec::new();
    let mut cg = AlwaysBug;
    let o = run_loop("g", &mut cg, &FixtureCompileOracle, &FixtureSimOracle, &mut l, &LoopConfig { max_attempts: 3 });
    assert!(matches!(o.state, LoopState::Halted));
    assert_eq!(o.attempts, 3);
    assert!(o.tier.is_none(), "a halted loop is never assigned a tier");
    assert!(!o.diagnostics.is_empty(), "halt returns the structured failure");
}

#[test]
fn provenance_is_appended_per_action() {
    let mut l: Vec<ProvenanceEntry> = Vec::new();
    let mut cg = BugThenHeal;
    let o = run_loop("g", &mut cg, &FixtureCompileOracle, &FixtureSimOracle, &mut l, &LoopConfig::default());
    // attempt 1: compile(fail); attempt 2: compile(ok) + simulate + verify = 4 records.
    assert_eq!(o.provenance_ids.len(), 4);
    assert_eq!(l.len(), 4);
}

#[test]
fn provenance_entries_name_each_action_in_order() {
    let mut l: Vec<ProvenanceEntry> = Vec::new();
    let mut cg = BugThenHeal;
    let o = run_loop("g", &mut cg, &FixtureCompileOracle, &FixtureSimOracle, &mut l, &LoopConfig::default());
    let tools: Vec<&str> = l.iter().map(|e| e.tool.as_str()).collect();
    assert_eq!(tools, vec!["compile", "compile", "simulate", "verify"]);
    assert_eq!(o.provenance_ids, vec![0, 1, 2, 3]);
    assert_eq!(l[3].tier.as_deref(), Some("verified"));
}

#[test]
fn journal_positions_continue_after_earlier_entries() {
    let mut l: Vec<ProvenanceEntry> = Vec::new();
    let mut cg = AlwaysOk;
    let _ = run_loop("a", &mut cg, &FixtureCompileOracle, &FixtureSimOracle, &mut l, &LoopConfig::default());
    let before = l.len();
    let o = run_loop("b", &mut cg, &FixtureCompileOracle, &FixtureSimOracle, &mut l, &LoopConfig::default());
    assert_eq!(o.provenance_ids[0], before);
}

#[test]
fn zero_attempt_budget_halts_without_work() {
    let mut l: Vec<ProvenanceEntry> = Vec::new();
    let mut cg = AlwaysOk;
    let o = run_loop("g", &mut cg, &FixtureCompileOracle, &FixtureSimOracle, &mut l, &LoopConfig { max_attempts: 0 });
    assert!(matches!(o.state, LoopState::Halted));
    assert_eq!(o.attempts, 0);
    assert!(l.is_empty());
}

#[test]
fn retry_sees_the_compiler_errors() {
    struct Recorder {
        seen: Vec<usize>,
    }
    impl Codegen for Recorder {
        fn generate(&mut self, ctx: &LoopContext) -> FirmwareDraft {
            self.seen.push(ctx.compile_diagnostics.len());
            FirmwareDraft::new(
                "stm32f4-discovery",
                "main.c",
                vec![("main.c".to_string(), BUG_MARKER.to_string())],
            )
        }
    }
    let mut l: Vec<ProvenanceEntry> = Vec::new();
    let mut cg = Recorder { seen: Vec::new() };
    let _ = run_loop("g", &mut cg, &FixtureCompileOracle, &FixtureSimOracle, &mut l, &LoopConfig { max_attempts: 2 });
    assert_eq!(cg.seen.len(), 2);
    assert_eq!(cg.seen[0], 0);
    assert!(cg.seen[1] > 0);
}

#[test]
fn tier_requires_both_oracles() {
    let draft = FirmwareDraft::new(
        "stm32f4-discovery",
        "main.c",
        vec![("main.c".to_string(), "int main(){return 0;}".to_string())],
    );
    let c = FixtureCompileOracle.compile(&draft);
    let s = FixtureSimOracle.simulate("fw.elf", "stm32f4-discovery");
    assert_eq!(assign_tier(&c, &s), Tier::Verified);
    let bad = FirmwareDraft::new(
        "stm32f4-discovery",
        "main.c",
        vec![("main.c".to_string(), BUG_MARKER.to_string())],
    );
    let cb = FixtureCompileOracle.compile(&bad);
    assert!(!cb.ok);
    assert_eq!(assign_tier(&cb, &s), Tier::Advisory);
}

#[test]
fn outcome_reports_the_last_attempt() {
    let mut l: Vec<ProvenanceEntry> = Vec::new();
    let mut cg = BugThenHeal;
    let o = run_loop("g", &mut cg, &FixtureCompileOracle, &FixtureSimOracle, &mut l, &LoopConfig::default());
    let healed = FirmwareDraft::new(
        "stm32f4-discovery",
        "main.c",
        vec![("main.c".to_string(), "int main(){return 0;}".to_string())],
    );
    let c = FixtureCompileOracle.compile(&healed);
    let s = FixtureSimOracle.simulate(c.artifact_path.as_deref().unwrap_or(""), "stm32f4-discovery");
    assert_eq!(o.tier, Some(assign_tier(&c, &s)));
    assert_eq!(o.artifact_path, c.artifact_path);
    assert_eq!(o.observations, s.observations);
    assert!(o.diagnostics.is_empty());

    let mut l2: Vec<ProvenanceEntry> = Vec::new();
    let mut bug = AlwaysBug;
    let h = run_loop("g", &mut bug, &FixtureCompileOracle, &FixtureSimOracle, &mut l2, &LoopConfig { max_attempts: 2 });
    assert!(matches!(h.state, LoopState::Halted));
    assert!(h.tier.is_none());
    assert!(h.artifact_path.is_none());
    assert!(h.observations.is_empty());
    assert!(h.diagnostics.iter().all(|d| d.severity == "error"));
}

#[test]
fn codegen_is_asked_once_per_attempt_with_goal_and_number() {
    struct Counter {
        seen: Vec<(String, u32)>,
    }
    impl Codegen for Counter {
        fn generate(&mut self, ctx: &LoopContext) -> FirmwareDraft {
            self.seen.push((ctx.goal.clone(), ctx.attempt));
            FirmwareDraft::new(
                "stm32f4-discovery",
                "main.c",
                vec![("main.c".to_string(), BUG_MARKER.to_string())],
            )
        }
    }
    let mut l: Vec<ProvenanceEntry> = Vec::new();
    let mut cg = Counter { seen: Vec::new() };
    let o = run_loop("blink", &mut cg, &FixtureCompileOracle, &FixtureSimOracle, &mut l, &LoopConfig { max_attempts: 3 });
    assert_eq!(o.attempts, 3);
    assert_eq!(
        cg.seen,
        vec![("blink".to_string(), 1), ("blink".to_string(), 2), ("blink".to_string(), 3)]
    );
    let tools: Vec<&str> = l.iter().map(|e| e.tool.as_str()).collect();
    assert_eq!(tools, vec!["compile", "compile", "compile"]);
    assert_eq!(l[2].actor, "oracle");
}

#[test]
fn verify_record_is_the_users_with_the_tier() {
    let mut l: Vec<ProvenanceEntry> = Vec::new();
    let mut cg = AlwaysOk;
    let _ = run_loop("g", &mut cg, &FixtureCompileOracle, &FixtureSimOracle, &mut l, &LoopConfig::default());
    let tools: Vec<&str> = l.iter().map(|e| e.tool.as_str()).collect();
    assert_eq!(tools, vec!["compile", "simulate", "verify"]);
    assert_eq!(l[2].actor, "user");
    assert_eq!(l[2].tier.as_deref(), Some("verified"));
}
