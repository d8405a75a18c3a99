use embeder::engine::{Codegen, LoopContext};
use embeder::mcp::{
    CodegenReply, CompileReply, LlmCodegen, McpCompileOracle, McpDatasheet, McpSimOracle,
    RegisterMapReply, SimReply,
};
use embeder::oracle::{Diagnostic, FirmwareDraft, SourceRef};
use embeder::provenance::{short_hash, ProvenanceLedger};
use embeder::tiers::Tier;
use embeder::toolchain::{absent, err_result, fault, fwd, truncate, ArmGccOracle, RenodeOracle};

fn draft() -> FirmwareDraft {
    FirmwareDraft::new(
        "stm32f4-discovery",
        "main.c",
        vec![
            ("main.c".to_string(), "int main(){}".to_string()),
            ("notes.txt".to_string(), "n".to_string()),
            ("vec.S".to_string(), "".to_string()),
        ],
    )
}

#[test]
fn stm32f4_gcc_profile() {
    let g = ArmGccOracle::stm32f4("fw", "arm-none-eabi-gcc".to_string());
    assert_eq!(g.cpu_flags, vec!["-mcpu=cortex-m4".to_string(), "-mthumb".to_string()]);
    assert_eq!(g.support_sources, vec!["fw/src/startup.c".to_string()]);
    assert_eq!(g.linker_script.as_deref(), Some("fw/link/stm32f4.ld"));
    assert!(g.extra_flags.contains(&"-ffreestanding".to_string()));
    let o = ArmGccOracle::new("cc".to_string());
    assert_eq!(o.extra_flags, vec!["-nostdlib".to_string(), "-c".to_string()]);
    assert!(o.linker_script.is_none());
}

#[test]
fn linked_build_plan() {
    let g = ArmGccOracle::stm32f4("fw/", "gcc".to_string());
    let p = g.compile_plan(&draft(), "/tmp/b");
    assert_eq!(p.artifact, "/tmp/b/firmware.elf");
    assert_eq!(p.writes[0], ("/tmp/b/main.c".to_string(), "int main(){}".to_string()));
    assert_eq!(p.writes.len(), 3);
    let tail: Vec<&str> = p.args.iter().skip(10).map(|s| s.as_str()).collect();
    assert_eq!(
        tail,
        vec!["-T", "fw/link/stm32f4.ld", "/tmp/b/main.c", "/tmp/b/vec.S", "fw/src/startup.c", "-o", "/tmp/b/firmware.elf"]
    );
}

#[test]
fn object_build_plan_and_snapshot_profile() {
    let o = ArmGccOracle::new("cc".to_string());
    let p = o.compile_plan(&draft(), "b");
    assert_eq!(p.artifact, "b/out.o");
    assert_eq!(
        p.args,
        vec!["-mcpu=cortex-m4", "-mthumb", "-nostdlib", "-c", "b/main.c", "b/vec.S", "-o", "b/out.o"]
            .into_iter()
            .map(String::from)
            .collect::<Vec<_>>()
    );
    let mut g = ArmGccOracle::stm32f4("fw", "gcc".to_string());
    g.use_workspace_snapshot();
    assert!(g.support_sources.is_empty());
    assert_eq!(g.linker_script.as_deref(), Some("link/stm32f4.ld"));
    assert_eq!(g.extra_flags[g.extra_flags.len() - 2..], ["-Isrc".to_string(), "-Iinclude".to_string()]);
}

#[test]
fn build_outcomes() {
    let r = ArmGccOracle::compile_outcome(
        true,
        true,
        &b"ok".to_vec(),
        &b"main.c:1:1: warning: w".to_vec(),
        "/tmp/b/firmware.elf",
        "gcc 13".to_string(),
    );
    assert!(r.ok);
    assert_eq!(r.artifact_path.as_deref(), Some("/tmp/b/firmware.elf"));
    assert_eq!(r.diagnostics.len(), 1);
    assert_eq!(r.stdout, "ok");
    let f = ArmGccOracle::compile_outcome(true, false, &Vec::new(), &Vec::new(), "x", "gcc".to_string());
    assert!(!f.ok);
    assert!(f.artifact_path.is_none());
    assert!(f.toolchain_available);
}

#[test]
fn toolchain_failures_are_reported() {
    let a = absent("arm-none-eabi-gcc");
    assert!(!a.ok && !a.toolchain_available);
    assert_eq!(a.diagnostics[0].message, "arm-none-eabi-gcc not installed");
    assert_eq!(a.toolchain, "arm-none-eabi-gcc (absent)");
    let e = err_result("gcc", "cannot create build dir");
    assert_eq!(e.toolchain, "gcc (error)");
    assert_eq!(e.diagnostics[0].severity, "error");
    let g = ArmGccOracle::new("gcc".to_string());
    assert_eq!(g.version_from_text(Some("gcc (Arm GNU) 13.2\nCopyright".to_string())), "gcc (Arm GNU) 13.2");
    assert_eq!(g.version_from_text(Some(String::new())), "gcc");
    assert_eq!(g.version_from_text(None), "gcc (absent)");
    assert_eq!(g.version_from_output(Some(&b"v1\r\n".to_vec())), "v1");
}

#[test]
fn renode_script_and_helpers() {
    let r = RenodeOracle::stm32f4("renode".to_string());
    assert_eq!(r.timeout_secs, 180);
    assert_eq!(RenodeOracle::default().bin, "renode");
    let s = r.script(r"C:\b\firmware.elf", "/tmp/s/uart.txt");
    assert_eq!(
        s,
        "mach create \"embeder\"\nmachine LoadPlatformDescription @platforms/boards/stm32f4_discovery.repl\nsysbus LoadELF @C:/b/firmware.elf\nsysbus.usart2 CreateFileBackend @/tmp/s/uart.txt\nemulation RunFor \"0.5\"\nsysbus.usart2 CloseFileBackend @/tmp/s/uart.txt\nquit\n"
    );
    assert_eq!(fwd(r"a\b\c"), "a/b/c");
    assert_eq!(truncate("h\u{e9}llo", 2), "h\u{e9}");
    assert_eq!(RenodeOracle::command_args("run.resc").len(), 4);
    assert_eq!(RenodeOracle::full_boundary().stubbed, vec!["adc_values".to_string()]);
}

#[test]
fn renode_outcomes() {
    let r = RenodeOracle::stm32f4("renode".to_string());
    let pass = r.outcome(Some(0), false, "log", "  Hello from Embeder\r\nHello from Embeder\r\n");
    assert!(pass.ok);
    assert!(pass.fault.is_none());
    assert_eq!(pass.observations[0], ("uart".to_string(), "Hello from Embeder".to_string()));
    assert_eq!(pass.observations[1], ("uart_bytes".to_string(), "42".to_string()));
    assert!(pass.log.starts_with("renode exit=Some(0) timed_out=false; uart_captured=42 bytes; expect=\"Hello from Embeder\" -> pass=true\n"));
    let miss = r.outcome(Some(-1), false, "", "");
    assert_eq!(miss.fault.as_deref(), Some("expected_uart_not_found"));
    assert!(miss.log.starts_with("renode exit=Some(-1)"));
    let late = r.outcome(None, true, "", "Hello from Embeder");
    assert!(!late.ok);
    assert_eq!(late.fault.as_deref(), Some("timeout"));
    let f = fault("renode", "engine_absent", "renode not available", false);
    assert_eq!(f.engine, "renode (absent)");
    assert_eq!(r.absent_fault().log, "renode not available");
}

#[test]
fn mcp_compile_replies() {
    let o = McpCompileOracle::stm32f4("python".to_string(), "servers/firmware_server.py".to_string(), "fw");
    assert_eq!(o.args, vec!["servers/firmware_server.py".to_string()]);
    assert_eq!(o.cc, "arm-none-eabi-gcc");
    let r = McpCompileOracle::result_from_reply(CompileReply {
        ok: Some(false),
        stdout: None,
        stderr: Some("main.c:2:3: error: bad".to_string()),
        artifact_path: None,
        toolchain: None,
        available: None,
    });
    assert!(!r.ok);
    assert_eq!(r.diagnostics.len(), 1);
    assert_eq!(r.toolchain, "arm-none-eabi-gcc (mcp)");
    assert!(r.toolchain_available);
    let e = McpCompileOracle::start_failed("no python");
    assert_eq!(e.diagnostics[0].message, "cannot start MCP firmware server: no python");
    assert_eq!(e.toolchain, "mcp:firmware (error)");
}

#[test]
fn mcp_compile_reply_keeps_artifact_only_on_success() {
    let failed = McpCompileOracle::result_from_reply(CompileReply {
        ok: Some(false),
        stdout: None,
        stderr: Some("main.c:2:3: error: bad".to_string()),
        artifact_path: Some("a.elf".to_string()),
        toolchain: None,
        available: Some(true),
    });
    assert!(!failed.ok);
    assert_eq!(failed.artifact_path, None);
    let missing_ok = McpCompileOracle::result_from_reply(CompileReply {
        ok: None,
        stdout: None,
        stderr: None,
        artifact_path: Some("a.elf".to_string()),
        toolchain: None,
        available: None,
    });
    assert_eq!(missing_ok.artifact_path, None);
    let built = McpCompileOracle::result_from_reply(CompileReply {
        ok: Some(true),
        stdout: Some("done".to_string()),
        stderr: None,
        artifact_path: Some("a.elf".to_string()),
        toolchain: Some("gcc 13".to_string()),
        available: Some(true),
    });
    assert!(built.ok);
    assert_eq!(built.artifact_path.as_deref(), Some("a.elf"));
    assert_eq!(built.toolchain, "gcc 13");
}

#[test]
fn mcp_sim_replies() {
    let pass = McpSimOracle::result_from_reply(SimReply {
        available: Some(true),
        ok: Some(true),
        timed_out: Some(false),
        uart: Some("Hello from Embeder\r\n".to_string()),
        uart_bytes: Some(20),
        log: Some("log".to_string()),
    });
    assert!(pass.ok);
    assert_eq!(pass.observations[1].1, "20");
    assert_eq!(pass.engine, "renode (mcp)");
    let absent = McpSimOracle::result_from_reply(SimReply {
        available: Some(false),
        ok: Some(true),
        timed_out: None,
        uart: None,
        uart_bytes: None,
        log: None,
    });
    assert_eq!(absent.fault.as_deref(), Some("engine_absent"));
    assert_eq!(absent.engine, "renode (mcp, error)");
    let quiet = McpSimOracle::result_from_reply(SimReply {
        available: None,
        ok: None,
        timed_out: Some(true),
        uart: None,
        uart_bytes: None,
        log: None,
    });
    assert_eq!(quiet.fault.as_deref(), Some("timeout"));
    assert_eq!(quiet.observations[0].1, "");
}

#[test]
fn mcp_datasheet_replies() {
    let d = McpDatasheet::new("python".to_string(), "ds.py".to_string(), "x.svd".to_string());
    assert_eq!(d.args, vec!["ds.py".to_string()]);
    let hit = McpDatasheet::map_from_reply(
        "usart2",
        RegisterMapReply {
            found: Some(true),
            note: None,
            base_address: Some(0x4000_4400),
            registers: Some(vec![
                (Some("SR".to_string()), Some(0x4000_4400)),
                (None, Some(1)),
                (Some("CR1".to_string()), Some(0x4000_440C)),
            ]),
            source: Some("stm32f4-mini.svd".to_string()),
            name: Some("USART2".to_string()),
        },
    );
    assert!(hit.found);
    assert_eq!(hit.tier, Tier::Verified);
    assert_eq!(hit.registers, vec![("SR".to_string(), 0x4000_4400), ("CR1".to_string(), 0x4000_440C)]);
    assert_eq!(hit.citation.as_deref(), Some("stm32f4-mini.svd::device/peripherals/USART2"));
    let miss = McpDatasheet::map_from_reply(
        "SPI5",
        RegisterMapReply { found: None, note: None, base_address: Some(1), registers: None, source: None, name: None },
    );
    assert!(!miss.found);
    assert_eq!(miss.tier, Tier::OutOfScope);
    assert_eq!(miss.note, "not found");
    assert_eq!(miss.base_address, 0);
    assert!(miss.citation.is_none());
}

fn codegen() -> LlmCodegen {
    LlmCodegen::new(
        "python".to_string(),
        "servers/codegen_server.py".to_string(),
        "brief".to_string(),
        vec![SourceRef::new("test.svd", "loc", "summary")],
    )
}

#[test]
fn model_prompts_carry_the_feedback() {
    let g = codegen().entry("app.c".to_string());
    assert!(g.system_prompt().contains("Output ONLY the C source for `app.c` in one ```c fenced block."));
    let mut ctx = LoopContext::default();
    ctx.goal = "blink".to_string();
    assert_eq!(g.user_prompt(&ctx), "Goal: blink\n\nAuthoritative grounded register facts:\nbrief\n");
    ctx.compile_diagnostics = vec![Diagnostic {
        severity: "error".to_string(),
        message: "oops".to_string(),
        file: Some("main.c".to_string()),
        line: Some(4),
        col: Some(2),
        raw: String::new(),
    }];
    ctx.sim_fault = Some("timeout".to_string());
    let p = g.user_prompt(&ctx);
    assert!(p.contains("FAILED TO COMPILE"));
    assert!(p.contains("  - main.c:4:2: error: oops\n"));
    assert!(p.contains("(fault: timeout)"));
    let req = g.request(&ctx);
    assert_eq!(req.timeout_secs, 90);
    assert!(req.provider.is_none());
}

#[test]
fn model_replies_and_fallback() {
    let mut g = codegen().provider("none".to_string());
    let (d, m) = g.from_reply(CodegenReply {
        provider: None,
        model: None,
        available: Some(false),
        code: None,
        error: None,
    });
    assert!(d.is_none());
    assert_eq!(m.provider, "none");
    assert_eq!(m.note, "model unavailable/empty (no code returned)");
    assert!(g.settle(d, m).is_none());
    assert_eq!(
        g.last.as_ref().unwrap().note,
        "model unavailable/empty (no code returned) -> deterministic fallback"
    );

    let (d, m) = g.from_reply(CodegenReply {
        provider: Some("gemini".to_string()),
        model: Some("flash".to_string()),
        available: Some(true),
        code: Some("\n int main(void){} \n".to_string()),
        error: None,
    });
    let d = d.expect("a model draft");
    assert_eq!(d.files, vec![("main.c".to_string(), "int main(void){}".to_string())]);
    assert_eq!(d.citations.len(), 1);
    assert!(m.used_llm);
    assert_eq!(m.note, "drafted by model");
    assert!(g.settle(Some(d), m).is_some());
    assert_eq!(g.last.as_ref().unwrap().provider, "gemini");

    let blank = g.from_reply(CodegenReply {
        provider: None,
        model: None,
        available: Some(true),
        code: Some("   ".to_string()),
        error: Some("quota".to_string()),
    });
    assert!(blank.0.is_none());
    assert_eq!(blank.1.note, "model unavailable/empty (quota)");
    assert_eq!(g.server_unavailable("spawn failed").note, "codegen server unavailable: spawn failed");
}

#[test]
fn ledger_records_fingerprinted_json_lines() {
    let mut l = ProvenanceLedger::new();
    let (id, line) = l.record("1700000000.5", "oracle", "compile", "in", "out", None, "gcc", "{}");
    assert_eq!(l.counter, 1);
    assert_eq!(l.records.len(), 1);
    assert_eq!(id.len(), 16);
    assert_eq!(l.records[0].inputs_hash, short_hash("in"));
    assert_eq!(
        line,
        format!(
            "{{\"id\":\"{}\",\"ts\":1700000000.5,\"actor\":\"oracle\",\"tool\":\"compile\",\"inputs_hash\":\"{}\",\"outputs_hash\":\"{}\",\"tier\":null,\"oracle_version\":\"gcc\",\"detail\":{{}}}}",
            id,
            short_hash("in"),
            short_hash("out")
        )
    );
    let (_, line2) = l.record("2", "user", "verify", "", "", Some("verified"), "gcc + renode", "{}");
    assert!(line2.contains("\"tier\":\"verified\""));
    assert_eq!(l.counter, 2);
}

#[test]
fn short_hash_is_sixteen_hex_digits() {
    let h = short_hash("firmware");
    assert_eq!(h.len(), 16);
    assert!(h.chars().all(|c| c.is_ascii_hexdigit() && !c.is_ascii_uppercase()));
    assert_eq!(h, short_hash("firmware"));
}

/// A stand-in deterministic fallback with a recognizable target + citation.
struct Stub;
impl Codegen for Stub {
    fn generate(&mut self, _ctx: &LoopContext) -> FirmwareDraft {
        FirmwareDraft::new(
            "stub-target",
            "main.c",
            vec![("main.c".to_string(), "int main(void){return 0;}".to_string())],
        )
        .with_citations(vec![SourceRef::new("test.svd", "device/x", "X @ 0x0")])
    }
}

#[test]
fn falls_back_when_the_model_cannot_be_reached() {
    let mut cg = LlmCodegen::new(
        "embeder-nonexistent-binary-xyz".to_string(),
        "unused.py".to_string(),
        "grounding brief".to_string(),
        vec![SourceRef::new("stm32f4-mini.svd", "loc", "summary")],
    );
    let mut fallback = Stub;
    let ctx = LoopContext { goal: "blink".to_string(), attempt: 1, ..Default::default() };
    // Spawning the worker failed: no draft, and the metadata says why.
    let meta = cg.server_unavailable("No such file or directory (os error 2)");
    let draft = match cg.settle(None, meta) {
        Some(d) => d,
        None => fallback.generate(&ctx),
    };

    assert_eq!(draft.target, "stub-target", "must fall back to the deterministic codegen");
    assert_eq!(draft.citations.len(), 1, "fallback attaches its own grounded citations");
    assert_eq!(draft.citations[0].source, "test.svd");

    let meta = cg.last.as_ref().expect("metadata recorded");
    assert!(!meta.used_llm, "no model was reachable");
    assert!(meta.note.contains("fallback"), "note should record the fallback: {}", meta.note);
}
