//! The oracles and the model reached over MCP workers. A worker runs the
//! toolchain, the simulator, the datasheet lookup or the model; this module
//! holds what is configured for each, what a reply means, and what happens
//! when a worker cannot be reached. The host carries requests and replies.

use vstd::prelude::*;
use crate::engine::{ContextView, LoopContext};
use crate::gcc::{gcc_spec, parse_gcc_stderr};
use crate::json::strings_view;
use crate::num::{dec_spec, push_dec};
use crate::oracle::{
    context_spec, diags_view, dup_refs, pairs_view, refs_view, CompileResult, CompileView,
    DiagnosticView, DraftView, FirmwareDraft, SimResult, SimView, SourceRef, SourceRefView,
};
use crate::paths::path_join_spec;
use crate::text::{chars_of, push_str, string_of, trim, trim_spec};
use crate::tiers::{BoundaryView, Tier, VerifiabilityBoundary};
use crate::toolchain::{cortex_m4_flags, failed_compile, failed_compile_exec, first_line_trimmed, stm32f4_flags};

verus! {

/// The text of an optional string, or `d`.
pub open spec fn text_or(o: Option<Seq<char>>, d: Seq<char>) -> Seq<char> {
    match o {
        Some(s) => s,
        None => d,
    }
}

fn string_or(o: Option<String>, d: &str) -> (r: String)
    ensures
        r@ == text_or(o.deep_view(), d@),
{
    match o {
        Some(s) => s,
        None => d.to_owned(),
    }
}

fn with_suffix(prefix: &str, rest: &str) -> (r: String)
    ensures
        r@ == prefix@ + rest@,
{
    let mut v: Vec<char> = chars_of(prefix);
    push_str(&mut v, rest);
    string_of(&v)
}

// ---------------------------------------------------------------------------
// Builds over MCP
// ---------------------------------------------------------------------------

/// The build profile sent to the firmware worker, and how to start it.
pub struct McpCompileOracle {
    pub program: String,
    pub args: Vec<String>,
    pub cc: String,
    pub cpu_flags: Vec<String>,
    pub extra_flags: Vec<String>,
    pub support_sources: Vec<String>,
    pub linker_script: Option<String>,
}

#[verifier::ext_equal]
pub struct McpCompileView {
    pub program: Seq<char>,
    pub args: Seq<Seq<char>>,
    pub cc: Seq<char>,
    pub cpu_flags: Seq<Seq<char>>,
    pub extra_flags: Seq<Seq<char>>,
    pub support_sources: Seq<Seq<char>>,
    pub linker_script: Option<Seq<char>>,
}

impl View for McpCompileOracle {
    type V = McpCompileView;

    open spec fn view(&self) -> McpCompileView {
        McpCompileView {
            program: self.program@,
            args: strings_view(self.args@),
            cc: self.cc@,
            cpu_flags: strings_view(self.cpu_flags@),
            extra_flags: strings_view(self.extra_flags@),
            support_sources: strings_view(self.support_sources@),
            linker_script: self.linker_script.deep_view(),
        }
    }
}

/// The STM32F4 profile served by the worker script `script` run with
/// `program`, for the firmware directory `dir`.
pub open spec fn mcp_stm32f4_spec(program: Seq<char>, script: Seq<char>, dir: Seq<char>) -> McpCompileView {
    McpCompileView {
        program,
        args: seq![script],
        cc: "arm-none-eabi-gcc"@,
        cpu_flags: cortex_m4_flags(),
        extra_flags: stm32f4_flags(),
        support_sources: seq![path_join_spec(path_join_spec(dir, "src"@), "startup.c"@)],
        linker_script: Some(path_join_spec(path_join_spec(dir, "link"@), "stm32f4.ld"@)),
    }
}

/// The firmware worker's reply to `compile_firmware`, field by field (`None`
/// where the field is missing or not of its type).
pub struct CompileReply {
    pub ok: Option<bool>,
    pub stdout: Option<String>,
    pub stderr: Option<String>,
    pub artifact_path: Option<String>,
    pub toolchain: Option<String>,
    pub available: Option<bool>,
}

/// What a worker reply means: missing text is empty, a missing `ok` is a
/// failure, a missing toolchain name is the MCP default, a missing
/// availability is assumed, diagnostics come from the error output, and an
/// artifact is kept only for a successful build.
pub open spec fn compile_reply_spec(
    ok: Option<bool>,
    stdout: Option<Seq<char>>,
    stderr: Option<Seq<char>>,
    artifact_path: Option<Seq<char>>,
    toolchain: Option<Seq<char>>,
    available: Option<bool>,
) -> CompileView {
    CompileView {
        ok: match ok {
            Some(b) => b,
            None => false,
        },
        diagnostics: gcc_spec(text_or(stderr, Seq::empty())),
        stdout: text_or(stdout, Seq::empty()),
        stderr: text_or(stderr, Seq::empty()),
        artifact_path: match ok {
            Some(true) => artifact_path,
            _ => None,
        },
        toolchain: text_or(toolchain, "arm-none-eabi-gcc (mcp)"@),
        toolchain_available: match available {
            Some(b) => b,
            None => true,
        },
    }
}

impl McpCompileOracle {
    /// The STM32F4 profile served over MCP.
    pub fn stm32f4(program: String, server_script: String, firmware_dir: &str) -> (r:
        McpCompileOracle)
        ensures
            r@ == mcp_stm32f4_spec(program@, server_script@, firmware_dir@),
    {
        let gcc = crate::toolchain::ArmGccOracle::stm32f4(firmware_dir, "arm-none-eabi-gcc".to_owned());
        let r = McpCompileOracle {
            program,
            args: vec![server_script],
            cc: gcc.cc,
            cpu_flags: gcc.cpu_flags,
            extra_flags: gcc.extra_flags,
            support_sources: gcc.support_sources,
            linker_script: gcc.linker_script,
        };
        assert(strings_view(r.args@) =~= seq![server_script@]);
        assert(r@ =~= mcp_stm32f4_spec(program@, server_script@, firmware_dir@));
        r
    }

    /// A failed build reported by this oracle itself.
    pub fn err_result(msg: &str) -> (r: CompileResult)
        ensures
            r@ == failed_compile(msg@, "mcp:firmware (error)"@),
    {
        failed_compile_exec(msg.to_owned(), "mcp:firmware (error)".to_owned())
    }

    /// The result when the worker cannot be started.
    pub fn start_failed(err: &str) -> (r: CompileResult)
        ensures
            r@ == failed_compile(
                "cannot start MCP firmware server: "@ + err@,
                "mcp:firmware (error)"@,
            ),
    {
        let m = with_suffix("cannot start MCP firmware server: ", err);
        Self::err_result(m.as_str())
    }

    /// The result when the worker's `compile_firmware` call fails.
    pub fn call_failed(err: &str) -> (r: CompileResult)
        ensures
            r@ == failed_compile("MCP compile_firmware failed: "@ + err@, "mcp:firmware (error)"@),
    {
        let m = with_suffix("MCP compile_firmware failed: ", err);
        Self::err_result(m.as_str())
    }

    /// The build result a worker reply stands for.
    pub fn result_from_reply(reply: CompileReply) -> (r: CompileResult)
        ensures
            r@ == compile_reply_spec(
                reply.ok,
                reply.stdout.deep_view(),
                reply.stderr.deep_view(),
                reply.artifact_path.deep_view(),
                reply.toolchain.deep_view(),
                reply.available,
            ),
    {
        let ghost rv = (
            reply.ok,
            reply.stdout.deep_view(),
            reply.stderr.deep_view(),
            reply.artifact_path.deep_view(),
            reply.toolchain.deep_view(),
            reply.available,
        );
        let stderr = string_or(reply.stderr, "");
        let stdout = string_or(reply.stdout, "");
        let toolchain = string_or(reply.toolchain, "arm-none-eabi-gcc (mcp)");
        let diagnostics = parse_gcc_stderr(stderr.as_str());
        proof {
            reveal_strlit("");
        }
        let ok = match reply.ok {
            Some(b) => b,
            None => false,
        };
        let r = CompileResult {
            ok,
            diagnostics,
            stdout,
            stderr,
            artifact_path: if ok {
                reply.artifact_path
            } else {
                None
            },
            toolchain,
            toolchain_available: match reply.available {
                Some(b) => b,
                None => true,
            },
        };
        assert(r@ =~= compile_reply_spec(rv.0, rv.1, rv.2, rv.3, rv.4, rv.5));
        r
    }
}

// ---------------------------------------------------------------------------
// Simulation over MCP
// ---------------------------------------------------------------------------

/// The run sent to the simulation worker, and how to start it.
pub struct McpSimOracle {
    pub program: String,
    pub args: Vec<String>,
    pub renode_bin: String,
    pub platform: String,
    pub uart: String,
    pub run_for_secs: String,
    pub expect: String,
    pub timeout_secs: u64,
}

#[verifier::ext_equal]
pub struct McpSimView {
    pub program: Seq<char>,
    pub args: Seq<Seq<char>>,
    pub renode_bin: Seq<char>,
    pub platform: Seq<char>,
    pub uart: Seq<char>,
    pub run_for_secs: Seq<char>,
    pub expect: Seq<char>,
    pub timeout_secs: u64,
}

impl View for McpSimOracle {
    type V = McpSimView;

    open spec fn view(&self) -> McpSimView {
        McpSimView {
            program: self.program@,
            args: strings_view(self.args@),
            renode_bin: self.renode_bin@,
            platform: self.platform@,
            uart: self.uart@,
            run_for_secs: self.run_for_secs@,
            expect: self.expect@,
            timeout_secs: self.timeout_secs,
        }
    }
}

/// The simulation worker's reply to `run_simulation`, field by field.
pub struct SimReply {
    pub available: Option<bool>,
    pub ok: Option<bool>,
    pub timed_out: Option<bool>,
    pub uart: Option<String>,
    pub uart_bytes: Option<u64>,
    pub log: Option<String>,
}

/// A simulation that the worker could not carry out.
pub open spec fn mcp_sim_fault_spec(msg: Seq<char>, kind: Seq<char>, available: bool) -> SimView {
    SimView {
        ok: false,
        boundary: BoundaryView {
            verified: Seq::empty(),
            stubbed: Seq::empty(),
            not_modeled: Seq::empty(),
        },
        observations: Seq::empty(),
        log: msg,
        engine: "renode (mcp, error)"@,
        engine_available: available,
        fault: Some(kind),
    }
}

/// What a worker reply means: a Renode the worker reports missing is an
/// absent engine; otherwise a pass needs the worker's `ok`, and the fault is
/// a timeout or a missing banner.
pub open spec fn sim_reply_spec(
    available: Option<bool>,
    ok: Option<bool>,
    timed_out: Option<bool>,
    uart: Option<Seq<char>>,
    uart_bytes: Option<u64>,
    log: Option<Seq<char>>,
) -> SimView {
    if available == Some(false) {
        mcp_sim_fault_spec("renode not available"@, "engine_absent"@, false)
    } else {
        let pass = ok == Some(true);
        let late = timed_out == Some(true);
        SimView {
            ok: pass,
            boundary: crate::fixtures::stm32_boundary_spec(),
            observations: seq![
                ("uart"@, first_line_trimmed(text_or(uart, Seq::empty()))),
                ("uart_bytes"@, dec_spec(
                    match uart_bytes {
                        Some(n) => n as nat,
                        None => 0,
                    },
                )),
            ],
            log: text_or(log, Seq::empty()),
            engine: "renode (mcp)"@,
            engine_available: true,
            fault: if late {
                Some("timeout"@)
            } else if pass {
                None
            } else {
                Some("expected_uart_not_found"@)
            },
        }
    }
}

impl McpSimOracle {
    /// The STM32F4 Discovery run served by the worker script `server_script`
    /// run with `program`, using Renode binary `renode_bin`.
    pub fn stm32f4(program: String, server_script: String, renode_bin: String) -> (r:
        McpSimOracle)
        ensures
            r.program@ == program@,
            strings_view(r.args@) == seq![server_script@],
            r.renode_bin@ == renode_bin@,
            r.platform@ == "@platforms/boards/stm32f4_discovery.repl"@,
            r.uart@ == "sysbus.usart2"@,
            r.run_for_secs@ == "0.5"@,
            r.expect@ == "Hello from Embeder"@,
            r.timeout_secs == 180,
    {
        let ghost s = server_script@;
        let r = McpSimOracle {
            program,
            args: vec![server_script],
            renode_bin,
            platform: "@platforms/boards/stm32f4_discovery.repl".to_owned(),
            uart: "sysbus.usart2".to_owned(),
            run_for_secs: "0.5".to_owned(),
            expect: "Hello from Embeder".to_owned(),
            timeout_secs: 180,
        };
        assert(strings_view(r.args@) =~= seq![s]);
        r
    }

    /// What a run on this board exercises (as for a local Renode run).
    pub fn boundary() -> (b: VerifiabilityBoundary)
        ensures
            b@ == crate::fixtures::stm32_boundary_spec(),
    {
        crate::fixtures::stm32_boundary()
    }

    /// A simulation the worker could not carry out.
    pub fn sim_fault(msg: &str, kind: &str, available: bool) -> (r: SimResult)
        ensures
            r@ == mcp_sim_fault_spec(msg@, kind@, available),
    {
        let r = SimResult {
            ok: false,
            boundary: VerifiabilityBoundary::default(),
            observations: Vec::new(),
            log: msg.to_owned(),
            engine: "renode (mcp, error)".to_owned(),
            engine_available: available,
            fault: Some(kind.to_owned()),
        };
        assert(r@.boundary =~= mcp_sim_fault_spec(msg@, kind@, available).boundary);
        assert(pairs_view(r.observations@) =~= Seq::<(Seq<char>, Seq<char>)>::empty());
        assert(r@ =~= mcp_sim_fault_spec(msg@, kind@, available));
        r
    }

    /// The result when the worker cannot be started.
    pub fn start_failed(err: &str) -> (r: SimResult)
        ensures
            r@ == mcp_sim_fault_spec(
                "cannot start MCP simulation server: "@ + err@,
                "engine_error"@,
                false,
            ),
    {
        let m = with_suffix("cannot start MCP simulation server: ", err);
        Self::sim_fault(m.as_str(), "engine_error", false)
    }

    /// The result when the worker's `run_simulation` call fails.
    pub fn call_failed(err: &str) -> (r: SimResult)
        ensures
            r@ == mcp_sim_fault_spec("MCP run_simulation failed: "@ + err@, "engine_error"@, false),
    {
        let m = with_suffix("MCP run_simulation failed: ", err);
        Self::sim_fault(m.as_str(), "engine_error", false)
    }

    /// The simulation result a worker reply stands for.
    pub fn result_from_reply(reply: SimReply) -> (r: SimResult)
        ensures
            r@ == sim_reply_spec(
                reply.available,
                reply.ok,
                reply.timed_out,
                reply.uart.deep_view(),
                reply.uart_bytes,
                reply.log.deep_view(),
            ),
    {
        if reply.available == Some(false) {
            return Self::sim_fault("renode not available", "engine_absent", false);
        }
        let ghost uv = reply.uart.deep_view();
        let ghost lv = reply.log.deep_view();
        let ok = reply.ok == Some(true);
        let timed_out = reply.timed_out == Some(true);
        let uart = string_or(reply.uart, "");
        proof {
            reveal_strlit("");
        }
        let first = crate::toolchain::first_line_trimmed_exec(uart.as_str());
        let mut count: Vec<char> = Vec::new();
        push_dec(
            &mut count,
            match reply.uart_bytes {
                Some(n) => n,
                None => 0,
            },
        );
        let fault = if timed_out {
            Some("timeout".to_owned())
        } else if ok {
            None
        } else {
            Some("expected_uart_not_found".to_owned())
        };
        let r = SimResult {
            ok,
            boundary: Self::boundary(),
            observations: vec![
                ("uart".to_owned(), first),
                ("uart_bytes".to_owned(), string_of(&count)),
            ],
            log: string_or(reply.log, ""),
            engine: "renode (mcp)".to_owned(),
            engine_available: true,
            fault,
        };
        let ghost want = sim_reply_spec(
            reply.available,
            reply.ok,
            reply.timed_out,
            uv,
            reply.uart_bytes,
            lv,
        );
        assert(pairs_view(r.observations@) =~= want.observations);
        assert(r@ =~= want);
        r
    }
}

// ---------------------------------------------------------------------------
// Datasheet over MCP
// ---------------------------------------------------------------------------

/// How to start the datasheet worker and which SVD it reads.
pub struct McpDatasheet {
    pub program: String,
    pub args: Vec<String>,
    pub svd_path: String,
}

/// A register map as the datasheet worker grounds it: a hit is verified and
/// cited; a miss is out of scope with a note and no data.
#[derive(Debug, Clone)]
pub struct GroundedRegisterMap {
    pub found: bool,
    pub peripheral: String,
    pub base_address: u64,
    pub registers: Vec<(String, u64)>,
    pub tier: Tier,
    pub citation: Option<String>,
    pub note: String,
}

#[verifier::ext_equal]
pub struct RegisterMapView {
    pub found: bool,
    pub peripheral: Seq<char>,
    pub base_address: u64,
    pub registers: Seq<(Seq<char>, u64)>,
    pub tier: Tier,
    pub citation: Option<Seq<char>>,
    pub note: Seq<char>,
}

pub open spec fn named_addrs_view(v: Seq<(String, u64)>) -> Seq<(Seq<char>, u64)> {
    v.map_values(|p: (String, u64)| (p.0@, p.1))
}

impl View for GroundedRegisterMap {
    type V = RegisterMapView;

    open spec fn view(&self) -> RegisterMapView {
        RegisterMapView {
            found: self.found,
            peripheral: self.peripheral@,
            base_address: self.base_address,
            registers: named_addrs_view(self.registers@),
            tier: self.tier,
            citation: self.citation.deep_view(),
            note: self.note@,
        }
    }
}

/// The datasheet worker's reply to `register_map`; each register entry keeps
/// its name and absolute address where they are present and of their type.
pub struct RegisterMapReply {
    pub found: Option<bool>,
    pub note: Option<String>,
    pub base_address: Option<u64>,
    pub registers: Option<Vec<(Option<String>, Option<u64>)>>,
    pub source: Option<String>,
    pub name: Option<String>,
}

/// A refusal: nothing found, nothing made up.
pub open spec fn refused_map(peripheral: Seq<char>, note: Seq<char>) -> RegisterMapView {
    RegisterMapView {
        found: false,
        peripheral,
        base_address: 0,
        registers: Seq::empty(),
        tier: Tier::OutOfScope,
        citation: None,
        note,
    }
}

/// The register entries that carry both a name and an address, in order.
pub open spec fn complete_entries(v: Seq<(Option<Seq<char>>, Option<u64>)>) -> Seq<(Seq<char>, u64)>
    decreases v.len(),
{
    if v.len() == 0 {
        Seq::empty()
    } else {
        let rest = complete_entries(v.drop_last());
        match v.last() {
            (Some(n), Some(a)) => rest.push((n, a)),
            _ => rest,
        }
    }
}

pub open spec fn entries_of_reply(v: Seq<(Option<String>, Option<u64>)>) -> Seq<(Option<Seq<char>>, Option<u64>)> {
    v.map_values(|e: (Option<String>, Option<u64>)| (e.0.deep_view(), e.1))
}

/// What a worker reply for `peripheral` means: unless it says found, a
/// refusal with its note; otherwise a verified map cited to the SVD source
/// and the peripheral's path in it.
pub open spec fn register_map_reply_spec(
    peripheral: Seq<char>,
    found: Option<bool>,
    note: Option<Seq<char>>,
    base_address: Option<u64>,
    registers: Option<Seq<(Option<Seq<char>>, Option<u64>)>>,
    source: Option<Seq<char>>,
    name: Option<Seq<char>>,
) -> RegisterMapView {
    if found != Some(true) {
        refused_map(peripheral, text_or(note, "not found"@))
    } else {
        let n = text_or(name, peripheral);
        RegisterMapView {
            found: true,
            peripheral: n,
            base_address: match base_address {
                Some(a) => a,
                None => 0,
            },
            registers: match registers {
                Some(v) => complete_entries(v),
                None => Seq::empty(),
            },
            tier: Tier::Verified,
            citation: Some(text_or(source, Seq::empty()) + "::device/peripherals/"@ + n),
            note: "CMSIS-SVD structured source (via MCP)"@,
        }
    }
}

fn refuse_exec(peripheral: &str, note: String) -> (r: GroundedRegisterMap)
    ensures
        r@ == refused_map(peripheral@, note@),
{
    let r = GroundedRegisterMap {
        found: false,
        peripheral: peripheral.to_owned(),
        base_address: 0,
        registers: Vec::new(),
        tier: Tier::OutOfScope,
        citation: None,
        note,
    };
    assert(named_addrs_view(r.registers@) =~= Seq::<(Seq<char>, u64)>::empty());
    assert(r@ =~= refused_map(peripheral@, note@));
    r
}

impl McpDatasheet {
    /// The worker script `server_script` run with `program`, reading `svd_path`.
    pub fn new(program: String, server_script: String, svd_path: String) -> (r: McpDatasheet)
        ensures
            r.program@ == program@,
            strings_view(r.args@) == seq![server_script@],
            r.svd_path@ == svd_path@,
    {
        let ghost s = server_script@;
        let r = McpDatasheet { program, args: vec![server_script], svd_path };
        assert(strings_view(r.args@) =~= seq![s]);
        r
    }

    /// The refusal when the worker cannot be started.
    pub fn start_failed(peripheral: &str, err: &str) -> (r: GroundedRegisterMap)
        ensures
            r@ == refused_map(peripheral@, "cannot start MCP datasheet server: "@ + err@),
    {
        refuse_exec(peripheral, with_suffix("cannot start MCP datasheet server: ", err))
    }

    /// The refusal when the worker's `register_map` call fails.
    pub fn call_failed(peripheral: &str, err: &str) -> (r: GroundedRegisterMap)
        ensures
            r@ == refused_map(peripheral@, "MCP register_map failed: "@ + err@),
    {
        refuse_exec(peripheral, with_suffix("MCP register_map failed: ", err))
    }

    /// The grounded register map a worker reply for `peripheral` stands for.
    pub fn map_from_reply(peripheral: &str, reply: RegisterMapReply) -> (r: GroundedRegisterMap)
        ensures
            r@ == register_map_reply_spec(
                peripheral@,
                reply.found,
                reply.note.deep_view(),
                reply.base_address,
                match reply.registers {
                    Some(v) => Some(entries_of_reply(v@)),
                    None => None,
                },
                reply.source.deep_view(),
                reply.name.deep_view(),
            ),
    {
        if reply.found != Some(true) {
            return refuse_exec(peripheral, string_or(reply.note, "not found"));
        }
        let ghost sv = reply.source.deep_view();
        let ghost nv = reply.name.deep_view();
        let ghost regs_in = match &reply.registers {
            Some(v) => Some(entries_of_reply(v@)),
            None => None,
        };
        let mut registers: Vec<(String, u64)> = Vec::new();
        match &reply.registers {
            Some(v) => {
                let ghost es = entries_of_reply(v@);
                let mut i: usize = 0;
                assert(es.subrange(0, 0) =~= Seq::<(Option<Seq<char>>, Option<u64>)>::empty());
                while i < v.len()
                    invariant
                        i <= v.len(),
                        es == entries_of_reply(v@),
                        named_addrs_view(registers@) == complete_entries(es.subrange(0, i as int)),
                    decreases v.len() - i,
                {
                    let ghost pre = es.subrange(0, i as int);
                    let ghost nxt = es.subrange(0, i + 1);
                    assert(nxt.drop_last() =~= pre);
                    let ghost before = named_addrs_view(registers@);
                    match &v[i] {
                        (Some(n), Some(a)) => {
                            registers.push((n.clone(), *a));
                            assert(named_addrs_view(registers@) =~= before.push((n@, *a)));
                        },
                        _ => {},
                    }
                    i += 1;
                }
                assert(es.subrange(0, v.len() as int) =~= es);
            },
            None => {
                assert(named_addrs_view(registers@) =~= Seq::<(Seq<char>, u64)>::empty());
            },
        }
        let source = string_or(reply.source, "");
        let name = string_or(reply.name, peripheral);
        proof {
            reveal_strlit("");
        }
        let mut c: Vec<char> = chars_of(source.as_str());
        push_str(&mut c, "::device/peripherals/");
        push_str(&mut c, name.as_str());
        let r = GroundedRegisterMap {
            found: true,
            peripheral: name,
            base_address: match reply.base_address {
                Some(a) => a,
                None => 0,
            },
            registers,
            tier: Tier::Verified,
            citation: Some(string_of(&c)),
            note: "CMSIS-SVD structured source (via MCP)".to_owned(),
        };
        assert(r@ =~= register_map_reply_spec(
            peripheral@,
            reply.found,
            reply.note.deep_view(),
            reply.base_address,
            regs_in,
            sv,
            nv,
        ));
        r
    }
}

// ---------------------------------------------------------------------------
// The model over MCP
// ---------------------------------------------------------------------------

/// What produced the last draft: the model (and which provider and model) or
/// the deterministic fallback, with a note saying why.
#[derive(Debug, Clone)]
pub struct LlmMeta {
    pub used_llm: bool,
    pub provider: String,
    pub model: String,
    pub note: String,
}

#[verifier::ext_equal]
pub struct MetaView {
    pub used_llm: bool,
    pub provider: Seq<char>,
    pub model: Seq<char>,
    pub note: Seq<char>,
}

impl View for LlmMeta {
    type V = MetaView;

    open spec fn view(&self) -> MetaView {
        MetaView {
            used_llm: self.used_llm,
            provider: self.provider@,
            model: self.model@,
            note: self.note@,
        }
    }
}

/// The model's codegen settings: how to start the codegen worker, what to
/// draft (target and entry file), the grounding brief and its citations, an
/// optional forced provider and model, the call's time limit, and what
/// produced the last draft.
pub struct LlmCodegen {
    program: String,
    args: Vec<String>,
    target: String,
    entry: String,
    grounding_brief: String,
    citations: Vec<SourceRef>,
    provider: Option<String>,
    model: Option<String>,
    timeout_secs: u64,
    pub last: Option<LlmMeta>,
}

#[verifier::ext_equal]
pub struct LlmView {
    pub program: Seq<char>,
    pub args: Seq<Seq<char>>,
    pub target: Seq<char>,
    pub entry: Seq<char>,
    pub grounding_brief: Seq<char>,
    pub citations: Seq<SourceRefView>,
    pub provider: Option<Seq<char>>,
    pub model: Option<Seq<char>>,
    pub timeout_secs: u64,
    pub last: Option<MetaView>,
}

pub open spec fn opt_meta_view(m: Option<LlmMeta>) -> Option<MetaView> {
    match m {
        Some(x) => Some(x@),
        None => None,
    }
}

impl View for LlmCodegen {
    type V = LlmView;

    closed spec fn view(&self) -> LlmView {
        LlmView {
            program: self.program@,
            args: strings_view(self.args@),
            target: self.target@,
            entry: self.entry@,
            grounding_brief: self.grounding_brief@,
            citations: refs_view(self.citations@),
            provider: self.provider.deep_view(),
            model: self.model.deep_view(),
            timeout_secs: self.timeout_secs,
            last: opt_meta_view(self.last),
        }
    }
}

/// The standing instructions to the model for the entry file `entry`.
pub open spec fn system_prompt_spec(entry: Seq<char>) -> Seq<char> {
    "You are a meticulous bare-metal embedded firmware engineer. Write a single freestanding C translation unit for an STM32F4 (Cortex-M4), register-level, no libc, no CMSIS headers, no external includes except <stdint.h>.\n\nHard rules:\n- Output ONLY the C source for `"@
        + entry
        + "` in one ```c fenced block. No prose.\n- Provide `int main(void)`. Startup code and the linker script are supplied separately; do not write a vector table or reset handler.\n- Use ONLY the register addresses and bit positions given below. Never invent an address.\n- Acceptance is decided by a simulator, not by you: the firmware is VERIFIED only if the exact text `Hello from Embeder\\r\\n` is transmitted on USART2, and the PA5 LED is toggled. Configure GPIOA clock, USART2 clock, PA5 as output, PA2 as alternate-function 7 (USART2 TX), set USART2_BRR, enable USART2 (UE|TE), then poll TXE and write each byte of the banner to USART2_DR in a loop, toggling PA5 each iteration."@
}

/// One line per prior diagnostic, in its compact form.
pub open spec fn diagnostic_lines(ds: Seq<DiagnosticView>) -> Seq<char>
    decreases ds.len(),
{
    if ds.len() == 0 {
        Seq::empty()
    } else {
        diagnostic_lines(ds.drop_last()) + "  - "@ + context_spec(ds.last()) + "\n"@
    }
}

/// The request for one attempt: the goal and the grounded facts, then the
/// previous attempt's compiler diagnostics or simulation fault, if any.
pub open spec fn user_prompt_spec(brief: Seq<char>, ctx: ContextView) -> Seq<char> {
    "Goal: "@ + ctx.goal + "\n\nAuthoritative grounded register facts:\n"@ + brief + "\n"@ + (
    if ctx.compile_diagnostics.len() > 0 {
        "\nYour previous draft FAILED TO COMPILE. Fix exactly these compiler diagnostics and return the corrected full file:\n"@
            + diagnostic_lines(ctx.compile_diagnostics)
    } else {
        Seq::empty()
    }) + (match ctx.sim_fault {
        Some(f) => "\nYour previous draft compiled but simulation did not observe the banner (fault: "@
            + f
            + "). Make sure USART2 is fully initialized and every byte of `Hello from Embeder\\r\\n` is written to USART2_DR after TXE is set.\n"@,
        None => Seq::empty(),
    })
}

/// What is sent to the codegen worker for one attempt.
pub struct CodegenRequest {
    pub system: String,
    pub user: String,
    pub provider: Option<String>,
    pub model: Option<String>,
    pub timeout_secs: u64,
}

/// The codegen worker's reply to `generate_code`, field by field.
pub struct CodegenReply {
    pub provider: Option<String>,
    pub model: Option<String>,
    pub available: Option<bool>,
    pub code: Option<String>,
    pub error: Option<String>,
}

/// The metadata before any reply: no model used, the forced provider and
/// model (or nothing), and the note.
pub open spec fn meta_with_note(g: LlmView, note: Seq<char>) -> MetaView {
    MetaView {
        used_llm: false,
        provider: text_or(g.provider, Seq::empty()),
        model: text_or(g.model, Seq::empty()),
        note,
    }
}

/// What a codegen reply means: the reply names the provider and model when
/// it can; a draft exists only when the model was available and returned
/// non-blank code, which becomes the entry file, cited with the grounding.
pub open spec fn reply_draft_spec(
    g: LlmView,
    provider: Option<Seq<char>>,
    model: Option<Seq<char>>,
    available: Option<bool>,
    code: Option<Seq<char>>,
    error: Option<Seq<char>>,
) -> (Option<DraftView>, MetaView) {
    let p = text_or(provider, text_or(g.provider, Seq::empty()));
    let m = text_or(model, text_or(g.model, Seq::empty()));
    let c = trim_spec(text_or(code, Seq::empty()));
    if available != Some(true) || c.len() == 0 {
        (
            None,
            MetaView {
                used_llm: false,
                provider: p,
                model: m,
                note: "model unavailable/empty ("@ + text_or(error, "no code returned"@) + ")"@,
            },
        )
    } else {
        (
            Some(
                DraftView {
                    target: g.target,
                    entry: g.entry,
                    files: seq![(g.entry, c)],
                    citations: g.citations,
                },
            ),
            MetaView { used_llm: true, provider: p, model: m, note: "drafted by model"@ },
        )
    }
}

pub open spec fn opt_draft_view(d: Option<FirmwareDraft>) -> Option<DraftView> {
    match d {
        Some(x) => Some(x@),
        None => None,
    }
}

fn opt_clone(o: &Option<String>) -> (r: Option<String>)
    ensures
        r.deep_view() == o.deep_view(),
{
    crate::oracle::dup_opt(o)
}

impl LlmCodegen {
    /// Codegen through the worker script `server_script` run with `program`,
    /// grounded by `grounding_brief` and its `citations`; it drafts `main.c`
    /// for the STM32F4 Discovery, lets the worker pick the provider, and
    /// allows the model ninety seconds.
    pub fn new(
        program: String,
        server_script: String,
        grounding_brief: String,
        citations: Vec<SourceRef>,
    ) -> (r: LlmCodegen)
        ensures
            r@ == (LlmView {
                program: program@,
                args: seq![server_script@],
                target: "stm32f4-discovery"@,
                entry: "main.c"@,
                grounding_brief: grounding_brief@,
                citations: refs_view(citations@),
                provider: None,
                model: None,
                timeout_secs: 90,
                last: None,
            }),
    {
        let ghost sv = server_script@;
        let r = LlmCodegen {
            program,
            args: vec![server_script],
            target: "stm32f4-discovery".to_owned(),
            entry: "main.c".to_owned(),
            grounding_brief,
            citations,
            provider: None,
            model: None,
            timeout_secs: 90,
            last: None,
        };
        assert(strings_view(r.args@) =~= seq![sv]);
        assert(r@ =~= (LlmView {
            program: program@,
            args: seq![sv],
            target: "stm32f4-discovery"@,
            entry: "main.c"@,
            grounding_brief: grounding_brief@,
            citations: refs_view(citations@),
            provider: None,
            model: None,
            timeout_secs: 90,
            last: None,
        }));
        r
    }

    /// Drafts for target `t` instead.
    pub fn target(self, t: String) -> (r: LlmCodegen)
        ensures
            r@ == (LlmView { target: t@, ..self@ }),
    {
        let r = LlmCodegen { target: t, ..self };
        assert(r@ =~= (LlmView { target: t@, ..self@ }));
        r
    }

    /// Drafts the entry file `e` instead.
    pub fn entry(self, e: String) -> (r: LlmCodegen)
        ensures
            r@ == (LlmView { entry: e@, ..self@ }),
    {
        let r = LlmCodegen { entry: e, ..self };
        assert(r@ =~= (LlmView { entry: e@, ..self@ }));
        r
    }

    /// Forces the provider `p` ("gemini", "vercel", "openai" or "none").
    pub fn provider(self, p: String) -> (r: LlmCodegen)
        ensures
            r@ == (LlmView { provider: Some(p@), ..self@ }),
    {
        let r = LlmCodegen { provider: Some(p), ..self };
        assert(r@ =~= (LlmView { provider: Some(p@), ..self@ }));
        r
    }

    /// Forces the model `m`.
    pub fn model(self, m: String) -> (r: LlmCodegen)
        ensures
            r@ == (LlmView { model: Some(m@), ..self@ }),
    {
        let r = LlmCodegen { model: Some(m), ..self };
        assert(r@ =~= (LlmView { model: Some(m@), ..self@ }));
        r
    }

    /// The program that starts the codegen worker.
    pub fn program(&self) -> (r: &String)
        ensures
            r@ == self@.program,
    {
        &self.program
    }

    /// The worker's arguments.
    pub fn server_args(&self) -> (r: &Vec<String>)
        ensures
            strings_view(r@) == self@.args,
    {
        &self.args
    }

    /// The standing instructions to the model.
    pub fn system_prompt(&self) -> (r: String)
        ensures
            r@ == system_prompt_spec(self@.entry),
    {
        let mut out: Vec<char> = Vec::new();
        push_str(
            &mut out,
            "You are a meticulous bare-metal embedded firmware engineer. Write a single freestanding C translation unit for an STM32F4 (Cortex-M4), register-level, no libc, no CMSIS headers, no external includes except <stdint.h>.\n\nHard rules:\n- Output ONLY the C source for `",
        );
        push_str(&mut out, self.entry.as_str());
        push_str(
            &mut out,
            "` in one ```c fenced block. No prose.\n- Provide `int main(void)`. Startup code and the linker script are supplied separately; do not write a vector table or reset handler.\n- Use ONLY the register addresses and bit positions given below. Never invent an address.\n- Acceptance is decided by a simulator, not by you: the firmware is VERIFIED only if the exact text `Hello from Embeder\\r\\n` is transmitted on USART2, and the PA5 LED is toggled. Configure GPIOA clock, USART2 clock, PA5 as output, PA2 as alternate-function 7 (USART2 TX), set USART2_BRR, enable USART2 (UE|TE), then poll TXE and write each byte of the banner to USART2_DR in a loop, toggling PA5 each iteration.",
        );
        assert(out@ =~= system_prompt_spec(self@.entry));
        string_of(&out)
    }

    /// The request text for the attempt described by `ctx`.
    pub fn user_prompt(&self, ctx: &LoopContext) -> (r: String)
        ensures
            r@ == user_prompt_spec(self@.grounding_brief, ctx@),
    {
        let mut out: Vec<char> = Vec::new();
        push_str(&mut out, "Goal: ");
        push_str(&mut out, ctx.goal.as_str());
        push_str(&mut out, "\n\nAuthoritative grounded register facts:\n");
        push_str(&mut out, self.grounding_brief.as_str());
        push_str(&mut out, "\n");
        let ghost head = out@;
        if ctx.compile_diagnostics.len() > 0 {
            push_str(
                &mut out,
                "\nYour previous draft FAILED TO COMPILE. Fix exactly these compiler diagnostics and return the corrected full file:\n",
            );
            let ghost mid = out@;
            let ghost ds = diags_view(ctx.compile_diagnostics@);
            let mut i: usize = 0;
            assert(ds.subrange(0, 0) =~= Seq::<DiagnosticView>::empty());
            assert(mid =~= mid + diagnostic_lines(ds.subrange(0, 0)));
            while i < ctx.compile_diagnostics.len()
                invariant
                    i <= ctx.compile_diagnostics.len(),
                    ds == diags_view(ctx.compile_diagnostics@),
                    out@ == mid + diagnostic_lines(ds.subrange(0, i as int)),
                decreases ctx.compile_diagnostics.len() - i,
            {
                let ghost pre = ds.subrange(0, i as int);
                let ghost nxt = ds.subrange(0, i + 1);
                assert(nxt.drop_last() =~= pre);
                assert(nxt.last() == ctx.compile_diagnostics@[i as int]@);
                push_str(&mut out, "  - ");
                let line = ctx.compile_diagnostics[i].as_context();
                push_str(&mut out, line.as_str());
                push_str(&mut out, "\n");
                assert(out@ =~= mid + diagnostic_lines(nxt));
                i += 1;
            }
            assert(ds.subrange(0, ctx.compile_diagnostics.len() as int) =~= ds);
        }
        let ghost before_fault = out@;
        match &ctx.sim_fault {
            Some(f) => {
                push_str(
                    &mut out,
                    "\nYour previous draft compiled but simulation did not observe the banner (fault: ",
                );
                push_str(&mut out, f.as_str());
                push_str(
                    &mut out,
                    "). Make sure USART2 is fully initialized and every byte of `Hello from Embeder\\r\\n` is written to USART2_DR after TXE is set.\n",
                );
            },
            None => {},
        }
        assert(out@ =~= user_prompt_spec(self@.grounding_brief, ctx@));
        string_of(&out)
    }

    /// What is sent to the worker for the attempt described by `ctx`.
    pub fn request(&self, ctx: &LoopContext) -> (r: CodegenRequest)
        ensures
            r.system@ == system_prompt_spec(self@.entry),
            r.user@ == user_prompt_spec(self@.grounding_brief, ctx@),
            r.provider.deep_view() == self@.provider,
            r.model.deep_view() == self@.model,
            r.timeout_secs == self@.timeout_secs,
    {
        CodegenRequest {
            system: self.system_prompt(),
            user: self.user_prompt(ctx),
            provider: opt_clone(&self.provider),
            model: opt_clone(&self.model),
            timeout_secs: self.timeout_secs,
        }
    }

    fn meta(&self, note: String) -> (m: LlmMeta)
        ensures
            m@ == meta_with_note(self@, note@),
    {
        let ghost nv = note@;
        proof {
            reveal_strlit("");
        }
        let m = LlmMeta {
            used_llm: false,
            provider: string_or(opt_clone(&self.provider), ""),
            model: string_or(opt_clone(&self.model), ""),
            note,
        };
        assert(m@ =~= meta_with_note(self@, nv));
        m
    }

    /// The metadata when the codegen worker cannot be started.
    pub fn server_unavailable(&self, err: &str) -> (m: LlmMeta)
        ensures
            m@ == meta_with_note(self@, "codegen server unavailable: "@ + err@),
    {
        self.meta(with_suffix("codegen server unavailable: ", err))
    }

    /// The metadata when the `generate_code` call fails.
    pub fn call_failed(&self, err: &str) -> (m: LlmMeta)
        ensures
            m@ == meta_with_note(self@, "generate_code call failed: "@ + err@),
    {
        self.meta(with_suffix("generate_code call failed: ", err))
    }

    /// The draft (if any) and metadata a codegen reply stands for.
    pub fn from_reply(&self, reply: CodegenReply) -> (r: (Option<FirmwareDraft>, LlmMeta))
        ensures
            (opt_draft_view(r.0), r.1@) == reply_draft_spec(
                self@,
                reply.provider.deep_view(),
                reply.model.deep_view(),
                reply.available,
                reply.code.deep_view(),
                reply.error.deep_view(),
            ),
    {
        let ghost want = reply_draft_spec(
            self@,
            reply.provider.deep_view(),
            reply.model.deep_view(),
            reply.available,
            reply.code.deep_view(),
            reply.error.deep_view(),
        );
        proof {
            reveal_strlit("");
        }
        let provider = match reply.provider {
            Some(p) => p,
            None => string_or(opt_clone(&self.provider), ""),
        };
        let model = match reply.model {
            Some(m) => m,
            None => string_or(opt_clone(&self.model), ""),
        };
        let code_text = string_or(reply.code, "");
        let tc = trim(&chars_of(code_text.as_str()));
        if reply.available != Some(true) || tc.len() == 0 {
            let mut note: Vec<char> = chars_of("model unavailable/empty (");
            let err = string_or(reply.error, "no code returned");
            push_str(&mut note, err.as_str());
            push_str(&mut note, ")");
            let m = LlmMeta { used_llm: false, provider, model, note: string_of(&note) };
            assert(m@ =~= want.1);
            return (None, m);
        }
        let code = string_of(&tc);
        let files = vec![(self.entry.clone(), code)];
        let draft = FirmwareDraft::new(self.target.as_str(), self.entry.as_str(), files).with_citations(
            dup_refs(&self.citations),
        );
        let m = LlmMeta {
            used_llm: true,
            provider,
            model,
            note: "drafted by model".to_owned(),
        };
        assert(pairs_view(draft.files@) =~= want.0.unwrap().files);
        assert(draft@ =~= want.0.unwrap());
        assert(m@ =~= want.1);
        (Some(draft), m)
    }

    /// Records what produced this attempt's draft and says whether the model
    /// drafted it; without a model draft the note records the fallback and
    /// the caller drafts deterministically.
    pub fn settle(&mut self, draft: Option<FirmwareDraft>, meta: LlmMeta) -> (r: Option<
        FirmwareDraft,
    >)
        ensures
            r == draft,
            final(self)@ == (LlmView {
                last: Some(
                    match draft {
                        Some(_) => meta@,
                        None => MetaView {
                            note: meta@.note + " -> deterministic fallback"@,
                            ..meta@
                        },
                    },
                ),
                ..old(self)@
            }),
    {
        let ghost mv = meta@;
        match draft {
            Some(d) => {
                self.last = Some(meta);
                assert(self@ =~= (LlmView { last: Some(mv), ..old(self)@ }));
                Some(d)
            },
            None => {
                let mut note: Vec<char> = chars_of(meta.note.as_str());
                push_str(&mut note, " -> deterministic fallback");
                let m = LlmMeta { note: string_of(&note), ..meta };
                self.last = Some(m);
                assert(self@ =~= (LlmView {
                    last: Some(MetaView { note: mv.note + " -> deterministic fallback"@, ..mv }),
                    ..old(self)@
                }));
                None
            },
        }
    }
}

} // verus!
