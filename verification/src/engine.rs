//! The closed verification loop: DRAFT --compile--> BUILT --simulate--> VERIFIED,
//! with bounded retry and honest degradation. Only the oracles move the state
//! forward; the model never self-certifies. On an exhausted budget the loop
//! HALTs and returns the structured failure rather than guessing.

use vstd::prelude::*;
use crate::json::{push_quoted, push_str_array, quote_spec, str_array_spec, strings_view};
use crate::num::{dec_spec, push_dec};
use crate::oracle::{
    context_spec, diags_view, dup_opt, errors_spec, pairs_view,
    refs_view, source_line_spec, CompileOracle, CompileResult, CompileView, Diagnostic,
    DiagnosticView, DraftView, FirmwareDraft, SimOracle, SimResult, SimView, SourceRef,
    SourceRefView,
};
use crate::provenance::{entries_view, EntryView, ProvenanceEntry};
use crate::text::{chars_of, push_str, slice, string_of};
use crate::tiers::{boundary_json_spec, tier_name, BoundaryView, Tier, VerifiabilityBoundary};

verus! {

#[derive(Debug, Clone, Copy, PartialEq, Eq, Structural)]
pub enum LoopState {
    Draft,
    Built,
    Verified,
    Halted,
}

/// Context handed to codegen on each attempt. Prior compiler diagnostics are
/// the self-healing signal.
#[derive(Debug, Clone)]
pub struct LoopContext {
    pub goal: String,
    pub attempt: u32,
    pub compile_diagnostics: Vec<Diagnostic>,
    pub sim_fault: Option<String>,
}

#[verifier::ext_equal]
pub struct ContextView {
    pub goal: Seq<char>,
    pub attempt: u32,
    pub compile_diagnostics: Seq<DiagnosticView>,
    pub sim_fault: Option<Seq<char>>,
}

impl View for LoopContext {
    type V = ContextView;

    open spec fn view(&self) -> ContextView {
        ContextView {
            goal: self.goal@,
            attempt: self.attempt,
            compile_diagnostics: diags_view(self.compile_diagnostics@),
            sim_fault: self.sim_fault.deep_view(),
        }
    }
}

impl Default for LoopContext {
    fn default() -> (r: Self)
        ensures
            r.goal@.len() == 0,
            r.attempt == 0,
            r.compile_diagnostics@.len() == 0,
            r.sim_fault is None,
    {
        LoopContext {
            goal: String::new(),
            attempt: 0,
            compile_diagnostics: Vec::new(),
            sim_fault: None,
        }
    }
}

/// The model stand-in: given context, produce a firmware draft.
pub trait Codegen {
    /// Whether `d` is a draft this codegen, in its present state, may produce
    /// for context `ctx`. A codegen that states nothing of its drafts may
    /// produce any.
    open spec fn drafts(&self, ctx: ContextView, d: DraftView) -> bool {
        true
    }

    fn generate(&mut self, ctx: &LoopContext) -> (d: FirmwareDraft)
        ensures
            old(self).drafts(ctx@, d@),
    ;
}

pub struct LoopConfig {
    pub max_attempts: u32,
}

impl Default for LoopConfig {
    fn default() -> (r: Self)
        ensures
            r.max_attempts == 3,
    {
        LoopConfig { max_attempts: 3 }
    }
}

#[derive(Debug, Clone)]
pub struct LoopOutcome {
    pub state: LoopState,
    pub tier: Option<Tier>,
    pub boundary: Option<VerifiabilityBoundary>,
    pub attempts: u32,
    pub diagnostics: Vec<Diagnostic>,
    /// Positions, in the provenance journal handed to [`run_loop`], of the
    /// entries this run appended, in order.
    pub provenance_ids: Vec<usize>,
    pub artifact_path: Option<String>,
    pub observations: Vec<(String, String)>,
    pub citations: Vec<SourceRef>,
}

#[verifier::ext_equal]
pub struct OutcomeView {
    pub state: LoopState,
    pub tier: Option<Tier>,
    pub boundary: Option<BoundaryView>,
    pub attempts: u32,
    pub diagnostics: Seq<DiagnosticView>,
    pub artifact_path: Option<Seq<char>>,
    pub observations: Seq<(Seq<char>, Seq<char>)>,
    pub citations: Seq<SourceRefView>,
}

pub open spec fn opt_boundary_view(b: Option<VerifiabilityBoundary>) -> Option<BoundaryView> {
    match b {
        Some(x) => Some(x@),
        None => None,
    }
}

impl View for LoopOutcome {
    type V = OutcomeView;

    open spec fn view(&self) -> OutcomeView {
        OutcomeView {
            state: self.state,
            tier: self.tier,
            boundary: opt_boundary_view(self.boundary),
            attempts: self.attempts,
            diagnostics: diags_view(self.diagnostics@),
            artifact_path: self.artifact_path.deep_view(),
            observations: pairs_view(self.observations@),
            citations: refs_view(self.citations@),
        }
    }
}

/// VERIFIED only when a deterministic oracle proved modeled behaviour: the
/// build is clean AND simulation passed AND it actually exercised something.
pub open spec fn tier_spec(c: CompileView, s: SimView) -> Tier {
    if c.ok && s.ok && s.boundary.verified.len() > 0 {
        Tier::Verified
    } else {
        Tier::Advisory
    }
}

/// A firmware is VERIFIED only when a deterministic oracle proved modeled
/// behaviour: the build is clean AND simulation passed AND it actually
/// exercised something.
pub fn assign_tier(c: &CompileResult, s: &SimResult) -> (t: Tier)
    ensures
        t == tier_spec(c@, s@),
{
    if c.ok && s.ok && s.boundary.verified.len() > 0 {
        Tier::Verified
    } else {
        Tier::Advisory
    }
}

/// The first `n` characters of `s`.
pub open spec fn truncate_spec(s: Seq<char>, n: nat) -> Seq<char> {
    if s.len() <= n {
        s
    } else {
        s.subrange(0, n as int)
    }
}

fn truncate(s: &str, n: usize) -> (r: Vec<char>)
    ensures
        r@ == truncate_spec(s@, n as nat),
{
    let cs = chars_of(s);
    if cs.len() <= n {
        cs
    } else {
        slice(&cs, 0, n)
    }
}

// ---------------------------------------------------------------------------
// Provenance entries
// ---------------------------------------------------------------------------

/// `{}` of a boolean.
pub open spec fn bool_spec(b: bool) -> Seq<char> {
    if b {
        "true"@
    } else {
        "false"@
    }
}

pub(crate) fn push_bool(out: &mut Vec<char>, b: bool)
    ensures
        final(out)@ == old(out)@ + bool_spec(b),
{
    if b {
        push_str(out, "true");
    } else {
        push_str(out, "false");
    }
}

pub open spec fn goal_attempt_spec(goal: Seq<char>, k: nat) -> Seq<char> {
    "{\"goal\":"@ + quote_spec(goal) + ",\"attempt\":"@ + dec_spec(k)
}

pub open spec fn citation_lines(c: Seq<SourceRefView>) -> Seq<Seq<char>> {
    c.map_values(|r: SourceRefView| source_line_spec(r))
}

/// The `ground` record: the authoritative facts a draft was built on.
#[verifier::opaque]
pub open spec fn ground_entry(goal: Seq<char>, k: nat, d: DraftView) -> EntryView {
    EntryView {
        actor: "model"@,
        tool: "ground"@,
        inputs: goal_attempt_spec(goal, k) + "}"@,
        outputs: "{\"citations\":"@ + str_array_spec(citation_lines(d.citations)) + "}"@,
        tier: None,
        oracle_version: "datasheet"@,
        detail: "{}"@,
    }
}

pub open spec fn file_paths(d: DraftView) -> Seq<Seq<char>> {
    d.files.map_values(|p: (Seq<char>, Seq<char>)| p.0)
}

pub open spec fn error_contexts(c: CompileView) -> Seq<Seq<char>> {
    errors_spec(c.diagnostics).map_values(|d: DiagnosticView| context_spec(d))
}

/// The `compile` record of one attempt.
#[verifier::opaque]
pub open spec fn compile_entry(goal: Seq<char>, k: nat, d: DraftView, c: CompileView) -> EntryView {
    EntryView {
        actor: "oracle"@,
        tool: "compile"@,
        inputs: goal_attempt_spec(goal, k) + ",\"files\":"@ + str_array_spec(file_paths(d)) + "}"@,
        outputs: "{\"ok\":"@ + bool_spec(c.ok) + ",\"errors\":"@ + str_array_spec(
            error_contexts(c),
        ) + "}"@,
        tier: None,
        oracle_version: c.toolchain,
        detail: "{\"stderr\":"@ + quote_spec(truncate_spec(c.stderr, 2000)) + "}"@,
    }
}

/// The artifact handed to the simulator: the compiler's, or empty.
pub open spec fn artifact_of(c: CompileView) -> Seq<char> {
    match c.artifact_path {
        Some(a) => a,
        None => Seq::empty(),
    }
}

pub open spec fn fault_json(f: Option<Seq<char>>) -> Seq<char> {
    match f {
        Some(x) => quote_spec(x),
        None => "null"@,
    }
}

/// The `simulate` record of one attempt.
#[verifier::opaque]
pub open spec fn sim_entry(c: CompileView, d: DraftView, s: SimView) -> EntryView {
    EntryView {
        actor: "oracle"@,
        tool: "simulate"@,
        inputs: "{\"artifact\":"@ + quote_spec(artifact_of(c)) + ",\"target\":"@ + quote_spec(
            d.target,
        ) + "}"@,
        outputs: "{\"ok\":"@ + bool_spec(s.ok) + ",\"boundary\":"@ + boundary_json_spec(s.boundary)
            + ",\"fault\":"@ + fault_json(s.fault) + "}"@,
        tier: None,
        oracle_version: s.engine,
        detail: "{}"@,
    }
}

/// The `verify` record that closes a verified run.
#[verifier::opaque]
pub open spec fn verify_entry(goal: Seq<char>, c: CompileView, s: SimView) -> EntryView {
    let t = tier_name(tier_spec(c, s));
    EntryView {
        actor: "user"@,
        tool: "verify"@,
        inputs: "{\"goal\":"@ + quote_spec(goal) + "}"@,
        outputs: "{\"tier\":"@ + quote_spec(t) + ",\"boundary\":"@ + boundary_json_spec(s.boundary)
            + "}"@,
        tier: Some(t),
        oracle_version: c.toolchain + " + "@ + s.engine,
        detail: "{}"@,
    }
}

fn entry(
    actor: &str,
    tool: &str,
    inputs: &Vec<char>,
    outputs: &Vec<char>,
    tier: Option<String>,
    oracle_version: String,
    detail: &Vec<char>,
) -> (e: ProvenanceEntry)
    ensures
        e@ == (EntryView {
            actor: actor@,
            tool: tool@,
            inputs: inputs@,
            outputs: outputs@,
            tier: tier.deep_view(),
            oracle_version: oracle_version@,
            detail: detail@,
        }),
{
    ProvenanceEntry {
        actor: actor.to_owned(),
        tool: tool.to_owned(),
        inputs: string_of(inputs),
        outputs: string_of(outputs),
        tier,
        oracle_version,
        detail: string_of(detail),
    }
}

fn push_goal_attempt(out: &mut Vec<char>, goal: &str, k: u32)
    ensures
        final(out)@ == old(out)@ + goal_attempt_spec(goal@, k as nat),
{
    let ghost start = out@;
    push_str(out, "{\"goal\":");
    let g = chars_of(goal);
    push_quoted(out, &g);
    push_str(out, ",\"attempt\":");
    push_dec(out, k as u64);
    assert(out@ =~= start + goal_attempt_spec(goal@, k as nat));
}

fn ground_entry_exec(goal: &str, k: u32, d: &FirmwareDraft) -> (e: ProvenanceEntry)
    ensures
        e@ == ground_entry(goal@, k as nat, d@),
{
    let mut inputs: Vec<char> = Vec::new();
    push_goal_attempt(&mut inputs, goal, k);
    push_str(&mut inputs, "}");
    let mut lines: Vec<String> = Vec::new();
    let mut i: usize = 0;
    while i < d.citations.len()
        invariant
            i <= d.citations.len(),
            lines@.len() == i,
            forall|j: int| 0 <= j < i ==> #[trigger] lines@[j]@ == source_line_spec(
                d.citations@[j]@,
            ),
        decreases d.citations.len() - i,
    {
        lines.push(d.citations[i].as_line());
        i += 1;
    }
    assert(strings_view(lines@) =~= citation_lines(d@.citations));
    let mut outputs: Vec<char> = Vec::new();
    push_str(&mut outputs, "{\"citations\":");
    push_str_array(&mut outputs, lines.as_slice());
    push_str(&mut outputs, "}");
    let detail = chars_of("{}");
    let e = entry("model", "ground", &inputs, &outputs, None, "datasheet".to_owned(), &detail);
    reveal(ground_entry);
    assert(e@ =~= ground_entry(goal@, k as nat, d@));
    e
}

fn compile_entry_exec(goal: &str, k: u32, d: &FirmwareDraft, c: &CompileResult) -> (e:
    ProvenanceEntry)
    ensures
        e@ == compile_entry(goal@, k as nat, d@, c@),
{
    let mut inputs: Vec<char> = Vec::new();
    push_goal_attempt(&mut inputs, goal, k);
    push_str(&mut inputs, ",\"files\":");
    let mut paths: Vec<String> = Vec::new();
    let mut i: usize = 0;
    while i < d.files.len()
        invariant
            i <= d.files.len(),
            paths@.len() == i,
            forall|j: int| 0 <= j < i ==> #[trigger] paths@[j]@ == d.files@[j].0@,
        decreases d.files.len() - i,
    {
        paths.push(d.files[i].0.clone());
        i += 1;
    }
    assert(strings_view(paths@) =~= file_paths(d@));
    push_str_array(&mut inputs, paths.as_slice());
    push_str(&mut inputs, "}");

    let errs = c.errors();
    let mut ctxs: Vec<String> = Vec::new();
    let mut i: usize = 0;
    while i < errs.len()
        invariant
            i <= errs.len(),
            ctxs@.len() == i,
            forall|j: int| 0 <= j < i ==> #[trigger] ctxs@[j]@ == context_spec(errs@[j]@),
        decreases errs.len() - i,
    {
        ctxs.push(errs[i].as_context());
        i += 1;
    }
    assert(strings_view(ctxs@) =~= error_contexts(c@)) by {
        assert(errors_spec(c@.diagnostics).len() == errs@.len());
        assert forall|j: int| 0 <= j < errs@.len() implies errors_spec(c@.diagnostics)[j]
            == errs@[j]@ by {
            assert(crate::oracle::diag_refs_view(errs@)[j] == errs@[j]@);
        }
    }
    let mut outputs: Vec<char> = Vec::new();
    push_str(&mut outputs, "{\"ok\":");
    push_bool(&mut outputs, c.ok);
    push_str(&mut outputs, ",\"errors\":");
    push_str_array(&mut outputs, ctxs.as_slice());
    push_str(&mut outputs, "}");

    let mut detail: Vec<char> = Vec::new();
    push_str(&mut detail, "{\"stderr\":");
    let t = truncate(c.stderr.as_str(), 2000);
    push_quoted(&mut detail, &t);
    push_str(&mut detail, "}");
    let e = entry("oracle", "compile", &inputs, &outputs, None, c.toolchain.clone(), &detail);
    reveal(compile_entry);
    assert(e@ =~= compile_entry(goal@, k as nat, d@, c@));
    e
}

fn sim_entry_exec(c: &CompileResult, d: &FirmwareDraft, s: &SimResult, artifact: &String) -> (e:
    ProvenanceEntry)
    requires
        artifact@ == artifact_of(c@),
    ensures
        e@ == sim_entry(c@, d@, s@),
{
    let mut inputs: Vec<char> = Vec::new();
    push_str(&mut inputs, "{\"artifact\":");
    push_quoted(&mut inputs, &chars_of(artifact.as_str()));
    push_str(&mut inputs, ",\"target\":");
    push_quoted(&mut inputs, &chars_of(d.target.as_str()));
    push_str(&mut inputs, "}");
    let mut outputs: Vec<char> = Vec::new();
    push_str(&mut outputs, "{\"ok\":");
    push_bool(&mut outputs, s.ok);
    push_str(&mut outputs, ",\"boundary\":");
    s.boundary.push_json(&mut outputs);
    push_str(&mut outputs, ",\"fault\":");
    match &s.fault {
        Some(f) => push_quoted(&mut outputs, &chars_of(f.as_str())),
        None => push_str(&mut outputs, "null"),
    }
    push_str(&mut outputs, "}");
    let detail = chars_of("{}");
    let e = entry("oracle", "simulate", &inputs, &outputs, None, s.engine.clone(), &detail);
    reveal(sim_entry);
    assert(e@ =~= sim_entry(c@, d@, s@));
    e
}

fn verify_entry_exec(goal: &str, c: &CompileResult, s: &SimResult, tier: Tier) -> (e:
    ProvenanceEntry)
    requires
        tier == tier_spec(c@, s@),
    ensures
        e@ == verify_entry(goal@, c@, s@),
{
    let mut inputs: Vec<char> = Vec::new();
    push_str(&mut inputs, "{\"goal\":");
    push_quoted(&mut inputs, &chars_of(goal));
    push_str(&mut inputs, "}");
    let name = tier.as_str();
    let mut outputs: Vec<char> = Vec::new();
    push_str(&mut outputs, "{\"tier\":");
    push_quoted(&mut outputs, &chars_of(name));
    push_str(&mut outputs, ",\"boundary\":");
    s.boundary.push_json(&mut outputs);
    push_str(&mut outputs, "}");
    let mut version: Vec<char> = Vec::new();
    push_str(&mut version, c.toolchain.as_str());
    push_str(&mut version, " + ");
    push_str(&mut version, s.engine.as_str());
    let detail = chars_of("{}");
    let e = entry(
        "user",
        "verify",
        &inputs,
        &outputs,
        Some(name.to_owned()),
        string_of(&version),
        &detail,
    );
    reveal(verify_entry);
    assert(e@ =~= verify_entry(goal@, c@, s@));
    e
}

} // verus!

verus! {

// ---------------------------------------------------------------------------
// The loop
// ---------------------------------------------------------------------------

/// What the codegen and the two oracles returned in one attempt. The
/// simulation result is only consulted when the build succeeded.
#[verifier::ext_equal]
pub struct LoopRound {
    pub draft: DraftView,
    pub compile: CompileView,
    pub sim: SimView,
}

/// The context of the first attempt.
pub open spec fn initial_context(goal: Seq<char>) -> ContextView {
    ContextView { goal, attempt: 0, compile_diagnostics: Seq::empty(), sim_fault: None }
}

/// The context after an unsuccessful attempt: a failed build hands its errors
/// to the next draft; a failed simulation hands its fault.
pub open spec fn next_context(ctx: ContextView, r: LoopRound) -> ContextView {
    if !r.compile.ok {
        ContextView { compile_diagnostics: errors_spec(r.compile.diagnostics), ..ctx }
    } else {
        ContextView { sim_fault: r.sim.fault, ..ctx }
    }
}

/// The provenance entries one attempt appends, in order.
pub open spec fn round_entries(goal: Seq<char>, k: nat, r: LoopRound) -> Seq<EntryView> {
    (if r.draft.citations.len() > 0 {
        seq![ground_entry(goal, k, r.draft)]
    } else {
        Seq::empty()
    }) + seq![compile_entry(goal, k, r.draft, r.compile)] + (if r.compile.ok {
        seq![sim_entry(r.compile, r.draft, r.sim)] + (if r.sim.ok {
            seq![verify_entry(goal, r.compile, r.sim)]
        } else {
            Seq::empty()
        })
    } else {
        Seq::empty()
    })
}

/// The outcome when attempt `k` passed both oracles.
pub open spec fn verified_outcome(k: nat, r: LoopRound) -> OutcomeView {
    OutcomeView {
        state: LoopState::Verified,
        tier: Some(tier_spec(r.compile, r.sim)),
        boundary: Some(r.sim.boundary),
        attempts: k as u32,
        diagnostics: Seq::empty(),
        artifact_path: r.compile.artifact_path,
        observations: r.sim.observations,
        citations: r.draft.citations,
    }
}

/// The outcome when the last attempt `k` failed: a failed build returns its
/// errors; a failed simulation returns the build's diagnostics and boundary.
pub open spec fn halted_outcome(k: nat, r: LoopRound) -> OutcomeView {
    OutcomeView {
        state: LoopState::Halted,
        tier: None,
        boundary: if r.compile.ok {
            Some(r.sim.boundary)
        } else {
            None
        },
        attempts: k as u32,
        diagnostics: if r.compile.ok {
            r.compile.diagnostics
        } else {
            errors_spec(r.compile.diagnostics)
        },
        artifact_path: None,
        observations: Seq::empty(),
        citations: r.draft.citations,
    }
}

/// The outcome of a loop with no attempts at all.
pub open spec fn empty_outcome() -> OutcomeView {
    OutcomeView {
        state: LoopState::Halted,
        tier: None,
        boundary: None,
        attempts: 0,
        diagnostics: Seq::empty(),
        artifact_path: None,
        observations: Seq::empty(),
        citations: Seq::empty(),
    }
}

/// What a run produces: its outcome, the provenance entries it appends, and
/// the context it hands to codegen on each attempt.
#[verifier::ext_equal]
pub struct LoopRun {
    pub outcome: OutcomeView,
    pub entries: Seq<EntryView>,
    pub contexts: Seq<ContextView>,
}

/// The loop from attempt `k` (1-based) on, given what the codegen and the
/// oracles return in each attempt.
pub open spec fn run_from(
    goal: Seq<char>,
    max: nat,
    k: nat,
    ctx: ContextView,
    rounds: Seq<LoopRound>,
) -> LoopRun
    decreases max + 1 - k,
{
    if k == 0 || k > max {
        LoopRun { outcome: empty_outcome(), entries: Seq::empty(), contexts: Seq::empty() }
    } else {
        let r = rounds[k - 1];
        let ctx_k = ContextView { attempt: k as u32, ..ctx };
        let es = round_entries(goal, k, r);
        if r.compile.ok && r.sim.ok {
            LoopRun { outcome: verified_outcome(k, r), entries: es, contexts: seq![ctx_k] }
        } else if k == max {
            LoopRun { outcome: halted_outcome(k, r), entries: es, contexts: seq![ctx_k] }
        } else {
            let rest = run_from(goal, max, k + 1, next_context(ctx_k, r), rounds);
            LoopRun {
                outcome: rest.outcome,
                entries: es + rest.entries,
                contexts: seq![ctx_k] + rest.contexts,
            }
        }
    }
}

/// A whole run of the loop with budget `max`.
pub open spec fn run_spec(goal: Seq<char>, max: nat, rounds: Seq<LoopRound>) -> LoopRun {
    run_from(goal, max, 1, initial_context(goal), rounds)
}

/// One attempt as the calls made it: `codegen` drafted `r.draft` for context
/// `ctx`, `compile_oracle` built that draft into `r.compile`, and, where the
/// build succeeded, `sim_oracle` ran its artifact on the draft's target and
/// gave `r.sim`.
pub open spec fn round_made_by<G: Codegen, C: CompileOracle, S: SimOracle>(
    codegen: G,
    compile_oracle: C,
    sim_oracle: S,
    ctx: ContextView,
    r: LoopRound,
) -> bool {
    &&& codegen.drafts(ctx, r.draft)
    &&& compile_oracle.compiles(r.draft, r.compile)
    &&& r.compile.ok ==> sim_oracle.simulates(artifact_of(r.compile), r.draft.target, r.sim)
}

/// The attempts of a run, one per context, as the calls made them: attempt
/// `k` asked `drafters[k]` (the codegen as it stood at that call, the first
/// being the one the run was handed) for a draft in context `contexts[k]`.
pub open spec fn oracle_trace<G: Codegen, C: CompileOracle, S: SimOracle>(
    first: G,
    compile_oracle: C,
    sim_oracle: S,
    contexts: Seq<ContextView>,
    rounds: Seq<LoopRound>,
    drafters: Seq<G>,
) -> bool {
    &&& rounds.len() == contexts.len()
    &&& drafters.len() == contexts.len()
    &&& drafters.len() > 0 ==> drafters[0] == first
    &&& forall|k: int|
        0 <= k < rounds.len() ==> round_made_by(
            drafters[k],
            compile_oracle,
            sim_oracle,
            contexts[k],
            #[trigger] rounds[k],
        )
}

proof fn lemma_trace_push<G: Codegen, C: CompileOracle, S: SimOracle>(
    first: G,
    compile_oracle: C,
    sim_oracle: S,
    contexts: Seq<ContextView>,
    rounds: Seq<LoopRound>,
    drafters: Seq<G>,
    ctx: ContextView,
    r: LoopRound,
    g: G,
)
    requires
        oracle_trace(first, compile_oracle, sim_oracle, contexts, rounds, drafters),
        rounds.len() == 0 ==> g == first,
        round_made_by(g, compile_oracle, sim_oracle, ctx, r),
    ensures
        oracle_trace(
            first,
            compile_oracle,
            sim_oracle,
            contexts.push(ctx),
            rounds.push(r),
            drafters.push(g),
        ),
{
    assert forall|k: int| 0 <= k < rounds.push(r).len() implies round_made_by(
        drafters.push(g)[k],
        compile_oracle,
        sim_oracle,
        contexts.push(ctx)[k],
        #[trigger] rounds.push(r)[k],
    ) by {
        if k < rounds.len() {
            assert(rounds.push(r)[k] == rounds[k]);
        }
    }
}

/// Positions `start, start + 1, ..` of `n` appended entries.
pub open spec fn positions(start: nat, n: nat) -> Seq<usize> {
    Seq::new(n, |i: int| (start + i) as usize)
}

/// `rs` begins with `rounds`.
pub open spec fn extends(rs: Seq<LoopRound>, rounds: Seq<LoopRound>) -> bool {
    rs.len() >= rounds.len() && rs.subrange(0, rounds.len() as int) == rounds
}

/// After the attempts in `rounds`, which appended `done` and handed codegen
/// the contexts `dctx`, the loop is about to start attempt `k` with `ctx`:
/// every run that begins with these rounds ends as the rest of the loop says.
#[verifier::opaque]
pub open spec fn loop_inv(
    goal: Seq<char>,
    max: nat,
    k: nat,
    ctx: ContextView,
    rounds: Seq<LoopRound>,
    done: Seq<EntryView>,
    dctx: Seq<ContextView>,
) -> bool {
    forall|rs: Seq<LoopRound>|
        #![trigger run_spec(goal, max, rs)]
        extends(rs, rounds) ==> run_spec(goal, max, rs) == ({
            let tail = run_from(goal, max, k, ctx, rs);
            LoopRun {
                outcome: tail.outcome,
                entries: done + tail.entries,
                contexts: dctx + tail.contexts,
            }
        })
}

proof fn lemma_inv_init(goal: Seq<char>, max: nat)
    ensures
        loop_inv(goal, max, 1, initial_context(goal), Seq::empty(), Seq::empty(), Seq::empty()),
{
    reveal(loop_inv);
    assert forall|rs: Seq<LoopRound>| #![trigger run_spec(goal, max, rs)] extends(rs, Seq::empty()) implies run_spec(goal, max, rs) == ({
        let tail = run_from(goal, max, 1, initial_context(goal), rs);
        LoopRun {
            outcome: tail.outcome,
            entries: Seq::<EntryView>::empty() + tail.entries,
            contexts: Seq::<ContextView>::empty() + tail.contexts,
        }
    }) by {
        let tail = run_from(goal, max, 1, initial_context(goal), rs);
        assert(Seq::<EntryView>::empty() + tail.entries =~= tail.entries);
        assert(Seq::<ContextView>::empty() + tail.contexts =~= tail.contexts);
    }
}

proof fn lemma_inv_step(
    goal: Seq<char>,
    max: nat,
    k: nat,
    ctx: ContextView,
    rounds: Seq<LoopRound>,
    done: Seq<EntryView>,
    dctx: Seq<ContextView>,
    r: LoopRound,
)
    requires
        loop_inv(goal, max, k, ctx, rounds, done, dctx),
        rounds.len() == k - 1,
        1 <= k < max,
        !(r.compile.ok && r.sim.ok),
    ensures
        ({
            let ctx_k = ContextView { attempt: k as u32, ..ctx };
            loop_inv(
                goal,
                max,
                k + 1,
                next_context(ctx_k, r),
                rounds.push(r),
                done + round_entries(goal, k, r),
                dctx.push(ctx_k),
            )
        }),
{
    reveal(loop_inv);
    let ctx_k = ContextView { attempt: k as u32, ..ctx };
    let rounds2 = rounds.push(r);
    let es = round_entries(goal, k, r);
    assert forall|rs: Seq<LoopRound>| #![trigger run_spec(goal, max, rs)] extends(rs, rounds2) implies run_spec(goal, max, rs) == ({
        let tail = run_from(goal, max, k + 1, next_context(ctx_k, r), rs);
        LoopRun {
            outcome: tail.outcome,
            entries: (done + es) + tail.entries,
            contexts: dctx.push(ctx_k) + tail.contexts,
        }
    }) by {
        assert(rs.subrange(0, rounds.len() as int) =~= rounds2.subrange(0, rounds.len() as int));
        assert(rounds2.subrange(0, rounds.len() as int) =~= rounds);
        assert(extends(rs, rounds));
        assert(rs[k - 1] == rounds2[k - 1]);
        let tail0 = run_from(goal, max, k, ctx, rs);
        let tail1 = run_from(goal, max, k + 1, next_context(ctx_k, r), rs);
        assert(tail0.entries == es + tail1.entries);
        assert(tail0.contexts == seq![ctx_k] + tail1.contexts);
        assert(done + tail0.entries =~= (done + es) + tail1.entries);
        assert(dctx + tail0.contexts =~= dctx.push(ctx_k) + tail1.contexts);
    }
}

proof fn lemma_inv_finish(
    goal: Seq<char>,
    max: nat,
    k: nat,
    ctx: ContextView,
    rounds: Seq<LoopRound>,
    done: Seq<EntryView>,
    dctx: Seq<ContextView>,
    r: LoopRound,
)
    requires
        loop_inv(goal, max, k, ctx, rounds, done, dctx),
        rounds.len() == k - 1,
        1 <= k <= max,
        (r.compile.ok && r.sim.ok) || k == max,
    ensures
        run_spec(goal, max, rounds.push(r)).outcome == (if r.compile.ok && r.sim.ok {
            verified_outcome(k, r)
        } else {
            halted_outcome(k, r)
        }),
        run_spec(goal, max, rounds.push(r)).entries == done + round_entries(goal, k, r),
        run_spec(goal, max, rounds.push(r)).contexts == dctx.push(
            ContextView { attempt: k as u32, ..ctx },
        ),
{
    reveal(loop_inv);
    let rs = rounds.push(r);
    assert(rs.subrange(0, rounds.len() as int) =~= rounds);
    assert(extends(rs, rounds));
    assert(rs[k - 1] == r);
    let tail = run_from(goal, max, k, ctx, rs);
    assert(run_spec(goal, max, rs) == LoopRun {
        outcome: tail.outcome,
        entries: done + tail.entries,
        contexts: dctx + tail.contexts,
    });
    assert(dctx + tail.contexts =~= dctx.push(ContextView { attempt: k as u32, ..ctx }));
}

proof fn lemma_inv_empty(
    goal: Seq<char>,
    ctx: ContextView,
    rounds: Seq<LoopRound>,
    done: Seq<EntryView>,
    dctx: Seq<ContextView>,
)
    requires
        loop_inv(goal, 0, 1, ctx, rounds, done, dctx),
        rounds.len() == 0,
    ensures
        run_spec(goal, 0, rounds).outcome == empty_outcome(),
        run_spec(goal, 0, rounds).entries == done,
        run_spec(goal, 0, rounds).contexts == dctx,
{
    reveal(loop_inv);
    assert(rounds.subrange(0, 0) =~= rounds);
    assert(extends(rounds, rounds));
    let tail = run_from(goal, 0, 1, ctx, rounds);
    assert(done + tail.entries =~= done);
    assert(dctx + tail.contexts =~= dctx);
}

proof fn lemma_round_entries(goal: Seq<char>, k: nat, r: LoopRound)
    ensures
        round_entries(goal, k, r) == (if r.draft.citations.len() > 0 {
            seq![ground_entry(goal, k, r.draft)]
        } else {
            Seq::empty()
        }) + seq![compile_entry(goal, k, r.draft, r.compile)] + (if r.compile.ok {
            seq![sim_entry(r.compile, r.draft, r.sim)] + (if r.sim.ok {
                seq![verify_entry(goal, r.compile, r.sim)]
            } else {
                Seq::empty()
            })
        } else {
            Seq::empty()
        }),
{
}

fn record(journal: &mut Vec<ProvenanceEntry>, ids: &mut Vec<usize>, e: ProvenanceEntry)
    ensures
        entries_view(final(journal)@) == entries_view(old(journal)@).push(e@),
        final(ids)@ == old(ids)@.push(old(journal)@.len() as usize),
{
    let ghost before = entries_view(journal@);
    let ghost ev = e@;
    journal.push(e);
    ids.push(journal.len() - 1);
    assert(entries_view(journal@) =~= before.push(ev));
}

proof fn lemma_positions_push(start: nat, n: nat)
    ensures
        positions(start, n).push((start + n) as usize) == positions(start, n + 1),
{
    assert(positions(start, n).push((start + n) as usize) =~= positions(start, n + 1));
}

/// Drive the verification loop: draft, compile, simulate, with at most
/// `cfg.max_attempts` attempts. Every consequential action is appended to
/// `journal` as a provenance entry. The run is the one that `run_spec` gives
/// for the attempts the calls made: each draft is what `codegen` produced for
/// that attempt's context, each build what `compile_oracle` gave for that
/// draft, and each simulation what `sim_oracle` gave for that build's artifact.
pub fn run_loop<G: Codegen, C: CompileOracle, S: SimOracle>(
    goal: &str,
    codegen: &mut G,
    compile_oracle: &C,
    sim_oracle: &S,
    journal: &mut Vec<ProvenanceEntry>,
    cfg: &LoopConfig,
) -> (o: LoopOutcome)
    ensures
        exists|rounds: Seq<LoopRound>, drafters: Seq<G>|
            {
                let run = run_spec(goal@, cfg.max_attempts as nat, rounds);
                &&& #[trigger] oracle_trace(
                    *old(codegen),
                    *compile_oracle,
                    *sim_oracle,
                    run_spec(goal@, cfg.max_attempts as nat, rounds).contexts,
                    rounds,
                    drafters,
                )
                &&& o@ == run.outcome
                &&& entries_view(final(journal)@) == entries_view(old(journal)@) + run.entries
                &&& o.provenance_ids@ == positions(old(journal)@.len(), run.entries.len())
            },
{
    let ghost start = entries_view(journal@);
    let ghost start_len = journal@.len();
    let ghost goal_v = goal@;
    let ghost max = cfg.max_attempts as nat;
    let ghost mut rounds: Seq<LoopRound> = Seq::empty();
    let ghost mut done: Seq<EntryView> = Seq::empty();
    let ghost mut dctx: Seq<ContextView> = Seq::empty();
    let ghost mut drafters: Seq<G> = Seq::empty();
    let ghost first = *codegen;
    let mut prov_ids: Vec<usize> = Vec::new();
    let mut ctx = LoopContext {
        goal: goal.to_owned(),
        attempt: 0,
        compile_diagnostics: Vec::new(),
        sim_fault: None,
    };
    let mut attempt: u32 = 1;
    proof {
        assert(ctx@ =~= initial_context(goal_v));
        lemma_inv_init(goal_v, max);
        assert(positions(start_len as nat, 0) =~= prov_ids@);
        assert(start + done =~= start);
    }
    while attempt <= cfg.max_attempts
        invariant
            1 <= attempt,
            attempt >= 2 ==> attempt <= cfg.max_attempts,
            max == cfg.max_attempts as nat,
            rounds.len() == attempt - 1,
            loop_inv(goal_v, max, attempt as nat, ctx@, rounds, done, dctx),
            entries_view(journal@) == start + done,
            start.len() == start_len,
            start == entries_view(old(journal)@),
            start_len == old(journal)@.len(),
            prov_ids@ == positions(start_len as nat, done.len()),
            goal_v == goal@,
            first == *old(codegen),
            oracle_trace(first, *compile_oracle, *sim_oracle, dctx, rounds, drafters),
            rounds.len() == 0 ==> *codegen == first,
        decreases cfg.max_attempts + 1 - attempt,
    {
        let ghost ctx0 = ctx@;
        let ghost done0 = done;
        ctx.attempt = attempt;
        let ghost ctx_k = ctx@;
        assert(ctx_k == ContextView { attempt: attempt as u32, ..ctx0 });
        let ghost g_k = *codegen;
        let draft = codegen.generate(&ctx);
        let ghost mut part: Seq<EntryView> = Seq::empty();

        // --- ground: record the authoritative facts this draft was built on ---
        if draft.citations.len() > 0 {
            let e = ground_entry_exec(goal, attempt, &draft);
            proof {
                lemma_positions_push(start_len as nat, done.len());
            }
            record(journal, &mut prov_ids, e);
            proof {
                part = part.push(ground_entry(goal_v, attempt as nat, draft@));
                done = done.push(ground_entry(goal_v, attempt as nat, draft@));
                assert(entries_view(journal@) =~= start + done);
            }
        }

        // --- compile ---
        let cres = compile_oracle.compile(&draft);
        let ce = compile_entry_exec(goal, attempt, &draft, &cres);
        proof {
            lemma_positions_push(start_len as nat, done.len());
        }
        record(journal, &mut prov_ids, ce);
        proof {
            part = part.push(compile_entry(goal_v, attempt as nat, draft@, cres@));
            done = done.push(compile_entry(goal_v, attempt as nat, draft@, cres@));
            assert(entries_view(journal@) =~= start + done);
            assert(done =~= done0 + part);
        }

        if !cres.ok {
            let ghost r = LoopRound {
                draft: draft@,
                compile: cres@,
                sim: vstd::pervasive::arbitrary(),
            };
            proof {
                lemma_round_entries(goal_v, attempt as nat, r);
                assert(part =~= round_entries(goal_v, attempt as nat, r));
            }
            if attempt == cfg.max_attempts {
                let o = LoopOutcome {
                    state: LoopState::Halted,
                    tier: None,
                    boundary: None,
                    attempts: attempt,
                    diagnostics: cres.error_copies(),
                    provenance_ids: prov_ids,
                    artifact_path: None,
                    observations: Vec::new(),
                    citations: draft.citations,
                };
                proof {
                    lemma_inv_finish(goal_v, max, attempt as nat, ctx0, rounds, done0, dctx, r);
                lemma_trace_push(first, *compile_oracle, *sim_oracle, dctx, rounds, drafters, ctx_k, r, g_k);
                    assert(o@ =~= halted_outcome(attempt as nat, r));
                    let rs = rounds.push(r);
                    assert(o@ == run_spec(goal_v, max, rs).outcome);
                    assert(entries_view(journal@) == start + run_spec(goal_v, max, rs).entries);
                    assert(o.provenance_ids@ == positions(start_len as nat, run_spec(goal_v, max, rs).entries.len()));
                }
                return o;
            }
            ctx.compile_diagnostics = cres.error_copies();
            proof {
                assert(ctx@ =~= next_context(ctx_k, r));
                lemma_inv_step(goal_v, max, attempt as nat, ctx0, rounds, done0, dctx, r);
                lemma_trace_push(first, *compile_oracle, *sim_oracle, dctx, rounds, drafters, ctx_k, r, g_k);
                rounds = rounds.push(r);
                dctx = dctx.push(ctx_k);
                drafters = drafters.push(g_k);
            }
            attempt = attempt + 1;
            continue;
        }

        // --- BUILT -> simulate ---
        let artifact = match &cres.artifact_path {
            Some(a) => a.clone(),
            None => String::new(),
        };
        let sres = sim_oracle.simulate(artifact.as_str(), draft.target.as_str());
        let se = sim_entry_exec(&cres, &draft, &sres, &artifact);
        proof {
            lemma_positions_push(start_len as nat, done.len());
        }
        record(journal, &mut prov_ids, se);
        let ghost r = LoopRound { draft: draft@, compile: cres@, sim: sres@ };
        proof {
            part = part.push(sim_entry(cres@, draft@, sres@));
            done = done.push(sim_entry(cres@, draft@, sres@));
            assert(entries_view(journal@) =~= start + done);
        }

        if sres.ok {
            let tier = assign_tier(&cres, &sres);
            let ve = verify_entry_exec(goal, &cres, &sres, tier);
            proof {
                lemma_positions_push(start_len as nat, done.len());
            }
            record(journal, &mut prov_ids, ve);
            proof {
                part = part.push(verify_entry(goal_v, cres@, sres@));
                done = done.push(verify_entry(goal_v, cres@, sres@));
                assert(entries_view(journal@) =~= start + done);
                lemma_round_entries(goal_v, attempt as nat, r);
                assert(part =~= round_entries(goal_v, attempt as nat, r));
                assert(done =~= done0 + part);
            }
            let o = LoopOutcome {
                state: LoopState::Verified,
                tier: Some(tier),
                boundary: Some(sres.boundary),
                attempts: attempt,
                diagnostics: Vec::new(),
                provenance_ids: prov_ids,
                artifact_path: cres.artifact_path,
                observations: sres.observations,
                citations: draft.citations,
            };
            proof {
                lemma_inv_finish(goal_v, max, attempt as nat, ctx0, rounds, done0, dctx, r);
                lemma_trace_push(first, *compile_oracle, *sim_oracle, dctx, rounds, drafters, ctx_k, r, g_k);
                assert(o@ =~= verified_outcome(attempt as nat, r));
                let rs = rounds.push(r);
                assert(o@ == run_spec(goal_v, max, rs).outcome);
                assert(entries_view(journal@) == start + run_spec(goal_v, max, rs).entries);
                assert(o.provenance_ids@ == positions(start_len as nat, run_spec(goal_v, max, rs).entries.len()));
            }
            return o;
        }
        proof {
            lemma_round_entries(goal_v, attempt as nat, r);
            assert(part =~= round_entries(goal_v, attempt as nat, r));
            assert(done =~= done0 + part);
        }
        if attempt == cfg.max_attempts {
            let o = LoopOutcome {
                state: LoopState::Halted,
                tier: None,
                boundary: Some(sres.boundary),
                attempts: attempt,
                diagnostics: cres.diagnostics,
                provenance_ids: prov_ids,
                artifact_path: None,
                observations: Vec::new(),
                citations: draft.citations,
            };
            proof {
                lemma_inv_finish(goal_v, max, attempt as nat, ctx0, rounds, done0, dctx, r);
                lemma_trace_push(first, *compile_oracle, *sim_oracle, dctx, rounds, drafters, ctx_k, r, g_k);
                assert(o@ =~= halted_outcome(attempt as nat, r));
                let rs = rounds.push(r);
                assert(o@ == run_spec(goal_v, max, rs).outcome);
                assert(entries_view(journal@) == start + run_spec(goal_v, max, rs).entries);
                assert(o.provenance_ids@ == positions(start_len as nat, run_spec(goal_v, max, rs).entries.len()));
            }
            return o;
        }
        ctx.sim_fault = dup_opt(&sres.fault);
        proof {
            assert(ctx@ =~= next_context(ctx_k, r));
            lemma_inv_step(goal_v, max, attempt as nat, ctx0, rounds, done0, dctx, r);
            lemma_trace_push(first, *compile_oracle, *sim_oracle, dctx, rounds, drafters, ctx_k, r, g_k);
            rounds = rounds.push(r);
            dctx = dctx.push(ctx_k);
            drafters = drafters.push(g_k);
        }
        attempt = attempt + 1;
    }
    let o = LoopOutcome {
        state: LoopState::Halted,
        tier: None,
        boundary: None,
        attempts: cfg.max_attempts,
        diagnostics: Vec::new(),
        provenance_ids: prov_ids,
        artifact_path: None,
        observations: Vec::new(),
        citations: Vec::new(),
    };
    proof {
        assert(attempt == 1 && cfg.max_attempts == 0);
        lemma_inv_empty(goal_v, ctx@, rounds, done, dctx);
        assert(o@ =~= empty_outcome());
        assert(oracle_trace(first, *compile_oracle, *sim_oracle, run_spec(goal_v, max, rounds).contexts, rounds, drafters));
    }
    o
}

} // verus!
