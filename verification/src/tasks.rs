//! The registry of desktop workspace tasks. Hosts schedule work here and
//! renderers only observe it: one task runs at a time, each keeps the events
//! it emitted and its result, and the registry keeps a bounded number of
//! recent tasks.

use vstd::prelude::*;
use crate::engine::{ContextView, LoopContext};
use crate::json::strings_view;
use crate::num::{dec_spec, push_dec};
use crate::oracle::{diags_view, errors_spec, Diagnostic, DiagnosticView};
use crate::text::{chars_eq, chars_of, ends_with, ends_with_spec, push_str, str_eq, string_of};
use crate::tiers::{BoundaryView, VerifiabilityBoundary};
use crate::toolchain::{fwd, fwd_spec};

verus! {

/// How many tasks the registry keeps before it starts afresh.
pub const MAX_TASKS: usize = 32;

/// Whether a task is still running.
#[derive(PartialEq, Eq, Structural, Clone, Copy, Debug)]
pub enum TaskStatus {
    Running,
    Completed,
}

/// One progress event of a task: the stage, its status, and a message.
pub struct TaskEvent {
    pub stage: String,
    pub status: String,
    pub message: String,
}

/// A task as the registry keeps it; `result` is the JSON text of its outcome.
pub struct TaskRecord {
    pub id: String,
    pub status: TaskStatus,
    pub events: Vec<TaskEvent>,
    pub result: Option<String>,
}

pub type EventView = (Seq<char>, Seq<char>, Seq<char>);

#[verifier::ext_equal]
pub struct TaskView {
    pub status: TaskStatus,
    pub events: Seq<EventView>,
    pub result: Option<Seq<char>>,
}

impl View for TaskEvent {
    type V = EventView;

    open spec fn view(&self) -> EventView {
        (self.stage@, self.status@, self.message@)
    }
}

pub open spec fn events_view(v: Seq<TaskEvent>) -> Seq<EventView> {
    v.map_values(|e: TaskEvent| e@)
}

impl View for TaskRecord {
    type V = TaskView;

    open spec fn view(&self) -> TaskView {
        TaskView {
            status: self.status,
            events: events_view(self.events@),
            result: self.result.deep_view(),
        }
    }
}

/// A task that has just started: running, no events, no result.
pub open spec fn fresh_task() -> TaskView {
    TaskView { status: TaskStatus::Running, events: Seq::empty(), result: None }
}

/// The registry, in insertion order: each task's id and state.
pub struct TaskRegistry {
    tasks: Vec<TaskRecord>,
}

pub type RegistryView = Seq<(Seq<char>, TaskView)>;

impl View for TaskRegistry {
    type V = RegistryView;

    closed spec fn view(&self) -> RegistryView {
        self.tasks@.map_values(|t: TaskRecord| (t.id@, t@))
    }
}

/// Some task of the registry has this id.
pub open spec fn has_id(s: RegistryView, id: Seq<char>) -> bool {
    exists|k: int| 0 <= k < s.len() && s[k].0 == id
}

/// The place of the task with this id.
pub open spec fn index_of(s: RegistryView, id: Seq<char>) -> int {
    choose|k: int| 0 <= k < s.len() && s[k].0 == id
}

/// Some task of the registry is running.
pub open spec fn some_running(s: RegistryView) -> bool {
    exists|k: int| 0 <= k < s.len() && s[k].1.status == TaskStatus::Running
}

/// What every registry state satisfies: ids are distinct, at most one task
/// runs, and no more than `MAX_TASKS` tasks are kept.
pub open spec fn registry_wf(s: RegistryView) -> bool {
    &&& forall|i: int, j: int| 0 <= i < j < s.len() ==> s[i].0 != s[j].0
    &&& forall|i: int, j: int|
        0 <= i < s.len() && 0 <= j < s.len() && s[i].1.status == TaskStatus::Running
            && s[j].1.status == TaskStatus::Running ==> i == j
    &&& s.len() <= MAX_TASKS
}

/// The registry after `id` is registered while nothing runs: it starts
/// afresh when full, then holds `id` as a fresh running task.
pub open spec fn registered(s: RegistryView, id: Seq<char>) -> RegistryView {
    let base = if s.len() >= MAX_TASKS {
        Seq::empty()
    } else {
        s
    };
    if has_id(base, id) {
        base.update(index_of(base, id), (id, fresh_task()))
    } else {
        base.push((id, fresh_task()))
    }
}

/// The registry after the task `id` changed to `t` (unchanged without it).
pub open spec fn with_task(s: RegistryView, id: Seq<char>, t: TaskView) -> RegistryView {
    if has_id(s, id) {
        s.update(index_of(s, id), (id, t))
    } else {
        s
    }
}

/// The task `id` with one more event.
pub open spec fn emitted(s: RegistryView, id: Seq<char>, e: EventView) -> RegistryView {
    let t = s[index_of(s, id)].1;
    with_task(s, id, TaskView { events: t.events.push(e), ..t })
}

/// The task `id` completed with its result.
pub open spec fn completed(s: RegistryView, id: Seq<char>, result: Seq<char>) -> RegistryView {
    let t = s[index_of(s, id)].1;
    with_task(s, id, TaskView { status: TaskStatus::Completed, result: Some(result), ..t })
}

proof fn lemma_index_of(s: RegistryView, id: Seq<char>, k: int)
    requires
        registry_wf(s),
        0 <= k < s.len(),
        s[k].0 == id,
    ensures
        has_id(s, id),
        index_of(s, id) == k,
{
    let c = index_of(s, id);
    assert(0 <= c < s.len() && s[c].0 == id);
    if c < k {
        assert(s[c].0 != s[k].0);
    } else if k < c {
        assert(s[k].0 != s[c].0);
    }
}

impl TaskRecord {
    /// A running task with no events yet.
    pub fn started(id: String) -> (r: TaskRecord)
        ensures
            r.id@ == id@,
            r@ == fresh_task(),
    {
        let r = TaskRecord { id, status: TaskStatus::Running, events: Vec::new(), result: None };
        assert(r@ =~= fresh_task());
        r
    }
}

impl TaskRegistry {
    /// An empty registry.
    pub fn new() -> (r: TaskRegistry)
        ensures
            r@ == Seq::<(Seq<char>, TaskView)>::empty(),
            registry_wf(r@),
    {
        let r = TaskRegistry { tasks: Vec::new() };
        assert(r@ =~= Seq::<(Seq<char>, TaskView)>::empty());
        r
    }

    /// How many tasks are kept.
    pub fn len(&self) -> (n: usize)
        ensures
            n == self@.len(),
    {
        self.tasks.len()
    }

    fn find(&self, id: &str) -> (r: Option<usize>)
        requires
            registry_wf(self@),
        ensures
            match r {
                Some(k) => k < self@.len() && self@[k as int].0 == id@ && has_id(self@, id@)
                    && index_of(self@, id@) == k,
                None => !has_id(self@, id@),
            },
    {
        let mut i: usize = 0;
        while i < self.tasks.len()
            invariant
                i <= self.tasks.len(),
                registry_wf(self@),
                self@.len() == self.tasks@.len(),
                forall|j: int| 0 <= j < self@.len() ==> #[trigger] self@[j] == (
                    self.tasks@[j].id@,
                    self.tasks@[j]@,
                ),
                forall|j: int| 0 <= j < i ==> self@[j].0 != id@,
            decreases self.tasks.len() - i,
        {
            if str_eq(self.tasks[i].id.as_str(), id) {
                proof {
                    lemma_index_of(self@, id@, i as int);
                }
                return Some(i);
            }
            i += 1;
        }
        None
    }

    /// Whether some task is running.
    pub fn any_running(&self) -> (b: bool)
        ensures
            b == some_running(self@),
    {
        let mut i: usize = 0;
        while i < self.tasks.len()
            invariant
                i <= self.tasks.len(),
                self@.len() == self.tasks@.len(),
                forall|j: int| 0 <= j < self@.len() ==> #[trigger] self@[j] == (
                    self.tasks@[j].id@,
                    self.tasks@[j]@,
                ),
                forall|j: int| 0 <= j < i ==> self@[j].1.status != TaskStatus::Running,
            decreases self.tasks.len() - i,
        {
            if self.tasks[i].status == TaskStatus::Running {
                assert(self@[i as int].1.status == TaskStatus::Running);
                return true;
            }
            i += 1;
        }
        false
    }

    /// Registers the task `id` as running. Refused while another task runs;
    /// a full registry starts afresh first.
    pub fn register(&mut self, id: String) -> (r: Result<(), String>)
        requires
            registry_wf(old(self)@),
        ensures
            registry_wf(final(self)@),
            match r {
                Ok(()) => !some_running(old(self)@) && final(self)@ == registered(
                    old(self)@,
                    id@,
                ),
                Err(e) => some_running(old(self)@) && final(self)@ == old(self)@ && e@
                    == "A workspace task is already running"@,
            },
    {
        if self.any_running() {
            return Err("A workspace task is already running".to_owned());
        }
        let ghost s0 = self@;
        if self.tasks.len() >= MAX_TASKS {
            self.tasks.clear();
        }
        let ghost base = self@;
        assert(base =~= (if s0.len() >= MAX_TASKS {
            Seq::empty()
        } else {
            s0
        }));
        let ghost idv = id@;
        let rec = TaskRecord::started(id);
        match self.find(rec.id.as_str()) {
            Some(k) => {
                self.tasks.set(k, rec);
                assert(self@ =~= base.update(k as int, (idv, fresh_task())));
            },
            None => {
                self.tasks.push(rec);
                assert(self@ =~= base.push((idv, fresh_task())));
            },
        }
        proof {
            let s = self@;
            assert forall|i: int, j: int|
                0 <= i < s.len() && 0 <= j < s.len() && s[i].1.status == TaskStatus::Running
                    && s[j].1.status == TaskStatus::Running implies i == j by {
                if i != j {
                    if s[i].0 == idv {
                        assert(base.len() == 0 || !some_running(base));
                        assert(j < base.len() && base[j] == s[j]);
                    } else {
                        assert(i < base.len() && base[i] == s[i]);
                    }
                }
            }
        }
        Ok(())
    }

    /// The task `id`, if the registry keeps it.
    pub fn get(&self, id: &str) -> (r: Option<&TaskRecord>)
        requires
            registry_wf(self@),
        ensures
            match r {
                Some(t) => has_id(self@, id@) && t@ == self@[index_of(self@, id@)].1 && t.id@
                    == id@,
                None => !has_id(self@, id@),
            },
    {
        match self.find(id) {
            Some(k) => Some(&self.tasks[k]),
            None => None,
        }
    }

    /// The task `id`, or the explicit error for an id the registry does not
    /// keep.
    pub fn task_status(&self, id: &str) -> (r: Result<&TaskRecord, String>)
        requires
            registry_wf(self@),
        ensures
            match r {
                Ok(t) => has_id(self@, id@) && t@ == self@[index_of(self@, id@)].1,
                Err(e) => !has_id(self@, id@) && e@ == "Unknown task"@,
            },
    {
        match self.get(id) {
            Some(t) => Ok(t),
            None => Err("Unknown task".to_owned()),
        }
    }

    /// Records an event of the task `id` (nothing happens for an unknown id).
    pub fn emit(&mut self, id: &str, stage: &str, status: &str, message: &str)
        requires
            registry_wf(old(self)@),
        ensures
            registry_wf(final(self)@),
            has_id(old(self)@, id@) ==> final(self)@ == emitted(
                old(self)@,
                id@,
                (stage@, status@, message@),
            ),
            !has_id(old(self)@, id@) ==> final(self)@ == old(self)@,
    {
        match self.find(id) {
            Some(k) => {
                let ghost s0 = self@;
                let mut rec = self.tasks.remove(k);
                let ghost before = rec.events@;
                assert(events_view(before) == s0[k as int].1.events);
                let ev = TaskEvent {
                    stage: stage.to_owned(),
                    status: status.to_owned(),
                    message: message.to_owned(),
                };
                rec.events.push(ev);
                assert(events_view(rec.events@) =~= events_view(before).push(
                    (stage@, status@, message@),
                ));
                self.tasks.insert(k, rec);
                proof {
                    let t = s0[k as int].1;
                    assert(self@ =~= s0.update(
                        k as int,
                        (id@, TaskView { events: t.events.push((stage@, status@, message@)), ..t }),
                    ));
                    assert(self@ =~= emitted(s0, id@, (stage@, status@, message@)));
                }
            },
            None => {},
        }
    }

    /// Marks the task `id` completed with its result (nothing happens for an
    /// unknown id).
    pub fn complete(&mut self, id: &str, result: String)
        requires
            registry_wf(old(self)@),
        ensures
            registry_wf(final(self)@),
            has_id(old(self)@, id@) ==> final(self)@ == completed(old(self)@, id@, result@),
            !has_id(old(self)@, id@) ==> final(self)@ == old(self)@,
    {
        match self.find(id) {
            Some(k) => {
                let ghost s0 = self@;
                let ghost rv = result@;
                let mut rec = self.tasks.remove(k);
                rec.status = TaskStatus::Completed;
                rec.result = Some(result);
                self.tasks.insert(k, rec);
                proof {
                    let t = s0[k as int].1;
                    assert(self@ =~= s0.update(
                        k as int,
                        (id@, TaskView { status: TaskStatus::Completed, result: Some(rv), ..t }),
                    ));
                    assert(self@ =~= completed(s0, id@, rv));
                }
            },
            None => {},
        }
    }
}

// ---------------------------------------------------------------------------
// The generate task: draft, compile, simulate, self-heal
// ---------------------------------------------------------------------------

/// Where a generate task stands.
#[derive(PartialEq, Eq, Structural, Clone, Copy, Debug)]
pub enum GeneratePhase {
    /// The next step is a fresh draft.
    Draft,
    /// A draft awaits the compiler.
    Compile,
    /// A build awaits the simulator.
    Simulate,
    /// The simulator confirmed a build.
    Verified,
    /// The attempt budget is spent.
    Halted,
}

/// A generate task's progress: the attempt in hand, the budget, the phase,
/// and the context the next draft is made from.
pub struct GenerateTask {
    pub attempt: u32,
    pub max_attempts: u32,
    pub phase: GeneratePhase,
    pub ctx: LoopContext,
}

#[verifier::ext_equal]
pub struct GenerateView {
    pub attempt: u32,
    pub max_attempts: u32,
    pub phase: GeneratePhase,
    pub ctx: ContextView,
}

impl View for GenerateTask {
    type V = GenerateView;

    open spec fn view(&self) -> GenerateView {
        GenerateView {
            attempt: self.attempt,
            max_attempts: self.max_attempts,
            phase: self.phase,
            ctx: self.ctx@,
        }
    }
}

/// What every generate task satisfies: the budget is never exceeded, a
/// fresh draft is only due while attempts remain, work in hand belongs to
/// an attempt, and a halted task has spent its whole budget.
pub open spec fn generate_wf(g: GenerateView) -> bool {
    &&& g.attempt <= g.max_attempts
    &&& g.ctx.attempt == g.attempt
    &&& g.phase == GeneratePhase::Draft ==> g.attempt < g.max_attempts
    &&& (g.phase == GeneratePhase::Compile || g.phase == GeneratePhase::Simulate || g.phase
        == GeneratePhase::Verified) ==> g.attempt >= 1
    &&& g.phase == GeneratePhase::Halted ==> g.attempt == g.max_attempts
}

/// The phase after a failure in attempt `attempt` of `max`.
pub open spec fn after_failure(attempt: u32, max: u32) -> GeneratePhase {
    if attempt >= max {
        GeneratePhase::Halted
    } else {
        GeneratePhase::Draft
    }
}

impl GenerateTask {
    /// A task for `goal` with `max_attempts` attempts (none at all halts it).
    pub fn new(goal: &str, max_attempts: u32) -> (r: GenerateTask)
        ensures
            generate_wf(r@),
            r@.attempt == 0,
            r@.max_attempts == max_attempts,
            r@.phase == (if max_attempts == 0 {
                GeneratePhase::Halted
            } else {
                GeneratePhase::Draft
            }),
            r@.ctx.goal == goal@,
            r@.ctx.compile_diagnostics.len() == 0,
            r@.ctx.sim_fault is None,
    {
        let ctx = LoopContext {
            goal: goal.to_owned(),
            attempt: 0,
            compile_diagnostics: Vec::new(),
            sim_fault: None,
        };
        let r = GenerateTask {
            attempt: 0,
            max_attempts,
            phase: if max_attempts == 0 {
                GeneratePhase::Halted
            } else {
                GeneratePhase::Draft
            },
            ctx,
        };
        assert(r@.ctx.compile_diagnostics =~= Seq::<DiagnosticView>::empty());
        r
    }

    /// Begins the next attempt: its draft goes to the compiler next.
    pub fn start_attempt(&mut self)
        requires
            generate_wf(old(self)@),
            old(self)@.phase == GeneratePhase::Draft,
        ensures
            generate_wf(final(self)@),
            final(self)@ == (GenerateView {
                attempt: (old(self)@.attempt + 1) as u32,
                phase: GeneratePhase::Compile,
                ctx: ContextView { attempt: (old(self)@.attempt + 1) as u32, ..old(self)@.ctx },
                ..old(self)@
            }),
    {
        self.attempt = self.attempt + 1;
        self.ctx.attempt = self.attempt;
        self.phase = GeneratePhase::Compile;
    }

    /// The compiler's verdict on the attempt's draft: a build goes to the
    /// simulator; a rejection hands its errors to the next draft, or halts
    /// the task when the budget is spent.
    pub fn compiled(&mut self, ok: bool, errors: Vec<Diagnostic>)
        requires
            generate_wf(old(self)@),
            old(self)@.phase == GeneratePhase::Compile,
        ensures
            generate_wf(final(self)@),
            ok ==> final(self)@ == (GenerateView { phase: GeneratePhase::Simulate, ..old(self)@ }),
            !ok ==> final(self)@ == (GenerateView {
                phase: after_failure(old(self)@.attempt, old(self)@.max_attempts),
                ctx: ContextView {
                    compile_diagnostics: diags_view(errors@),
                    sim_fault: None,
                    ..old(self)@.ctx
                },
                ..old(self)@
            }),
    {
        if ok {
            self.phase = GeneratePhase::Simulate;
        } else {
            self.ctx.compile_diagnostics = errors;
            self.ctx.sim_fault = None;
            self.phase = if self.attempt >= self.max_attempts {
                GeneratePhase::Halted
            } else {
                GeneratePhase::Draft
            };
        }
    }

    /// The simulator's verdict on the attempt's build: a pass verifies the
    /// task; a fault is handed to the next draft, or halts the task when the
    /// budget is spent.
    pub fn simulated(&mut self, ok: bool, fault: Option<String>)
        requires
            generate_wf(old(self)@),
            old(self)@.phase == GeneratePhase::Simulate,
        ensures
            generate_wf(final(self)@),
            ok ==> final(self)@ == (GenerateView { phase: GeneratePhase::Verified, ..old(self)@ }),
            !ok ==> final(self)@ == (GenerateView {
                phase: after_failure(old(self)@.attempt, old(self)@.max_attempts),
                ctx: ContextView {
                    compile_diagnostics: Seq::empty(),
                    sim_fault: fault.deep_view(),
                    ..old(self)@.ctx
                },
                ..old(self)@
            }),
    {
        if ok {
            self.phase = GeneratePhase::Verified;
        } else {
            self.ctx.compile_diagnostics = Vec::new();
            self.ctx.sim_fault = fault;
            self.phase = if self.attempt >= self.max_attempts {
                GeneratePhase::Halted
            } else {
                GeneratePhase::Draft
            };
            assert(diags_view(self.ctx.compile_diagnostics@) =~= Seq::<DiagnosticView>::empty());
        }
    }

    /// Whether the task needed more than one attempt.
    pub fn self_healed(&self) -> (b: bool)
        ensures
            b == (self@.attempt > 1),
    {
        self.attempt > 1
    }
}

/// What a workspace task ended as.
#[derive(PartialEq, Eq, Structural, Clone, Copy, Debug)]
pub enum TaskState {
    Verified,
    Built,
    Halted,
}

/// A saved-sources task verifies when it built, was asked to simulate, and
/// the simulation passed; it is only built when simulation was not asked
/// for; otherwise it halted.
pub open spec fn task_state_spec(built: bool, simulate: bool, sim_ok: bool) -> TaskState {
    if built && simulate && sim_ok {
        TaskState::Verified
    } else if built && !simulate {
        TaskState::Built
    } else {
        TaskState::Halted
    }
}

pub open spec fn task_state_name(s: TaskState) -> Seq<char> {
    match s {
        TaskState::Verified => "verified"@,
        TaskState::Built => "built"@,
        TaskState::Halted => "halted"@,
    }
}

impl TaskState {
    /// How a saved-sources task ended.
    pub fn of(built: bool, simulate: bool, sim_ok: bool) -> (r: TaskState)
        ensures
            r == task_state_spec(built, simulate, sim_ok),
    {
        if built && simulate && sim_ok {
            TaskState::Verified
        } else if built && !simulate {
            TaskState::Built
        } else {
            TaskState::Halted
        }
    }

    /// The state's name as the UI shows it.
    pub fn as_str(&self) -> (r: &'static str)
        ensures
            r@ == task_state_name(*self),
    {
        match self {
            TaskState::Verified => "verified",
            TaskState::Built => "built",
            TaskState::Halted => "halted",
        }
    }
}

/// The boundary a workspace task reports: the configured simulator checks
/// boot and UART text only, so a verified task claims exactly those and
/// names the GPIO assertion, analog and RF as not modeled; an unverified
/// task claims nothing.
pub open spec fn task_boundary_spec(verified: bool) -> BoundaryView {
    if verified {
        BoundaryView {
            verified: seq!["cpu_boot"@, "uart_tx"@],
            stubbed: Seq::empty(),
            not_modeled: seq!["gpio_toggle_assertion"@, "real_analog"@, "rf"@],
        }
    } else {
        BoundaryView { verified: Seq::empty(), stubbed: Seq::empty(), not_modeled: Seq::empty() }
    }
}

/// The boundary a workspace task reports.
pub fn task_boundary(verified: bool) -> (b: VerifiabilityBoundary)
    ensures
        b@ == task_boundary_spec(verified),
{
    if verified {
        let b = VerifiabilityBoundary {
            verified: vec!["cpu_boot".to_owned(), "uart_tx".to_owned()],
            stubbed: Vec::new(),
            not_modeled: vec![
                "gpio_toggle_assertion".to_owned(),
                "real_analog".to_owned(),
                "rf".to_owned(),
            ],
        };
        assert(b@ =~= task_boundary_spec(verified));
        b
    } else {
        let b = VerifiabilityBoundary::default();
        assert(b@ =~= task_boundary_spec(verified));
        b
    }
}

/// Who drafted the code, as provenance names it: the provider and model,
/// or the deterministic synthesis.
pub open spec fn draft_oracle_spec(used_llm: bool, provider: Seq<char>, model: Seq<char>) -> Seq<char> {
    if used_llm {
        provider + "/"@ + model
    } else {
        "grounded-synthesis"@
    }
}

/// Who drafted the code.
pub fn draft_oracle(used_llm: bool, provider: &str, model: &str) -> (r: String)
    ensures
        r@ == draft_oracle_spec(used_llm, provider@, model@),
{
    if used_llm {
        let mut v: Vec<char> = chars_of(provider);
        push_str(&mut v, "/");
        push_str(&mut v, model);
        string_of(&v)
    } else {
        "grounded-synthesis".to_owned()
    }
}

/// The progress message when an attempt starts drafting.
pub open spec fn drafting_message_spec(attempt: u32) -> Seq<char> {
    if attempt == 1 {
        "Drafting firmware with the model"@
    } else {
        "Self-healing: re-drafting from the compiler diagnostics"@
    }
}

/// The progress message when an attempt starts drafting.
pub fn drafting_message(attempt: u32) -> (r: &'static str)
    ensures
        r@ == drafting_message_spec(attempt),
{
    if attempt == 1 {
        "Drafting firmware with the model"
    } else {
        "Self-healing: re-drafting from the compiler diagnostics"
    }
}

/// The progress message when a draft is in hand.
pub open spec fn drafted_message_spec(used_llm: bool, oracle: Seq<char>, cites: nat, note: Seq<char>) -> Seq<
    char,
> {
    if used_llm {
        "Drafted by "@ + oracle + " \u{b7} grounded on "@ + dec_spec(cites) + " SVD facts"@
    } else {
        "Deterministic grounded synthesis ("@ + note + ")"@
    }
}

/// The progress message when a draft is in hand.
pub fn drafted_message(used_llm: bool, oracle: &str, cites: usize, note: &str) -> (r: String)
    ensures
        r@ == drafted_message_spec(used_llm, oracle@, cites as nat, note@),
{
    let mut v: Vec<char> = Vec::new();
    if used_llm {
        push_str(&mut v, "Drafted by ");
        push_str(&mut v, oracle);
        push_str(&mut v, " \u{b7} grounded on ");
        push_dec(&mut v, cites as u64);
        push_str(&mut v, " SVD facts");
    } else {
        push_str(&mut v, "Deterministic grounded synthesis (");
        push_str(&mut v, note);
        push_str(&mut v, ")");
    }
    assert(v@ =~= drafted_message_spec(used_llm, oracle@, cites as nat, note@));
    string_of(&v)
}

/// The compiler's errors as they are fed back to the model: only the
/// diagnostics of severity "error", without their raw text.
pub open spec fn feedback_spec(ds: Seq<DiagnosticView>) -> Seq<DiagnosticView> {
    errors_spec(ds).map_values(|d: DiagnosticView| DiagnosticView { raw: Seq::empty(), ..d })
}

/// The compiler's errors as they are fed back to the model.
pub fn error_diagnostics(ds: &Vec<Diagnostic>) -> (r: Vec<Diagnostic>)
    ensures
        diags_view(r@) == feedback_spec(diags_view(ds@)),
{
    let mut r: Vec<Diagnostic> = Vec::new();
    let mut i: usize = 0;
    let ghost all = diags_view(ds@);
    while i < ds.len()
        invariant
            i <= ds.len(),
            all == diags_view(ds@),
            diags_view(r@) == feedback_spec(all.subrange(0, i as int)),
        decreases ds.len() - i,
    {
        let d = &ds[i];
        let ghost pre = all.subrange(0, i as int);
        let ghost nxt = all.subrange(0, i + 1);
        assert(nxt.drop_last() =~= pre);
        assert(nxt.last() == d@);
        let ghost before = diags_view(r@);
        if str_eq(d.severity.as_str(), "error") {
            let c = Diagnostic {
                severity: "error".to_owned(),
                message: d.message.clone(),
                file: crate::oracle::dup_opt(&d.file),
                line: d.line,
                col: d.col,
                raw: String::new(),
            };
            r.push(c);
            assert(errors_spec(nxt) == errors_spec(pre).push(d@));
            assert(diags_view(r@) =~= before.push(DiagnosticView { raw: Seq::empty(), ..d@ }));
        } else {
            assert(errors_spec(nxt) == errors_spec(pre));
        }
        assert(diags_view(r@) =~= feedback_spec(nxt));
        i += 1;
    }
    assert(all.subrange(0, ds.len() as int) =~= all);
    r
}

// ---------------------------------------------------------------------------
// Workspace snapshots
// ---------------------------------------------------------------------------

/// Largest total size, in bytes, of a workspace snapshot.
pub const MAX_SNAPSHOT_BYTES: usize = 1048576;

/// The running size of a workspace snapshot as its files are read.
pub struct SnapshotBudget {
    pub total: u64,
}

impl SnapshotBudget {
    pub fn new() -> (r: SnapshotBudget)
        ensures
            r.total == 0,
    {
        SnapshotBudget { total: 0 }
    }

    /// Counts a file of `len` bytes: refused when the file is over the editor
    /// limit or the snapshot grows over its limit.
    pub fn add(&mut self, len: usize) -> (r: Result<(), String>)
        requires
            old(self).total <= MAX_SNAPSHOT_BYTES,
        ensures
            r is Ok <==> (len <= crate::desktop::MAX_EDIT_BYTES && old(self).total + len
                <= MAX_SNAPSHOT_BYTES),
            r is Ok ==> final(self).total == old(self).total + len,
            r matches Err(e) ==> e@ == "Workspace exceeds the 1 MiB source snapshot limit"@,
            final(self).total <= MAX_SNAPSHOT_BYTES,
    {
        if len > crate::desktop::MAX_EDIT_BYTES || (len as u64) > (MAX_SNAPSHOT_BYTES as u64)
            - self.total {
            return Err("Workspace exceeds the 1 MiB source snapshot limit".to_owned());
        }
        self.total = self.total + len as u64;
        Ok(())
    }
}

/// The workspace path a diagnostic's file names: the first workspace path
/// that the file (with forward slashes) ends with after a slash, or equals.
pub open spec fn workspace_match(file: Seq<char>, paths: Seq<Seq<char>>) -> Option<Seq<char>>
    decreases paths.len(),
{
    if paths.len() == 0 {
        None
    } else {
        let n = fwd_spec(file);
        if ends_with_spec(n, "/"@ + paths[0]) || n == paths[0] {
            Some(paths[0])
        } else {
            workspace_match(file, paths.drop_first())
        }
    }
}

/// Maps a build-directory file back to the workspace path it came from.
pub fn workspace_path_for(file: &str, paths: &Vec<String>) -> (r: Option<String>)
    ensures
        r.deep_view() == workspace_match(file@, strings_view(paths@)),
{
    let n = chars_of(fwd(file).as_str());
    let ghost ps = strings_view(paths@);
    let mut i: usize = 0;
    assert(ps.subrange(0, ps.len() as int) =~= ps);
    while i < paths.len()
        invariant
            i <= paths.len(),
            ps == strings_view(paths@),
            n@ == fwd_spec(file@),
            workspace_match(file@, ps) == workspace_match(
                file@,
                ps.subrange(i as int, ps.len() as int),
            ),
        decreases paths.len() - i,
    {
        let ghost rest = ps.subrange(i as int, ps.len() as int);
        assert(rest[0] == paths@[i as int]@);
        assert(rest.drop_first() =~= ps.subrange(i + 1, ps.len() as int));
        let mut tail: Vec<char> = Vec::new();
        tail.push('/');
        push_str(&mut tail, paths[i].as_str());
        proof {
            reveal_strlit("/");
            assert(tail@ =~= "/"@ + paths@[i as int]@);
        }
        let tail_s = string_of(&tail);
        if ends_with(&n, tail_s.as_str()) || chars_eq(&n, &chars_of(paths[i].as_str())) {
            return Some(paths[i].clone());
        }
        i += 1;
    }
    None
}

} // verus!
