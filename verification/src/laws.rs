//! Laws of the library. Those of the verification loop are proved over the
//! loop's decision function [`run_spec`], which [`crate::engine::run_loop`] is
//! proved to follow for the attempts its codegen and oracle calls made (and,
//! with the fixture oracles, over what those calls are specified to return);
//! the others are proved over the specifications the datasheet lookups, the
//! desktop host's rules and the task registry are proved to meet.

use vstd::prelude::*;
use crate::engine::{
    artifact_of, initial_context, next_context, oracle_trace, round_entries, round_made_by,
    run_from, run_spec, tier_spec, Codegen, ContextView, LoopRound, LoopState,
};
use crate::oracle::{CompileOracle, SimOracle};
use crate::provenance::{fingerprint, std_hash, EntryView};
use crate::fixtures::{
    entry_source, fixture_compile_spec, fixture_sim_spec, stm32_boundary_spec,
    FixtureCompileOracle, FixtureSimOracle,
};
use crate::gcc::{diags_of_lines, gcc_spec, line_diag, lines_spec, location_spec, nl_index, rfind_spec};
use crate::num::{dec_spec, parse_u32_spec};
use crate::grounded::{
    bit_of, blink_citations, blink_registers, fact_at, hex_prefixed, synth_source, SYNTH_BODY,
};
use crate::svd::{bit_range, child_text, field_bits_spec, num32};
use crate::xml::XmlNode;
use crate::mcp::{diagnostic_lines, user_prompt_spec};
use crate::oracle::{context_spec, DiagnosticView};
use crate::json::{
    escape_char_spec, escape_spec, hex4_value, join_spec, prepend_char, quote_spec, quoted_all,
    scan_items, scan_string, str_array_spec, unarray_spec, unquote_spec,
};
use crate::num::{digit_char, digit_val, hex_pad_spec, radix_spec};
use crate::oracle::errors_spec;
use crate::tiers::{tier_name, Tier};
use vstd::utf8::{decode_utf8, encode_utf8, encode_utf8_decode_utf8, encode_utf8_valid_utf8, valid_utf8};
use crate::desktop::workspace_file_spec;
use crate::http::{decode_from, percent_bytes};
use crate::query::{absolute, peripheral_fact};
use crate::model::{
    peripheral_index, register_index, DeviceModel, FieldModel, PeripheralModel, RegisterModel,
};
use crate::tasks::{
    completed, fresh_task, has_id, index_of, registered, registry_wf, some_running, RegistryView,
    TaskStatus, TaskView, MAX_TASKS,
};
use crate::text::{
    ascii_lower, contains_spec, eq_ignore_case_spec, find_spec, matches_at, strips, trim_by,
    trim_end_by, trim_spec, trim_start_by, Strip,
};
use crate::toolchain::{renode_outcome_spec, RenodeView};

verus! {

proof fn lemma_shape(goal: Seq<char>, max: nat, k: nat, ctx: ContextView, rounds: Seq<LoopRound>)
    requires
        1 <= k,
        max <= u32::MAX,
    ensures
        ({
            let run = run_from(goal, max, k, ctx, rounds);
            let o = run.outcome;
            &&& (o.state == LoopState::Verified || o.state == LoopState::Halted)
            &&& o.state == LoopState::Halted ==> o.tier is None
            &&& o.state == LoopState::Halted ==> o.artifact_path is None
                && o.observations.len() == 0
            &&& o.state == LoopState::Verified ==> o.tier is Some && o.boundary is Some
                && o.diagnostics.len() == 0
            &&& o.tier == Some(Tier::Verified) ==> o.state == LoopState::Verified
                && (o.boundary matches Some(b) && b.verified.len() > 0)
            &&& k <= max ==> k <= o.attempts <= max && run.contexts.len() == o.attempts - k + 1
            &&& k > max ==> o.attempts == 0 && run.contexts.len() == 0
            &&& forall|i: int|
                0 <= i < run.contexts.len() ==> #[trigger] run.contexts[i].attempt == k + i
            &&& forall|i: int| 0 <= i < run.contexts.len() ==> #[trigger] run.contexts[i].goal == ctx.goal
            &&& run.contexts.len() > 0 ==> run.contexts[0] == ContextView { attempt: k as u32, ..ctx }
            &&& forall|i: int|
                0 <= i < run.contexts.len() - 1 ==> #[trigger] run.contexts[i + 1] == ContextView {
                    attempt: (k + i + 1) as u32,
                    ..next_context(run.contexts[i], rounds[k - 1 + i])
                }
        }),
    decreases max + 1 - k,
{
    if k <= max {
        let r = rounds[k - 1];
        let ctx_k = ContextView { attempt: k as u32, ..ctx };
        if !(r.compile.ok && r.sim.ok) && k < max {
            let nctx = next_context(ctx_k, r);
            lemma_shape(goal, max, k + 1, nctx, rounds);
            let rest = run_from(goal, max, k + 1, nctx, rounds);
            let run = run_from(goal, max, k, ctx, rounds);
            assert(run.contexts == seq![ctx_k] + rest.contexts);
            assert forall|i: int| 0 <= i < run.contexts.len() implies #[trigger] run.contexts[i].attempt == k + i by {
                if i > 0 {
                    assert(run.contexts[i] == rest.contexts[i - 1]);
                }
            }
            assert forall|i: int| 0 <= i < run.contexts.len() implies #[trigger] run.contexts[i].goal == ctx.goal by {
                if i > 0 {
                    assert(run.contexts[i] == rest.contexts[i - 1]);
                }
            }
            assert forall|i: int| 0 <= i < run.contexts.len() - 1 implies #[trigger] run.contexts[i + 1] == ContextView {
                attempt: (k + i + 1) as u32,
                ..next_context(run.contexts[i], rounds[k - 1 + i])
            } by {
                assert(run.contexts[i + 1] == rest.contexts[i]);
                if i > 0 {
                    assert(run.contexts[i] == rest.contexts[i - 1]);
                    assert(rounds[k - 1 + i] == rounds[(k + 1) - 1 + (i - 1)]);
                    let j = i - 1;
                    assert(0 <= j < rest.contexts.len() - 1);
                    assert(rest.contexts[j + 1] == ContextView {
                        attempt: ((k + 1) + j + 1) as u32,
                        ..next_context(rest.contexts[j], rounds[(k + 1) - 1 + j])
                    });
                } else {
                    assert(run.contexts[0] == ctx_k);
                    assert(rest.contexts.len() > 0);
                    assert(rest.contexts[0] == ContextView { attempt: (k + 1) as u32, ..nctx });
                }
            }
        }
    }
}

/// A halted loop is never assigned a tier, and a verified one always carries
/// the boundary of what was exercised and no diagnostics; the loop ends in no
/// other state.
pub proof fn law_halted_has_no_tier(goal: Seq<char>, max: u32, rounds: Seq<LoopRound>)
    ensures
        ({
            let o = run_spec(goal, max as nat, rounds).outcome;
            &&& o.state == LoopState::Verified || o.state == LoopState::Halted
            &&& o.state == LoopState::Halted ==> o.tier is None
            &&& o.state == LoopState::Verified ==> o.tier is Some && o.boundary is Some
                && o.diagnostics.len() == 0
        }),
{
    lemma_shape(goal, max as nat, 1, initial_context(goal), rounds);
}

/// The VERIFIED tier is only ever assigned to a verified run whose simulation
/// actually exercised something.
pub proof fn law_verified_tier_needs_exercised_boundary(
    goal: Seq<char>,
    max: u32,
    rounds: Seq<LoopRound>,
)
    ensures
        ({
            let o = run_spec(goal, max as nat, rounds).outcome;
            o.tier == Some(Tier::Verified) ==> o.state == LoopState::Verified
                && (o.boundary matches Some(b) && b.verified.len() > 0)
        }),
{
    lemma_shape(goal, max as nat, 1, initial_context(goal), rounds);
}

proof fn lemma_verifying_round(goal: Seq<char>, max: nat, k: nat, ctx: ContextView, rounds: Seq<LoopRound>)
    requires
        1 <= k,
        max <= u32::MAX,
    ensures
        ({
            let o = run_from(goal, max, k, ctx, rounds).outcome;
            o.state == LoopState::Verified ==> {
                let a = o.attempts as int;
                &&& k <= a <= max
                &&& rounds[a - 1].compile.ok
                &&& rounds[a - 1].sim.ok
                &&& o.artifact_path == rounds[a - 1].compile.artifact_path
                &&& o.observations == rounds[a - 1].sim.observations
                &&& o.tier == Some(tier_spec(rounds[a - 1].compile, rounds[a - 1].sim))
                &&& o.boundary == Some(rounds[a - 1].sim.boundary)
            }
        }),
    decreases max + 1 - k,
{
    if k <= max {
        let r = rounds[k - 1];
        if !(r.compile.ok && r.sim.ok) && k < max {
            let ctx_k = ContextView { attempt: k as u32, ..ctx };
            lemma_verifying_round(goal, max, k + 1, next_context(ctx_k, r), rounds);
        }
    }
}

/// Only the oracles advance a draft to VERIFIED: in a verified run, the last
/// attempt's build succeeded and its simulation passed, and the outcome
/// reports that build's artifact and that simulation's observations.
pub proof fn law_only_the_oracles_verify(goal: Seq<char>, max: u32, rounds: Seq<LoopRound>)
    ensures
        ({
            let o = run_spec(goal, max as nat, rounds).outcome;
            o.state == LoopState::Verified ==> {
                let a = o.attempts as int;
                &&& 1 <= a <= max
                &&& rounds[a - 1].compile.ok
                &&& rounds[a - 1].sim.ok
                &&& o.artifact_path == rounds[a - 1].compile.artifact_path
                &&& o.observations == rounds[a - 1].sim.observations
            }
        }),
{
    lemma_verifying_round(goal, max as nat, 1, initial_context(goal), rounds);
}

proof fn lemma_halting_round(goal: Seq<char>, max: nat, k: nat, ctx: ContextView, rounds: Seq<LoopRound>)
    requires
        1 <= k <= max,
        max <= u32::MAX,
    ensures
        ({
            let o = run_from(goal, max, k, ctx, rounds).outcome;
            let r = rounds[max - 1];
            o.state == LoopState::Halted ==> {
                &&& o.attempts == max
                &&& !(r.compile.ok && r.sim.ok)
                &&& !r.compile.ok ==> o.diagnostics == errors_spec(r.compile.diagnostics)
                &&& r.compile.ok ==> o.boundary == Some(r.sim.boundary)
                &&& o.artifact_path is None
            }
        }),
    decreases max + 1 - k,
{
    let r = rounds[k - 1];
    if !(r.compile.ok && r.sim.ok) && k < max {
        let ctx_k = ContextView { attempt: k as u32, ..ctx };
        lemma_halting_round(goal, max, k + 1, next_context(ctx_k, r), rounds);
    }
}

/// The loop halts honestly: only once the whole budget is spent, only when
/// the last attempt failed, and with that failure: the build's errors, or the
/// boundary of the simulation that did not pass, and never an artifact.
pub proof fn law_halting_is_honest(goal: Seq<char>, max: u32, rounds: Seq<LoopRound>)
    requires
        max >= 1,
    ensures
        ({
            let o = run_spec(goal, max as nat, rounds).outcome;
            let r = rounds[max - 1];
            o.state == LoopState::Halted ==> {
                &&& o.attempts == max
                &&& !(r.compile.ok && r.sim.ok)
                &&& !r.compile.ok ==> o.diagnostics == errors_spec(r.compile.diagnostics)
                &&& r.compile.ok ==> o.boundary == Some(r.sim.boundary)
                &&& o.artifact_path is None
            }
        }),
{
    lemma_halting_round(goal, max as nat, 1, initial_context(goal), rounds);
}

/// The loop makes between one and `max` attempts (none when `max` is zero),
/// and hands codegen one context per attempt, numbered from one.
pub proof fn law_attempts_are_bounded(goal: Seq<char>, max: u32, rounds: Seq<LoopRound>)
    ensures
        ({
            let run = run_spec(goal, max as nat, rounds);
            &&& max >= 1 ==> 1 <= run.outcome.attempts <= max
            &&& max == 0 ==> run.outcome.attempts == 0 && run.outcome.state == LoopState::Halted
            &&& run.contexts.len() == run.outcome.attempts
            &&& forall|i: int|
                0 <= i < run.contexts.len() ==> #[trigger] run.contexts[i].attempt == i + 1
        }),
{
    lemma_shape(goal, max as nat, 1, initial_context(goal), rounds);
}

/// Self-healing: the first draft is asked for with no diagnostics; every retry
/// after a failed build is handed exactly that build's errors, and every retry
/// after a failed simulation is handed that simulation's fault.
pub proof fn law_retry_sees_previous_failure(goal: Seq<char>, max: u32, rounds: Seq<LoopRound>)
    ensures
        ({
            let run = run_spec(goal, max as nat, rounds);
            &&& run.contexts.len() > 0 ==> run.contexts[0].compile_diagnostics.len() == 0
                && run.contexts[0].sim_fault is None && run.contexts[0].goal == goal
            &&& forall|i: int|
                0 <= i < run.contexts.len() - 1 ==> (!rounds[i].compile.ok ==> (
                #[trigger] run.contexts[i + 1]).compile_diagnostics == errors_spec(
                    rounds[i].compile.diagnostics,
                ))
            &&& forall|i: int|
                0 <= i < run.contexts.len() - 1 ==> (rounds[i].compile.ok ==> (
                #[trigger] run.contexts[i + 1]).sim_fault == rounds[i].sim.fault)
        }),
{
    lemma_shape(goal, max as nat, 1, initial_context(goal), rounds);
    let run = run_spec(goal, max as nat, rounds);
    assert forall|i: int| 0 <= i < run.contexts.len() - 1 && !rounds[i].compile.ok implies (
    #[trigger] run.contexts[i + 1]).compile_diagnostics == errors_spec(
        rounds[i].compile.diagnostics,
    ) by {
        assert(rounds[1 - 1 + i] == rounds[i]);
    }
    assert forall|i: int| 0 <= i < run.contexts.len() - 1 && rounds[i].compile.ok implies (
    #[trigger] run.contexts[i + 1]).sim_fault == rounds[i].sim.fault by {
        assert(rounds[1 - 1 + i] == rounds[i]);
    }
}

/// How many provenance entries one attempt appends: a `ground` record when the
/// draft carries citations, always a `compile` record, a `simulate` record when
/// the build passed, and a `verify` record when the simulation passed too.
pub open spec fn round_count(r: LoopRound) -> nat {
    (if r.draft.citations.len() > 0 {
        1nat
    } else {
        0nat
    }) + 1 + (if r.compile.ok {
        1 + (if r.sim.ok {
            1nat
        } else {
            0nat
        })
    } else {
        0nat
    })
}

/// The entries appended by attempts `k..=last`.
pub open spec fn count_from(rounds: Seq<LoopRound>, k: nat, last: nat) -> nat
    decreases last + 1 - k,
{
    if k == 0 || k > last {
        0
    } else {
        round_count(rounds[k - 1]) + count_from(rounds, k + 1, last)
    }
}

proof fn lemma_count(goal: Seq<char>, max: nat, k: nat, ctx: ContextView, rounds: Seq<LoopRound>)
    requires
        1 <= k,
        max <= u32::MAX,
    ensures
        ({
            let run = run_from(goal, max, k, ctx, rounds);
            run.entries.len() == count_from(rounds, k, run.outcome.attempts as nat)
        }),
    decreases max + 1 - k,
{
    lemma_shape(goal, max, k, ctx, rounds);
    if k <= max {
        let r = rounds[k - 1];
        let ctx_k = ContextView { attempt: k as u32, ..ctx };
        reveal(crate::engine::ground_entry);
        let es = crate::engine::round_entries(goal, k, r);
        assert(es.len() == round_count(r));
        let run = run_from(goal, max, k, ctx, rounds);
        if !(r.compile.ok && r.sim.ok) && k < max {
            let nctx = next_context(ctx_k, r);
            lemma_count(goal, max, k + 1, nctx, rounds);
        } else {
            assert(run.outcome.attempts == k);
            assert(count_from(rounds, k + 1, k as nat) == 0);
        }
    }
}

/// The outcome reports the last attempt: a tier exactly when the run is
/// verified, and then the tier that `assign_tier` gives that attempt's build
/// and simulation, that simulation's boundary and no diagnostics; a halted
/// run reports no artifact and no observations.
pub proof fn law_outcome_reports_the_last_attempt(goal: Seq<char>, max: u32, rounds: Seq<LoopRound>)
    ensures
        ({
            let o = run_spec(goal, max as nat, rounds).outcome;
            let a = o.attempts as int;
            &&& (o.tier is Some <==> o.state == LoopState::Verified)
            &&& o.state == LoopState::Verified ==> {
                &&& rounds[a - 1].compile.ok && rounds[a - 1].sim.ok
                &&& o.tier == Some(tier_spec(rounds[a - 1].compile, rounds[a - 1].sim))
                &&& o.boundary == Some(rounds[a - 1].sim.boundary)
                &&& o.diagnostics.len() == 0
            }
            &&& o.state == LoopState::Halted ==> o.artifact_path is None && o.observations.len()
                == 0
        }),
{
    lemma_shape(goal, max as nat, 1, initial_context(goal), rounds);
    lemma_verifying_round(goal, max as nat, 1, initial_context(goal), rounds);
}

/// One call of each kind per attempt: a run of `n` attempts asked the codegen
/// `n` times, the `k`-th time (from one) with the goal and attempt number `k`,
/// had each of those drafts built once, and simulated exactly the builds
/// that succeeded, on their artifact and the draft's target. With a budget
/// of at least one, it makes between one and the whole budget of attempts,
/// and halts only when the budget is spent; with none, it halts at once and
/// records nothing.
pub proof fn law_one_call_of_each_kind_per_attempt<G: Codegen, C: CompileOracle, S: SimOracle>(
    goal: Seq<char>,
    max: u32,
    first: G,
    compile_oracle: C,
    sim_oracle: S,
    rounds: Seq<LoopRound>,
    drafters: Seq<G>,
)
    requires
        oracle_trace(
            first,
            compile_oracle,
            sim_oracle,
            run_spec(goal, max as nat, rounds).contexts,
            rounds,
            drafters,
        ),
    ensures
        ({
            let run = run_spec(goal, max as nat, rounds);
            let n = run.outcome.attempts as int;
            &&& rounds.len() == n && drafters.len() == n && run.contexts.len() == n
            &&& forall|k: int|
                0 <= k < n ==> {
                    &&& (#[trigger] run.contexts[k]).goal == goal
                    &&& run.contexts[k].attempt == k + 1
                    &&& drafters[k].drafts(run.contexts[k], rounds[k].draft)
                    &&& compile_oracle.compiles(rounds[k].draft, rounds[k].compile)
                    &&& rounds[k].compile.ok ==> sim_oracle.simulates(
                        artifact_of(rounds[k].compile),
                        rounds[k].draft.target,
                        rounds[k].sim,
                    )
                }
            &&& max >= 1 ==> 1 <= n <= max
            &&& run.outcome.state == LoopState::Halted ==> n == max
            &&& max == 0 ==> run.outcome.state == LoopState::Halted && run.entries.len() == 0
                && run.outcome.citations.len() == 0
        }),
{
    lemma_shape(goal, max as nat, 1, initial_context(goal), rounds);
    if max >= 1 {
        lemma_halting_round(goal, max as nat, 1, initial_context(goal), rounds);
    }
    let run = run_spec(goal, max as nat, rounds);
    assert forall|k: int| 0 <= k < run.outcome.attempts as int implies {
        &&& (#[trigger] run.contexts[k]).goal == goal
        &&& run.contexts[k].attempt == k + 1
        &&& drafters[k].drafts(run.contexts[k], rounds[k].draft)
        &&& compile_oracle.compiles(rounds[k].draft, rounds[k].compile)
        &&& rounds[k].compile.ok ==> sim_oracle.simulates(
            artifact_of(rounds[k].compile),
            rounds[k].draft.target,
            rounds[k].sim,
        )
    } by {
        assert(round_made_by(drafters[k], compile_oracle, sim_oracle, run.contexts[k], rounds[k]));
    }
}

/// The entries appended by attempts `k..=last`, attempt by attempt.
pub open spec fn entries_from(goal: Seq<char>, rounds: Seq<LoopRound>, k: nat, last: nat) -> Seq<
    EntryView,
>
    decreases last + 1 - k,
{
    if k == 0 || k > last {
        Seq::empty()
    } else {
        round_entries(goal, k, rounds[k - 1]) + entries_from(goal, rounds, k + 1, last)
    }
}

/// The kinds of record one attempt appends, in order.
pub open spec fn round_tools(r: LoopRound) -> Seq<Seq<char>> {
    (if r.draft.citations.len() > 0 {
        seq!["ground"@]
    } else {
        Seq::empty()
    }) + seq!["compile"@] + (if r.compile.ok {
        seq!["simulate"@] + (if r.sim.ok {
            seq!["verify"@]
        } else {
            Seq::empty()
        })
    } else {
        Seq::empty()
    })
}

pub open spec fn tools_of(es: Seq<EntryView>) -> Seq<Seq<char>> {
    es.map_values(|e: EntryView| e.tool)
}

proof fn lemma_entries_from(goal: Seq<char>, max: nat, k: nat, ctx: ContextView, rounds: Seq<LoopRound>)
    requires
        1 <= k,
        max <= u32::MAX,
    ensures
        ({
            let run = run_from(goal, max, k, ctx, rounds);
            run.entries == entries_from(goal, rounds, k, run.outcome.attempts as nat)
        }),
    decreases max + 1 - k,
{
    lemma_shape(goal, max, k, ctx, rounds);
    if k <= max {
        let r = rounds[k - 1];
        let ctx_k = ContextView { attempt: k as u32, ..ctx };
        let run = run_from(goal, max, k, ctx, rounds);
        if !(r.compile.ok && r.sim.ok) && k < max {
            let nctx = next_context(ctx_k, r);
            lemma_entries_from(goal, max, k + 1, nctx, rounds);
        } else {
            assert(run.outcome.attempts == k);
            assert(entries_from(goal, rounds, k + 1, k as nat) == Seq::<EntryView>::empty());
            assert(run.entries =~= round_entries(goal, k, r) + Seq::<EntryView>::empty());
        }
    }
}

/// Provenance is appended in the order of the actions: attempt after attempt,
/// each a `ground` record exactly when its draft carries citations, then its
/// `compile` record, then a `simulate` record exactly when the build
/// succeeded, then a `verify` record, by the user and with the assigned tier,
/// exactly when the simulation passed too.
pub proof fn law_provenance_in_order(goal: Seq<char>, max: u32, rounds: Seq<LoopRound>, k: nat)
    requires
        1 <= k <= run_spec(goal, max as nat, rounds).outcome.attempts,
    ensures
        run_spec(goal, max as nat, rounds).entries == entries_from(
            goal,
            rounds,
            1,
            run_spec(goal, max as nat, rounds).outcome.attempts as nat,
        ),
        tools_of(round_entries(goal, k, rounds[k - 1])) == round_tools(rounds[k - 1]),
        rounds[k - 1].compile.ok && rounds[k - 1].sim.ok ==> ({
            let v = round_entries(goal, k, rounds[k - 1]).last();
            &&& v.actor == "user"@
            &&& v.tier == Some(tier_name(tier_spec(rounds[k - 1].compile, rounds[k - 1].sim)))
        }),
{
    lemma_entries_from(goal, max as nat, 1, initial_context(goal), rounds);
    let r = rounds[k - 1];
    reveal(crate::engine::ground_entry);
    reveal(crate::engine::compile_entry);
    reveal(crate::engine::sim_entry);
    reveal(crate::engine::verify_entry);
    assert(tools_of(round_entries(goal, k, r)) =~= round_tools(r));
}

/// Provenance is appended per action: the entries of a run are exactly one
/// `compile` record per attempt, plus a `ground` record for every cited draft,
/// a `simulate` record for every passing build and a `verify` record for a
/// passing simulation.
pub proof fn law_provenance_per_action(goal: Seq<char>, max: u32, rounds: Seq<LoopRound>)
    ensures
        ({
            let run = run_spec(goal, max as nat, rounds);
            run.entries.len() == count_from(rounds, 1, run.outcome.attempts as nat)
        }),
{
    lemma_count(goal, max as nat, 1, initial_context(goal), rounds);
}

} // verus!

verus! {

// ---------------------------------------------------------------------------
// Datasheet lookups
// ---------------------------------------------------------------------------

/// With the fixture oracles, a run whose first draft's entry file holds no
/// bug marker is verified in that first attempt, with the STM32 boundary and
/// that draft's citations.
pub proof fn law_fixture_clean_draft_verifies_at_once<G: Codegen>(
    goal: Seq<char>,
    max: u32,
    first: G,
    rounds: Seq<LoopRound>,
    drafters: Seq<G>,
)
    requires
        max >= 1,
        oracle_trace(
            first,
            FixtureCompileOracle,
            FixtureSimOracle,
            run_spec(goal, max as nat, rounds).contexts,
            rounds,
            drafters,
        ),
        !contains_spec(entry_source(rounds[0].draft), "/* BUG */"@),
    ensures
        ({
            let o = run_spec(goal, max as nat, rounds).outcome;
            &&& o.state == LoopState::Verified
            &&& o.attempts == 1
            &&& o.tier == Some(Tier::Verified)
            &&& o.boundary == Some(stm32_boundary_spec())
            &&& o.citations == rounds[0].draft.citations
        }),
{
    law_attempts_are_bounded(goal, max, rounds);
    let r = rounds[0];
    assert(round_made_by(drafters[0], FixtureCompileOracle, FixtureSimOracle, run_spec(goal, max as nat, rounds).contexts[0], r));
    assert(r.compile == fixture_compile_spec(r.draft));
    assert(r.sim == fixture_sim_spec());
    assert(rounds[1 - 1] == r);
}

/// With the fixture oracles, a run in which every draft's entry file holds the
/// bug marker halts once the whole budget is spent, with the last build's
/// errors and no artifact, and is never assigned a tier.
pub proof fn law_fixture_persistent_bug_halts<G: Codegen>(
    goal: Seq<char>,
    max: u32,
    first: G,
    rounds: Seq<LoopRound>,
    drafters: Seq<G>,
)
    requires
        max >= 1,
        oracle_trace(
            first,
            FixtureCompileOracle,
            FixtureSimOracle,
            run_spec(goal, max as nat, rounds).contexts,
            rounds,
            drafters,
        ),
        forall|k: int|
            0 <= k < rounds.len() ==> contains_spec(
                entry_source(#[trigger] rounds[k].draft),
                "/* BUG */"@,
            ),
    ensures
        ({
            let o = run_spec(goal, max as nat, rounds).outcome;
            let last = rounds[max - 1];
            &&& o.state == LoopState::Halted
            &&& o.attempts == max
            &&& o.tier is None
            &&& !last.compile.ok
            &&& o.diagnostics == errors_spec(last.compile.diagnostics)
            &&& o.artifact_path is None
        }),
{
    law_attempts_are_bounded(goal, max, rounds);
    law_only_the_oracles_verify(goal, max, rounds);
    law_halting_is_honest(goal, max, rounds);
    law_halted_has_no_tier(goal, max, rounds);
    let run = run_spec(goal, max as nat, rounds);
    let a = run.outcome.attempts as int;
    let r = rounds[a - 1];
    assert(round_made_by(drafters[a - 1], FixtureCompileOracle, FixtureSimOracle, run.contexts[a - 1], r));
    assert(contains_spec(entry_source(r.draft), "/* BUG */"@));
    assert(!r.compile.ok);
}

/// With the fixture oracles, a run whose first draft holds the bug marker and
/// whose second draft does not is verified in the second attempt, given a
/// budget of at least two; that second draft was asked for with the first
/// build's errors.
pub proof fn law_fixture_heals_on_retry<G: Codegen>(
    goal: Seq<char>,
    max: u32,
    first: G,
    rounds: Seq<LoopRound>,
    drafters: Seq<G>,
)
    requires
        max >= 2,
        oracle_trace(
            first,
            FixtureCompileOracle,
            FixtureSimOracle,
            run_spec(goal, max as nat, rounds).contexts,
            rounds,
            drafters,
        ),
        contains_spec(entry_source(rounds[0].draft), "/* BUG */"@),
        !contains_spec(entry_source(rounds[1].draft), "/* BUG */"@),
    ensures
        ({
            let run = run_spec(goal, max as nat, rounds);
            &&& run.outcome.state == LoopState::Verified
            &&& run.outcome.attempts == 2
            &&& run.outcome.tier == Some(Tier::Verified)
            &&& run.outcome.diagnostics.len() == 0
            &&& run.contexts[1].compile_diagnostics == errors_spec(
                rounds[0].compile.diagnostics,
            )
        }),
{
    law_attempts_are_bounded(goal, max, rounds);
    law_retry_sees_previous_failure(goal, max, rounds);
    let run = run_spec(goal, max as nat, rounds);
    let r0 = rounds[0];
    assert(round_made_by(drafters[0], FixtureCompileOracle, FixtureSimOracle, run.contexts[0], r0));
    assert(!r0.compile.ok);
    assert(rounds[1 - 1] == r0);
    let ctx1 = ContextView { attempt: 1u32, ..initial_context(goal) };
    let rest = run_from(goal, max as nat, 2, next_context(ctx1, r0), rounds);
    assert(run.contexts == seq![ctx1] + rest.contexts);
    assert(rest.contexts.len() >= 1);
    assert(run.contexts.len() >= 2);
    let r1 = rounds[1];
    assert(round_made_by(drafters[1], FixtureCompileOracle, FixtureSimOracle, run.contexts[1], r1));
    assert(r1.compile.ok && r1.sim.ok);
    assert(rounds[2 - 1] == r1);
}

proof fn lemma_nl_index_at_most(s: Seq<char>, i: int)
    requires
        0 <= i < s.len(),
        s[i] == '\n',
    ensures
        nl_index(s) <= i,
    decreases s.len(),
{
    if s[0] != '\n' {
        assert(s.drop_first()[i - 1] == s[i]);
        lemma_nl_index_at_most(s.drop_first(), i - 1);
    }
}

proof fn lemma_nl_index_concat(a: Seq<char>, b: Seq<char>)
    requires
        nl_index(a) < a.len(),
    ensures
        nl_index(a + b) == nl_index(a),
    decreases a.len(),
{
    assert((a + b)[0] == a[0]);
    if a[0] != '\n' {
        assert((a + b).drop_first() =~= a.drop_first() + b);
        lemma_nl_index_concat(a.drop_first(), b);
    }
}

proof fn lemma_lines_concat(a: Seq<char>, b: Seq<char>)
    requires
        a.len() == 0 || a.last() == '\n',
    ensures
        lines_spec(a + b) == lines_spec(a) + lines_spec(b),
    decreases a.len(),
{
    if a.len() == 0 {
        assert(a + b =~= b);
        assert(lines_spec(a) + lines_spec(b) =~= lines_spec(b));
    } else {
        lemma_nl_index_at_most(a, a.len() - 1);
        lemma_nl_index_concat(a, b);
        let j = nl_index(a) as int;
        let ab = a + b;
        let rest = a.subrange(j + 1, a.len() as int);
        assert(ab.subrange(0, j) =~= a.subrange(0, j));
        assert(ab.subrange(j + 1, ab.len() as int) =~= rest + b);
        if rest.len() > 0 {
            assert(rest.last() == a.last());
        }
        lemma_lines_concat(rest, b);
        assert(lines_spec(ab) =~= lines_spec(a) + lines_spec(b));
    }
}

proof fn lemma_diags_concat(x: Seq<Seq<char>>, y: Seq<Seq<char>>)
    ensures
        diags_of_lines(x + y) == diags_of_lines(x) + diags_of_lines(y),
    decreases x.len(),
{
    if x.len() == 0 {
        assert(x + y =~= y);
        assert(diags_of_lines(x) + diags_of_lines(y) =~= diags_of_lines(y));
    } else {
        assert((x + y)[0] == x[0]);
        assert((x + y).drop_first() =~= x.drop_first() + y);
        lemma_diags_concat(x.drop_first(), y);
        assert(diags_of_lines(x + y) =~= diags_of_lines(x) + diags_of_lines(y));
    }
}

/// Compiler output is read line by line: the error output of two runs, the
/// first ending in a line break, holds the diagnostics of the first followed
/// by those of the second.
pub proof fn law_gcc_diagnostics_concatenate(a: Seq<char>, b: Seq<char>)
    requires
        a.len() == 0 || a.last() == '\n',
    ensures
        gcc_spec(a + b) == gcc_spec(a) + gcc_spec(b),
{
    lemma_lines_concat(a, b);
    lemma_diags_concat(lines_spec(a), lines_spec(b));
}

/// JSON escaping works character by character: escaping a concatenation
/// escapes each part, and the result is enclosed in quotes by `quote`.
pub proof fn law_escape_concatenates(a: Seq<char>, b: Seq<char>)
    ensures
        escape_spec(a + b) == escape_spec(a) + escape_spec(b),
        quote_spec(a + b) == seq!['"'] + escape_spec(a) + escape_spec(b) + seq!['"'],
    decreases b.len(),
{
    if b.len() == 0 {
        assert(a + b =~= a);
        assert(escape_spec(a) + escape_spec(b) =~= escape_spec(a));
    } else {
        assert((a + b).drop_last() =~= a + b.drop_last());
        assert((a + b).last() == b.last());
        law_escape_concatenates(a, b.drop_last());
        assert(escape_spec(a + b) =~= escape_spec(a) + escape_spec(b));
    }
}

proof fn lemma_digit_round_trip(d: nat)
    requires
        d < 16,
    ensures
        digit_val(digit_char(d), 16) == Some(d),
{
}

proof fn lemma_hex_pad_small(n: nat)
    requires
        n < 32,
    ensures
        hex_pad_spec(n, 4) == seq!['0', '0', digit_char(n / 16), digit_char(n % 16)],
{
    if n < 16 {
        assert(radix_spec(n, 16) == seq![digit_char(n)]);
        assert(digit_char(0) == '0');
        assert(hex_pad_spec(n, 4) =~= seq!['0', '0', digit_char(n / 16), digit_char(n % 16)]);
    } else {
        assert(n / 16 == 1);
        assert(radix_spec(1, 16) == seq![digit_char(1)]);
        assert(radix_spec(n, 16) =~= seq![digit_char(1), digit_char(n % 16)]);
        assert(hex_pad_spec(n, 4) =~= seq!['0', '0', digit_char(n / 16), digit_char(n % 16)]);
    }
}

proof fn lemma_escape_single(c: char)
    ensures
        escape_spec(seq![c]) == escape_char_spec(c),
{
    assert(seq![c].drop_last() =~= Seq::<char>::empty());
    assert(seq![c].last() == c);
    assert(escape_spec(Seq::<char>::empty()) == Seq::<char>::empty());
    assert(Seq::<char>::empty() + escape_char_spec(c) =~= escape_char_spec(c));
}

proof fn lemma_scan_unit(c: char, u: Seq<char>)
    ensures
        scan_string(escape_char_spec(c) + u) == prepend_char(c, scan_string(u)),
{
    let t = escape_char_spec(c) + u;
    if c == '"' || c == '\\' || c == '\n' || c == '\r' || c == '\t' {
        assert(t[0] == '\\');
        assert(t.subrange(2, t.len() as int) =~= u);
    } else if (c as u32) < 0x20 {
        let n = c as nat;
        lemma_hex_pad_small(n);
        lemma_digit_round_trip(n / 16);
        lemma_digit_round_trip(n % 16);
        lemma_digit_round_trip(0);
        assert(digit_char(0) == '0');
        assert(t[0] == '\\');
        assert(t[1] == 'u');
        assert(t.subrange(2, 6) =~= seq!['0', '0', digit_char(n / 16), digit_char(n % 16)]);
        assert(hex4_value(t.subrange(2, 6)) == Some(n));
        assert((n as char) == c);
        assert(t.subrange(6, t.len() as int) =~= u);
    } else {
        assert(t[0] == c);
        assert(t.drop_first() =~= u);
    }
}

proof fn lemma_scan_escaped(s: Seq<char>, tail: Seq<char>)
    ensures
        scan_string(escape_spec(s) + seq!['"'] + tail) == Some((s, tail)),
    decreases s.len(),
{
    if s.len() == 0 {
        let t = escape_spec(s) + seq!['"'] + tail;
        assert(t =~= seq!['"'] + tail);
        assert(t.drop_first() =~= tail);
    } else {
        let c = s[0];
        let rest = s.drop_first();
        assert(s =~= seq![c] + rest);
        law_escape_concatenates(seq![c], rest);
        lemma_escape_single(c);
        let u = escape_spec(rest) + seq!['"'] + tail;
        assert(escape_spec(s) + seq!['"'] + tail =~= escape_char_spec(c) + u);
        lemma_scan_unit(c, u);
        lemma_scan_escaped(rest, tail);
    }
}

/// A character that JSON strings hold as it is.
pub open spec fn plain_char(c: char) -> bool {
    c != '"' && c != '\\' && (c as u32) >= 0x20
}

proof fn lemma_escape_char_shape(c: char)
    ensures
        escape_char_spec(c).len() >= 1,
        plain_char(c) ==> escape_char_spec(c) == seq![c],
        !plain_char(c) ==> escape_char_spec(c).len() >= 2,
        forall|i: int|
            0 <= i < escape_char_spec(c).len() ==> (#[trigger] escape_char_spec(c)[i] as u32) >= 0x20,
{
    if !plain_char(c) && !(c == '"' || c == '\\' || c == '\n' || c == '\r' || c == '\t') {
        let n = c as nat;
        lemma_hex_pad_small(n);
        let e = escape_char_spec(c);
        assert(e =~= seq!['\\', 'u', '0', '0', digit_char(n / 16), digit_char(n % 16)]);
        assert forall|i: int| 0 <= i < e.len() implies (#[trigger] e[i] as u32) >= 0x20 by {
            if i >= 4 {
                assert(e[i] == digit_char(n / 16) || e[i] == digit_char(n % 16));
            }
        }
    }
}

proof fn lemma_escape_shape(s: Seq<char>)
    ensures
        escape_spec(s).len() >= s.len(),
        (forall|i: int| 0 <= i < s.len() ==> plain_char(#[trigger] s[i])) ==> escape_spec(s) == s,
        (exists|i: int| 0 <= i < s.len() && !plain_char(#[trigger] s[i])) ==> escape_spec(s).len()
            > s.len(),
        forall|i: int| 0 <= i < escape_spec(s).len() ==> (#[trigger] escape_spec(s)[i] as u32) >= 0x20,
    decreases s.len(),
{
    if s.len() > 0 {
        let init = s.drop_last();
        let c = s.last();
        lemma_escape_shape(init);
        lemma_escape_char_shape(c);
        let e = escape_spec(s);
        let ei = escape_spec(init);
        let ec = escape_char_spec(c);
        assert(e == ei + ec);
        if forall|i: int| 0 <= i < s.len() ==> plain_char(#[trigger] s[i]) {
            assert forall|i: int| 0 <= i < init.len() implies plain_char(#[trigger] init[i]) by {
                assert(init[i] == s[i]);
            }
            assert(plain_char(s[s.len() - 1]));
            assert(e =~= s);
        }
        if exists|i: int| 0 <= i < s.len() && !plain_char(#[trigger] s[i]) {
            let i = choose|i: int| 0 <= i < s.len() && !plain_char(#[trigger] s[i]);
            if i < s.len() - 1 {
                assert(init[i] == s[i]);
            }
        }
        assert forall|i: int| 0 <= i < e.len() implies (#[trigger] e[i] as u32) >= 0x20 by {
            if i < ei.len() {
                assert(e[i] == ei[i]);
            } else {
                assert(e[i] == ec[i - ei.len()]);
            }
        }
    }
}

/// Escaping leaves plain text alone and nothing else: `escape(s) == s`
/// exactly when `s` holds no `"`, no `\` and no character below U+0020, and
/// every character it writes is at least U+0020.
pub proof fn law_escape_changes_only_what_it_must(s: Seq<char>)
    ensures
        escape_spec(s) == s <==> (forall|i: int| 0 <= i < s.len() ==> plain_char(#[trigger] s[i])),
        forall|i: int| 0 <= i < escape_spec(s).len() ==> (#[trigger] escape_spec(s)[i] as u32) >= 0x20,
{
    lemma_escape_shape(s);
}

/// Quoting loses nothing: reading back the JSON string literal that `quote`
/// writes gives the original text.
pub proof fn law_quote_reads_back(s: Seq<char>)
    ensures
        unquote_spec(quote_spec(s)) == Some(s),
{
    let t = quote_spec(s);
    assert(t.drop_first() =~= escape_spec(s) + seq!['"'] + Seq::<char>::empty());
    lemma_scan_escaped(s, Seq::empty());
}

proof fn lemma_join_first(parts: Seq<Seq<char>>, sep: Seq<char>)
    requires
        parts.len() >= 2,
    ensures
        join_spec(parts, sep) == parts[0] + sep + join_spec(parts.drop_first(), sep),
    decreases parts.len(),
{
    if parts.len() == 2 {
        assert(parts.drop_last().len() == 1);
        assert(parts.drop_first().len() == 1);
        assert(join_spec(parts.drop_last(), sep) == parts[0]);
        assert(join_spec(parts.drop_first(), sep) == parts[1]);
        assert(parts.last() == parts[1]);
    } else {
        lemma_join_first(parts.drop_last(), sep);
        assert(parts.drop_last().drop_first() =~= parts.drop_first().drop_last());
        assert(parts.drop_first().last() == parts.last());
        assert(join_spec(parts, sep) =~= parts[0] + sep + join_spec(parts.drop_first(), sep));
    }
}

proof fn lemma_scan_items(items: Seq<Seq<char>>)
    requires
        items.len() >= 1,
    ensures
        scan_items(join_spec(quoted_all(items), seq![',']) + seq![']']) == Some(items),
    decreases items.len(),
{
    let q = quoted_all(items);
    let s0 = items[0];
    assert(q[0] == quote_spec(s0));
    if items.len() == 1 {
        let t = join_spec(q, seq![',']) + seq![']'];
        assert(t =~= seq!['"'] + (escape_spec(s0) + seq!['"'] + seq![']']));
        assert(t.drop_first() =~= escape_spec(s0) + seq!['"'] + seq![']']);
        lemma_scan_escaped(s0, seq![']']);
        assert(seq![s0] =~= items);
    } else {
        lemma_join_first(q, seq![',']);
        let more = items.drop_first();
        assert(q.drop_first() =~= quoted_all(more));
        let inner = join_spec(quoted_all(more), seq![',']) + seq![']'];
        let rest = seq![','] + inner;
        let t = join_spec(q, seq![',']) + seq![']'];
        assert(t =~= seq!['"'] + (escape_spec(s0) + seq!['"'] + rest));
        assert(t.drop_first() =~= escape_spec(s0) + seq!['"'] + rest);
        lemma_scan_escaped(s0, rest);
        assert(rest != seq![']']) by {
            assert(rest[0] == ',');
        }
        assert(rest.drop_first() =~= inner);
        lemma_scan_items(more);
        assert(seq![s0] + more =~= items);
    }
}

/// An array of strings loses nothing: reading back what `str_array` writes
/// gives the original strings, in order.
pub proof fn law_str_array_reads_back(items: Seq<Seq<char>>)
    ensures
        unarray_spec(str_array_spec(items)) == Some(items),
{
    let t = str_array_spec(items);
    if items.len() == 0 {
        assert(quoted_all(items).len() == 0);
        assert(t =~= seq!['[', ']']);
        assert(Seq::<Seq<char>>::empty() =~= items);
    } else {
        lemma_scan_items(items);
        let q = quoted_all(items);
        if items.len() == 1 {
            assert(join_spec(q, seq![',']) == q[0]);
        } else {
            lemma_join_first(q, seq![',']);
        }
        assert(q[0] == quote_spec(items[0]));
        assert(t[1] == '"');
        assert(t != seq!['[', ']']);
        assert(t.drop_first() =~= join_spec(q, seq![',']) + seq![']']);
    }
}

/// The positions of the lines that yield a diagnostic, in order.
pub open spec fn diag_line_positions(ls: Seq<Seq<char>>) -> Seq<int>
    decreases ls.len(),
{
    if ls.len() == 0 {
        Seq::empty()
    } else {
        (if line_diag(ls[0]) is Some {
            seq![0int]
        } else {
            Seq::empty()
        }) + diag_line_positions(ls.drop_first()).map_values(|p: int| p + 1)
    }
}

/// How many of the lines are not blank.
pub open spec fn nonblank_count(ls: Seq<Seq<char>>) -> nat
    decreases ls.len(),
{
    if ls.len() == 0 {
        0
    } else {
        (if trim_spec(ls[0]).len() > 0 {
            1nat
        } else {
            0nat
        }) + nonblank_count(ls.drop_first())
    }
}

pub open spec fn known_severity(s: Seq<char>) -> bool {
    s == "error"@ || s == "warning"@ || s == "note"@
}

proof fn lemma_line_diag(l: Seq<char>)
    ensures
        line_diag(l) matches Some(d) ==> known_severity(d.severity) && d.raw == l && trim_spec(
            l,
        ).len() > 0,
{
}

proof fn lemma_diag_lines(ls: Seq<Seq<char>>)
    ensures
        ({
            let ds = diags_of_lines(ls);
            let ps = diag_line_positions(ls);
            &&& ds.len() == ps.len()
            &&& ds.len() <= nonblank_count(ls)
            &&& forall|i: int|
                0 <= i < ps.len() ==> 0 <= #[trigger] ps[i] < ls.len() && ds[i].raw == ls[ps[i]]
                    && known_severity(ds[i].severity) && trim_spec(ls[ps[i]]).len() > 0
            &&& forall|i: int, j: int| 0 <= i < j < ps.len() ==> ps[i] < ps[j]
        }),
    decreases ls.len(),
{
    if ls.len() > 0 {
        let rest = ls.drop_first();
        lemma_diag_lines(rest);
        lemma_line_diag(ls[0]);
        let ds = diags_of_lines(ls);
        let ps = diag_line_positions(ls);
        let rds = diags_of_lines(rest);
        let rps = diag_line_positions(rest);
        let shifted = rps.map_values(|p: int| p + 1);
        if line_diag(ls[0]) is Some {
            assert(ds == seq![line_diag(ls[0])->0] + rds);
            assert(ps == seq![0int] + shifted);
            assert forall|i: int| 0 <= i < ps.len() implies 0 <= #[trigger] ps[i] < ls.len()
                && ds[i].raw == ls[ps[i]] && known_severity(ds[i].severity) && trim_spec(
                ls[ps[i]],
            ).len() > 0 by {
                if i > 0 {
                    assert(ps[i] == rps[i - 1] + 1);
                    assert(ds[i] == rds[i - 1]);
                    assert(ls[ps[i]] == rest[rps[i - 1]]);
                }
            }
            assert forall|i: int, j: int| 0 <= i < j < ps.len() implies ps[i] < ps[j] by {
                assert(ps[j] == rps[j - 1] + 1);
                if i > 0 {
                    assert(ps[i] == rps[i - 1] + 1);
                } else {
                    assert(rps[j - 1] >= 0);
                }
            }
        } else {
            assert(ds =~= rds);
            assert(ps =~= shifted);
            assert forall|i: int| 0 <= i < ps.len() implies 0 <= #[trigger] ps[i] < ls.len()
                && ds[i].raw == ls[ps[i]] && known_severity(ds[i].severity) && trim_spec(
                ls[ps[i]],
            ).len() > 0 by {
                assert(ps[i] == rps[i] + 1);
                assert(ls[ps[i]] == rest[rps[i]]);
            }
            assert forall|i: int, j: int| 0 <= i < j < ps.len() implies ps[i] < ps[j] by {
                assert(ps[i] == rps[i] + 1);
                assert(ps[j] == rps[j] + 1);
            }
        }
    }
}

/// The compiler-output parser reports only what the lines say: every
/// diagnostic has severity `error`, `warning` or `note` and comes from its
/// own non-blank line of the input, whose text it keeps as `raw`; the
/// diagnostics follow the order of their lines, so there are never more of
/// them than non-blank lines.
pub proof fn law_gcc_diagnostics_come_from_lines(stderr: Seq<char>)
    ensures
        ({
            let ls = lines_spec(stderr);
            let ds = gcc_spec(stderr);
            let ps = diag_line_positions(ls);
            &&& ds.len() == ps.len()
            &&& ds.len() <= nonblank_count(ls)
            &&& forall|i: int|
                0 <= i < ps.len() ==> 0 <= #[trigger] ps[i] < ls.len() && ds[i].raw == ls[ps[i]]
                    && known_severity(ds[i].severity) && trim_spec(ls[ps[i]]).len() > 0
            &&& forall|i: int, j: int| 0 <= i < j < ps.len() ==> ps[i] < ps[j]
        }),
{
    lemma_diag_lines(lines_spec(stderr));
}

/// `16` to the power `k`.
pub open spec fn pow16(k: nat) -> nat
    decreases k,
{
    if k == 0 {
        1
    } else {
        16 * pow16((k - 1) as nat)
    }
}

/// A lower-case hexadecimal digit.
pub open spec fn lower_hex_digit(c: char) -> bool {
    ('0' <= c && c <= '9') || ('a' <= c && c <= 'f')
}

proof fn lemma_hex_digits(n: nat, k: nat)
    requires
        k >= 1,
        n < pow16(k),
    ensures
        radix_spec(n, 16).len() <= k,
        forall|i: int|
            0 <= i < radix_spec(n, 16).len() ==> lower_hex_digit(#[trigger] radix_spec(n, 16)[i]),
    decreases n,
{
    if n < 16 {
        assert(radix_spec(n, 16) == seq![digit_char(n)]);
    } else {
        let km = (k - 1) as nat;
        assert(k >= 2) by {
            if k == 1 {
                assert(pow16(1) == 16 * pow16(0));
            }
        }
        assert(pow16(k) == 16 * pow16(km));
        assert(n / 16 < pow16(km)) by (nonlinear_arith)
            requires
                n < 16 * pow16(km),
        ;
        assert(n / 16 < n);
        lemma_hex_digits(n / 16, km);
        let h = radix_spec(n / 16, 16);
        assert(radix_spec(n, 16) == h.push(digit_char(n % 16)));
        assert forall|i: int| 0 <= i < radix_spec(n, 16).len() implies lower_hex_digit(
            #[trigger] radix_spec(n, 16)[i],
        ) by {
            if i < h.len() {
                assert(radix_spec(n, 16)[i] == h[i]);
            }
        }
    }
}

/// A fingerprint is always sixteen lower-case hexadecimal digits, and the
/// same text always has the same fingerprint.
pub proof fn law_fingerprint_is_sixteen_hex_digits(s: Seq<char>, t: Seq<char>)
    ensures
        fingerprint(s).len() == 16,
        forall|i: int| 0 <= i < 16 ==> lower_hex_digit(#[trigger] fingerprint(s)[i]),
        s == t ==> fingerprint(s) == fingerprint(t),
{
    let h = std_hash(s) as nat;
    reveal_with_fuel(pow16, 17);
    assert(pow16(16) == 0x1_0000_0000_0000_0000);
    lemma_hex_digits(h, 16);
    let d = radix_spec(h, 16);
    let f = fingerprint(s);
    if d.len() < 16 {
        let pad = Seq::new((16 - d.len()) as nat, |i: int| '0');
        assert(f == pad + d);
        assert forall|i: int| 0 <= i < 16 implies lower_hex_digit(#[trigger] f[i]) by {
            if i < pad.len() {
                assert(f[i] == '0');
            } else {
                assert(f[i] == d[i - pad.len()]);
            }
        }
    }
}

proof fn lemma_same_fold(x: Seq<char>, a: Seq<char>, b: Seq<char>)
    requires
        eq_ignore_case_spec(a, b),
    ensures
        eq_ignore_case_spec(x, a) == eq_ignore_case_spec(x, b),
{
    if eq_ignore_case_spec(x, a) {
        assert forall|i: int| 0 <= i < x.len() implies ascii_lower(#[trigger] x[i]) == ascii_lower(
            b[i],
        ) by {
            assert(ascii_lower(x[i]) == ascii_lower(a[i]));
            assert(ascii_lower(a[i]) == ascii_lower(b[i]));
        }
    }
    if eq_ignore_case_spec(x, b) {
        assert forall|i: int| 0 <= i < x.len() implies ascii_lower(#[trigger] x[i]) == ascii_lower(
            a[i],
        ) by {
            assert(ascii_lower(x[i]) == ascii_lower(b[i]));
            assert(ascii_lower(a[i]) == ascii_lower(b[i]));
        }
    }
}

proof fn lemma_peripheral_fold(ps: Seq<PeripheralModel>, a: Seq<char>, b: Seq<char>)
    requires
        eq_ignore_case_spec(a, b),
    ensures
        peripheral_index(ps, a) == peripheral_index(ps, b),
    decreases ps.len(),
{
    if ps.len() > 0 {
        lemma_same_fold(ps[0].name, a, b);
        lemma_peripheral_fold(ps.drop_first(), a, b);
    }
}

proof fn lemma_register_fold(rs: Seq<RegisterModel>, a: Seq<char>, b: Seq<char>)
    requires
        eq_ignore_case_spec(a, b),
    ensures
        register_index(rs, a) == register_index(rs, b),
    decreases rs.len(),
{
    if rs.len() > 0 {
        lemma_same_fold(rs[0].name, a, b);
        lemma_register_fold(rs.drop_first(), a, b);
    }
}

/// Datasheet lookups ignore ASCII case: names that differ only in case find
/// the same peripheral, and within it the same register.
pub proof fn law_lookups_ignore_case(
    d: DeviceModel,
    peripheral: Seq<char>,
    peripheral_alt: Seq<char>,
    register: Seq<char>,
    register_alt: Seq<char>,
)
    requires
        eq_ignore_case_spec(peripheral, peripheral_alt),
        eq_ignore_case_spec(register, register_alt),
    ensures
        peripheral_index(d.peripherals, peripheral) == peripheral_index(d.peripherals, peripheral_alt),
        peripheral_index(d.peripherals, peripheral) matches Some(i) ==> register_index(
            d.peripherals[i].registers,
            register,
        ) == register_index(d.peripherals[i].registers, register_alt),
{
    lemma_peripheral_fold(d.peripherals, peripheral, peripheral_alt);
    if let Some(i) = peripheral_index(d.peripherals, peripheral) {
        lemma_register_fold(d.peripherals[i].registers, register, register_alt);
    }
}

// ---------------------------------------------------------------------------
// The desktop host
// ---------------------------------------------------------------------------

/// The workspace jail admits for reading every path it admits for writing,
/// and as the same path.
pub proof fn law_writable_is_readable(rel: Seq<char>)
    requires
        workspace_file_spec(rel, true) is Ok,
    ensures
        workspace_file_spec(rel, false) == workspace_file_spec(rel, true),
{
}

proof fn lemma_decode_plain(b: Seq<u8>, i: int)
    requires
        0 <= i <= b.len(),
        forall|j: int| 0 <= j < b.len() ==> b[j] != 37u8 && b[j] != 43u8,
    ensures
        decode_from(b, i) == b.subrange(i, b.len() as int),
    decreases b.len() - i,
{
    if i < b.len() {
        lemma_decode_plain(b, i + 1);
        assert(b.subrange(i, b.len() as int) =~= seq![b[i]] + b.subrange(i + 1, b.len() as int));
    } else {
        assert(b.subrange(i, b.len() as int) =~= Seq::<u8>::empty());
    }
}

/// A query value with no `%` and no `+` decodes to itself.
pub proof fn law_plain_value_decodes_to_itself(s: Seq<char>)
    requires
        forall|j: int|
            0 <= j < encode_utf8(s).len() ==> #[trigger] encode_utf8(s)[j] != 37u8 && encode_utf8(
                s,
            )[j] != 43u8,
    ensures
        percent_bytes(s) == encode_utf8(s),
        valid_utf8(percent_bytes(s)),
        decode_utf8(percent_bytes(s)) == s,
{
    let b = encode_utf8(s);
    lemma_decode_plain(b, 0);
    assert(b.subrange(0, b.len() as int) =~= b);
    encode_utf8_valid_utf8(s);
    encode_utf8_decode_utf8(s);
}

// ---------------------------------------------------------------------------
// Workspace tasks
// ---------------------------------------------------------------------------

/// A peripheral's register map lists every register of the peripheral, in
/// order, each with its name, offset, description and fields and with its
/// absolute address: the base address plus the offset (wrapping in `u64`,
/// as the release build computes it).
pub proof fn law_register_map_lists_every_register(p: PeripheralModel)
    ensures
        ({
            let f = peripheral_fact(p);
            &&& f.name == p.name && f.base_address == p.base_address
            &&& f.registers.len() == p.registers.len()
            &&& forall|j: int|
                0 <= j < p.registers.len() ==> {
                    let r = p.registers[j];
                    let v = #[trigger] f.registers[j];
                    &&& v.name == r.name && v.offset == r.address_offset
                    &&& v.description == r.description && v.fields == r.fields
                    &&& v.absolute_address == absolute(p.base_address, r.address_offset)
                    &&& p.base_address + r.address_offset <= u64::MAX ==> v.absolute_address
                        == p.base_address + r.address_offset
                }
        }),
{
}

/// At most one task runs at a time: in every state of the task registry
/// (each of its operations keeps `registry_wf`), no two entries are running,
/// and a task registered while nothing runs is then the only running one.
pub proof fn law_at_most_one_task_runs(s: RegistryView, id: Seq<char>)
    requires
        registry_wf(s),
    ensures
        forall|i: int, j: int|
            0 <= i < s.len() && 0 <= j < s.len() && #[trigger] s[i].1.status == TaskStatus::Running
                && #[trigger] s[j].1.status == TaskStatus::Running ==> i == j,
        !some_running(s) ==> forall|j: int|
            0 <= j < registered(s, id).len() && #[trigger] registered(s, id)[j].1.status
                == TaskStatus::Running ==> registered(s, id)[j].0 == id,
{
    if !some_running(s) {
        law_registered_task_runs(s, id);
    }
}

/// Completing the running task frees the registry for the next one.
pub proof fn law_completing_frees_the_registry(s: RegistryView, id: Seq<char>, result: Seq<char>)
    requires
        registry_wf(s),
        has_id(s, id),
        s[index_of(s, id)].1.status == TaskStatus::Running,
    ensures
        !some_running(completed(s, id, result)),
        registry_wf(completed(s, id, result)),
{
    let k = index_of(s, id);
    let c = completed(s, id, result);
    assert forall|j: int| 0 <= j < c.len() implies c[j].1.status != TaskStatus::Running by {
        if j != k {
            assert(c[j] == s[j]);
        }
    }
    assert forall|i: int, j: int| 0 <= i < j < c.len() implies c[i].0 != c[j].0 by {
        assert(c[i].0 == s[i].0);
        assert(c[j].0 == s[j].0);
    }
}

/// A task registered while nothing runs is the one running task, and it has
/// not emitted anything yet.
pub proof fn law_registered_task_runs(s: RegistryView, id: Seq<char>)
    requires
        registry_wf(s),
        !some_running(s),
    ensures
        has_id(registered(s, id), id),
        registered(s, id)[index_of(registered(s, id), id)].1 == fresh_task(),
        forall|j: int|
            0 <= j < registered(s, id).len() && #[trigger] registered(s, id)[j].1.status
                == TaskStatus::Running ==> registered(s, id)[j].0 == id,
{
    let base = if s.len() >= MAX_TASKS {
        Seq::<(Seq<char>, TaskView)>::empty()
    } else {
        s
    };
    let r = registered(s, id);
    if has_id(base, id) {
        let k = index_of(base, id);
        assert(r[k].0 == id);
        assert(has_id(r, id));
        assert forall|i: int, j: int| 0 <= i < j < r.len() implies r[i].0 != r[j].0 by {
            if i != k && j != k {
                assert(r[i] == base[i] && r[j] == base[j]);
            } else if i == k {
                assert(r[j] == base[j]);
                assert(base[k].0 != base[j].0);
            } else {
                assert(r[i] == base[i]);
                assert(base[i].0 != base[k].0);
            }
        }
        let c = index_of(r, id);
        if c != k {
            if c < k {
                assert(r[c].0 != r[k].0);
            } else {
                assert(r[k].0 != r[c].0);
            }
        }
        assert forall|j: int|
            0 <= j < r.len() && #[trigger] r[j].1.status == TaskStatus::Running implies r[j].0
                == id by {
            if j != k {
                assert(r[j] == base[j]);
                assert(base.len() == 0 || !some_running(base));
            }
        }
    } else {
        let k = base.len() as int;
        assert(r[k].0 == id);
        assert(has_id(r, id));
        assert forall|i: int, j: int| 0 <= i < j < r.len() implies r[i].0 != r[j].0 by {
            if j == k {
                assert(r[i] == base[i]);
            } else {
                assert(r[i] == base[i] && r[j] == base[j]);
            }
        }
        let c = index_of(r, id);
        if c != k {
            assert(r[c] == base[c]);
        }
        assert forall|j: int|
            0 <= j < r.len() && #[trigger] r[j].1.status == TaskStatus::Running implies r[j].0
                == id by {
            if j != k {
                assert(r[j] == base[j]);
                assert(base.len() == 0 || !some_running(base));
            }
        }
    }
}

} // verus!

verus! {

// ---------------------------------------------------------------------------
// Searching text
// ---------------------------------------------------------------------------

/// `p` occurs in `s` at some position.
pub open spec fn occurs_in(s: Seq<char>, p: Seq<char>) -> bool {
    exists|i: int| matches_at(s, p, i)
}

proof fn lemma_contains_is_occurrence(s: Seq<char>, p: Seq<char>)
    ensures
        contains_spec(s, p) <==> occurs_in(s, p),
    decreases s.len(),
{
    if p.len() > s.len() {
        if occurs_in(s, p) {
            let i = choose|i: int| matches_at(s, p, i);
            assert(false);
        }
    } else if s.subrange(0, p.len() as int) == p {
        assert(matches_at(s, p, 0));
    } else if s.len() == 0 {
        assert(s.subrange(0, p.len() as int) =~= p);
    } else {
        let t = s.drop_first();
        lemma_contains_is_occurrence(t, p);
        if occurs_in(s, p) {
            let i = choose|i: int| matches_at(s, p, i);
            assert(i != 0);
            assert(t.subrange(i - 1, i - 1 + p.len()) =~= s.subrange(i, i + p.len()));
            assert(matches_at(t, p, i - 1));
        }
        if occurs_in(t, p) {
            let j = choose|j: int| matches_at(t, p, j);
            assert(t.subrange(j, j + p.len()) =~= s.subrange(j + 1, j + 1 + p.len()));
            assert(matches_at(s, p, j + 1));
        }
    }
}

/// `x` occurs in `a + x + b` right after `a`.
proof fn lemma_occurs_between(a: Seq<char>, x: Seq<char>, b: Seq<char>)
    ensures
        matches_at(a + x + b, x, a.len() as int),
        occurs_in(a + x + b, x),
{
    assert((a + x + b).subrange(a.len() as int, (a.len() + x.len()) as int) =~= x);
    assert(matches_at(a + x + b, x, a.len() as int));
}

// ---------------------------------------------------------------------------
// Simulation verdicts
// ---------------------------------------------------------------------------

/// A Renode run passes exactly when it did not time out and the expected
/// banner occurs in the UART capture, whatever the exit code and the console
/// output; a failed run names its fault (a timeout, or the missing banner),
/// a passing one names none.
pub proof fn law_renode_passes_only_on_the_banner(
    r: RenodeView,
    code: Option<i32>,
    other_code: Option<i32>,
    timed_out: bool,
    output: Seq<char>,
    other_output: Seq<char>,
    uart_text: Seq<char>,
)
    ensures
        ({
            let v = renode_outcome_spec(r, code, timed_out, output, uart_text);
            &&& v.ok <==> !timed_out && occurs_in(uart_text, r.expect)
            &&& v.ok == renode_outcome_spec(r, other_code, timed_out, other_output, uart_text).ok
            &&& v.ok ==> v.fault is None
            &&& timed_out ==> v.fault == Some("timeout"@)
            &&& !timed_out && !v.ok ==> v.fault == Some("expected_uart_not_found"@)
        }),
{
    lemma_contains_is_occurrence(uart_text, r.expect);
}

} // verus!

verus! {

// ---------------------------------------------------------------------------
// Compiler locations
// ---------------------------------------------------------------------------

/// `s` holds no `':'`.
pub open spec fn colon_free(s: Seq<char>) -> bool {
    forall|i: int| 0 <= i < s.len() ==> s[i] != ':'
}

proof fn lemma_rfind_skips(s: Seq<char>, t: Seq<char>)
    requires
        colon_free(t),
    ensures
        rfind_spec(s + t, ':') == rfind_spec(s, ':'),
    decreases t.len(),
{
    if t.len() > 0 {
        assert((s + t).last() == t.last());
        assert((s + t).drop_last() =~= s + t.drop_last());
        lemma_rfind_skips(s, t.drop_last());
    } else {
        assert(s + t =~= s);
    }
}

proof fn lemma_rfind_last_colon(s: Seq<char>, t: Seq<char>)
    requires
        colon_free(t),
    ensures
        rfind_spec(s + seq![':'] + t, ':') == Some(s.len() as int),
{
    lemma_rfind_skips(s + seq![':'], t);
    assert((s + seq![':']).last() == ':');
}

proof fn lemma_rfind_none(s: Seq<char>)
    requires
        colon_free(s),
    ensures
        rfind_spec(s, ':') is None,
{
    lemma_rfind_skips(Seq::empty(), s);
    assert(Seq::<char>::empty() + s =~= s);
}

/// A location `file:line`, whose file holds no `':'`, names that file and
/// that line and no column: a single trailing number is always the line.
pub proof fn law_location_file_line(file: Seq<char>, n: Seq<char>, line: u32)
    requires
        colon_free(file),
        colon_free(n),
        parse_u32_spec(trim_spec(n)) == Some(line),
    ensures
        location_spec(file + seq![':'] + n) == (Some(file), Some(line), None::<u32>),
{
    let loc = file + seq![':'] + n;
    lemma_rfind_last_colon(file, n);
    let p1 = file.len() as int;
    assert(loc.subrange(p1 + 1, loc.len() as int) =~= n);
    assert(loc.subrange(0, p1) =~= file);
    lemma_rfind_none(file);
}

/// A location `file:line:column`, whose file holds no `':'`, names that
/// file, that line and that column.
pub proof fn law_location_file_line_col(
    file: Seq<char>,
    a: Seq<char>,
    b: Seq<char>,
    line: u32,
    col: u32,
)
    requires
        colon_free(file),
        colon_free(a),
        colon_free(b),
        parse_u32_spec(trim_spec(a)) == Some(line),
        parse_u32_spec(trim_spec(b)) == Some(col),
    ensures
        location_spec(file + seq![':'] + a + seq![':'] + b) == (Some(file), Some(line), Some(col)),
{
    let rest = file + seq![':'] + a;
    let loc = rest + seq![':'] + b;
    lemma_rfind_last_colon(rest, b);
    let p1 = rest.len() as int;
    assert(loc.subrange(p1 + 1, loc.len() as int) =~= b);
    assert(loc.subrange(0, p1) =~= rest);
    lemma_rfind_last_colon(file, a);
    let p2 = file.len() as int;
    assert(rest.subrange(p2 + 1, rest.len() as int) =~= a);
    assert(rest.subrange(0, p2) =~= file);
}

/// A location `drive:path:line`, whose path part is not a number, keeps the
/// whole `drive:path` as its file and the number as its line, with no
/// column.
pub proof fn law_location_keeps_drive_letter(
    drive: Seq<char>,
    path: Seq<char>,
    n: Seq<char>,
    line: u32,
)
    requires
        colon_free(drive),
        colon_free(path),
        colon_free(n),
        parse_u32_spec(trim_spec(path)) is None,
        parse_u32_spec(trim_spec(n)) == Some(line),
    ensures
        location_spec(drive + seq![':'] + path + seq![':'] + n) == (
            Some(drive + seq![':'] + path),
            Some(line),
            None::<u32>,
        ),
{
    let rest = drive + seq![':'] + path;
    let loc = rest + seq![':'] + n;
    lemma_rfind_last_colon(rest, n);
    let p1 = rest.len() as int;
    assert(loc.subrange(p1 + 1, loc.len() as int) =~= n);
    assert(loc.subrange(0, p1) =~= rest);
    lemma_rfind_last_colon(drive, path);
    let p2 = drive.len() as int;
    assert(rest.subrange(p2 + 1, rest.len() as int) =~= path);
}

} // verus!

verus! {

// ---------------------------------------------------------------------------
// The model's prompt
// ---------------------------------------------------------------------------

/// The line the prompt gives one prior diagnostic.
pub open spec fn feedback_line(d: DiagnosticView) -> Seq<char> {
    "  - "@ + context_spec(d) + "\n"@
}

proof fn lemma_feedback_concat(ds: Seq<DiagnosticView>, es: Seq<DiagnosticView>)
    ensures
        diagnostic_lines(ds + es) == diagnostic_lines(ds) + diagnostic_lines(es),
    decreases es.len(),
{
    if es.len() == 0 {
        assert(ds + es =~= ds);
        assert(diagnostic_lines(ds) + diagnostic_lines(es) =~= diagnostic_lines(ds));
    } else {
        assert((ds + es).drop_last() =~= ds + es.drop_last());
        assert((ds + es).last() == es.last());
        lemma_feedback_concat(ds, es.drop_last());
        assert(diagnostic_lines(ds + es) =~= diagnostic_lines(ds) + diagnostic_lines(es));
    }
}

proof fn lemma_feedback_single(d: DiagnosticView)
    ensures
        diagnostic_lines(seq![d]) == feedback_line(d),
{
    assert(seq![d].drop_last() =~= Seq::<DiagnosticView>::empty());
    assert(seq![d].last() == d);
    assert(diagnostic_lines(Seq::<DiagnosticView>::empty()) == Seq::<char>::empty());
    assert(Seq::<char>::empty() + "  - "@ + context_spec(d) + "\n"@ =~= feedback_line(d));
}

proof fn lemma_feedback_split(ds: Seq<DiagnosticView>, k: int)
    requires
        0 <= k < ds.len(),
    ensures
        diagnostic_lines(ds) == diagnostic_lines(ds.subrange(0, k)) + feedback_line(ds[k])
            + diagnostic_lines(ds.subrange(k + 1, ds.len() as int)),
{
    let a = ds.subrange(0, k);
    let b = ds.subrange(k + 1, ds.len() as int);
    assert(ds =~= a + seq![ds[k]] + b);
    lemma_feedback_concat(a + seq![ds[k]], b);
    lemma_feedback_concat(a, seq![ds[k]]);
    lemma_feedback_single(ds[k]);
}

/// The feedback on a failed build is one line per diagnostic, in order:
/// nothing for no diagnostics, `"  - " + context + "\n"` for one, and for a
/// list the lines of its parts one after the other.
pub proof fn law_feedback_is_one_line_per_diagnostic(
    ds: Seq<DiagnosticView>,
    es: Seq<DiagnosticView>,
    d: DiagnosticView,
)
    ensures
        diagnostic_lines(Seq::empty()) == Seq::<char>::empty(),
        diagnostic_lines(seq![d]) == feedback_line(d),
        diagnostic_lines(seq![d] + ds) == feedback_line(d) + diagnostic_lines(ds),
        diagnostic_lines(ds + es) == diagnostic_lines(ds) + diagnostic_lines(es),
{
    lemma_feedback_concat(ds, es);
    lemma_feedback_concat(seq![d], ds);
    lemma_feedback_single(d);
}

/// A retry after a failed build shows the model every one of that build's
/// diagnostics: the prompt holds the line of each of them.
pub proof fn law_prompt_shows_every_diagnostic(brief: Seq<char>, ctx: ContextView, k: int)
    requires
        0 <= k < ctx.compile_diagnostics.len(),
    ensures
        occurs_in(user_prompt_spec(brief, ctx), feedback_line(ctx.compile_diagnostics[k])),
{
    let ds = ctx.compile_diagnostics;
    lemma_feedback_split(ds, k);
    let head = "Goal: "@ + ctx.goal + "\n\nAuthoritative grounded register facts:\n"@ + brief + "\n"@
        + "\nYour previous draft FAILED TO COMPILE. Fix exactly these compiler diagnostics and return the corrected full file:\n"@;
    let tail = match ctx.sim_fault {
        Some(f) => "\nYour previous draft compiled but simulation did not observe the banner (fault: "@
            + f
            + "). Make sure USART2 is fully initialized and every byte of `Hello from Embeder\\r\\n` is written to USART2_DR after TXE is set.\n"@,
        None => Seq::empty(),
    };
    let a = diagnostic_lines(ds.subrange(0, k));
    let b = diagnostic_lines(ds.subrange(k + 1, ds.len() as int));
    let line = feedback_line(ds[k]);
    assert(user_prompt_spec(brief, ctx) =~= (head + a) + line + (b + tail));
    lemma_occurs_between(head + a, line, b + tail);
}

} // verus!

verus! {

// ---------------------------------------------------------------------------
// SVD field bits
// ---------------------------------------------------------------------------

/// The bits `lsb..=msb` span `msb - lsb + 1` bits (as `u32` arithmetic
/// gives it).
pub open spec fn spans(offset: u32, width: u32, lsb: u32, msb: u32) -> bool {
    &&& offset == lsb
    &&& width as int == (msb - lsb + 1) % 0x1_0000_0000
}

/// A field's bits as SVD writes them: `bitOffset` and `bitWidth` when both
/// are numbers; otherwise `lsb` and `msb` (with `msb >= lsb`) give offset
/// `lsb` and width `msb - lsb + 1`, the least significant bit being the
/// offset and never the most significant one.
pub proof fn law_field_bits_offset_is_lsb(doc: Seq<XmlNode>, f: XmlNode)
    ensures
        ({
            let bits = field_bits_spec(doc, f);
            let o = num32(child_text(doc, f, "bitOffset"@));
            let w = num32(child_text(doc, f, "bitWidth"@));
            let l = num32(child_text(doc, f, "lsb"@));
            let m = num32(child_text(doc, f, "msb"@));
            &&& (o is Some && w is Some) ==> bits == Some((o->0, w->0))
            &&& (!(o is Some && w is Some) && l is Some && m is Some && m->0 >= l->0) ==> (
            bits matches Some((off, wid)) && spans(off, wid, l->0, m->0))
        }),
{
}

proof fn lemma_first_colon(a: Seq<char>, b: Seq<char>)
    requires
        colon_free(a),
    ensures
        find_spec(a + seq![':'] + b, seq![':']) == Some(a.len() as int),
    decreases a.len(),
{
    let s = a + seq![':'] + b;
    if a.len() == 0 {
        assert(s.subrange(0, 1) =~= seq![':']);
    } else {
        assert(s.subrange(0, 1) != seq![':']) by {
            assert(s.subrange(0, 1)[0] == a[0]);
        }
        assert(s.drop_first() =~= a.drop_first() + seq![':'] + b);
        lemma_first_colon(a.drop_first(), b);
    }
}

pub open spec fn bracket_free(s: Seq<char>) -> bool {
    forall|i: int| 0 <= i < s.len() ==> s[i] != '[' && s[i] != ']'
}

/// A `bitRange` of the form `[msb:lsb]` gives offset `lsb` and width
/// `msb - lsb + 1`, the same bits as `lsb`/`msb` with those numbers.
pub proof fn law_bit_range_agrees_with_lsb_msb(a: Seq<char>, b: Seq<char>, msb: u32, lsb: u32)
    requires
        colon_free(a),
        colon_free(b),
        bracket_free(a),
        bracket_free(b),
        num32(Some(a)) == Some(msb),
        num32(Some(b)) == Some(lsb),
        msb >= lsb,
    ensures
        bit_range(seq!['['] + a + seq![':'] + b + seq![']']) matches Some((off, wid)) && spans(
            off,
            wid,
            lsb,
            msb,
        ),
{
    let inner = a + seq![':'] + b;
    let t = seq!['['] + inner + seq![']'];
    assert(t =~= seq!['['] + a + seq![':'] + b + seq![']']);
    assert(inner.len() > 0 && !strips(Strip::Brackets, inner[0])) by {
        if a.len() > 0 {
            assert(inner[0] == a[0]);
        } else {
            assert(inner[0] == ':');
        }
    }
    assert(inner.last() != '[' && inner.last() != ']') by {
        if b.len() > 0 {
            assert(inner.last() == b.last());
        } else {
            assert(inner.last() == ':');
        }
    }
    let u = inner + seq![']'];
    assert(t.drop_first() =~= u);
    assert(trim_start_by(Strip::Brackets, u) == u);
    assert(trim_start_by(Strip::Brackets, t) == u);
    assert(u.drop_last() =~= inner);
    assert(trim_end_by(Strip::Brackets, inner) == inner);
    assert(trim_end_by(Strip::Brackets, u) == inner);
    assert(trim_by(Strip::Brackets, t) == inner);
    lemma_first_colon(a, b);
    assert(inner.subrange(0, a.len() as int) =~= a);
    assert(inner.subrange(a.len() as int + 1, inner.len() as int) =~= b);
    lemma_contains_is_occurrence(b, seq![':']);
    if occurs_in(b, seq![':']) {
        let i = choose|i: int| matches_at(b, seq![':'], i);
        assert(b.subrange(i, i + 1)[0] == b[i]);
    }
}

} // verus!

verus! {

// ---------------------------------------------------------------------------
// Grounded synthesis
// ---------------------------------------------------------------------------

/// The address that looking up register `r` of peripheral `p` in `d` finds:
/// the peripheral's base address plus the register's offset.
pub open spec fn register_address(d: DeviceModel, p: Seq<char>, r: Seq<char>) -> u64 {
    let pm = d.peripherals[peripheral_index(d.peripherals, p)->0];
    let rm = pm.registers[register_index(pm.registers, r)->0];
    absolute(pm.base_address, rm.address_offset)
}

/// The bit offset of the first field named `f` of register `r` of
/// peripheral `p` in `d` (0 when it has none).
pub open spec fn field_bit(d: DeviceModel, p: Seq<char>, r: Seq<char>, f: Seq<char>) -> u32 {
    let pm = d.peripherals[peripheral_index(d.peripherals, p)->0];
    let fields = pm.registers[register_index(pm.registers, r)->0].fields;
    if exists|j: int| 0 <= j < fields.len() && fields[j].name == f {
        let j = choose|j: int|
            0 <= j < fields.len() && fields[j].name == f && forall|i: int|
                0 <= i < j ==> fields[i].name != f;
        fields[j].bit_offset
    } else {
        0
    }
}

/// Each register macro of the synthesized firmware, with the register it
/// names.
pub open spec fn register_macros() -> Seq<(Seq<char>, Seq<char>, Seq<char>)> {
    seq![
        ("#define RCC_AHB1ENR REG("@, "RCC"@, "AHB1ENR"@),
        ("#define RCC_APB1ENR REG("@, "RCC"@, "APB1ENR"@),
        ("#define GPIOA_MODER REG("@, "GPIOA"@, "MODER"@),
        ("#define GPIOA_ODR   REG("@, "GPIOA"@, "ODR"@),
        ("#define GPIOA_AFRL  REG("@, "GPIOA"@, "AFRL"@),
        ("#define USART2_SR   REG("@, "USART2"@, "SR"@),
        ("#define USART2_DR   REG("@, "USART2"@, "DR"@),
        ("#define USART2_BRR  REG("@, "USART2"@, "BRR"@),
        ("#define USART2_CR1  REG("@, "USART2"@, "CR1"@),
    ]
}

/// Each bit macro of the synthesized firmware, with the register field it
/// names.
pub open spec fn bit_macros() -> Seq<(Seq<char>, Seq<char>, Seq<char>, Seq<char>)> {
    seq![
        ("#define GPIOAEN  (1u<<"@, "RCC"@, "AHB1ENR"@, "GPIOAEN"@),
        ("#define USART2EN (1u<<"@, "RCC"@, "APB1ENR"@, "USART2EN"@),
        ("#define TXE (1u<<"@, "USART2"@, "SR"@, "TXE"@),
        ("#define UE  (1u<<"@, "USART2"@, "CR1"@, "UE"@),
        ("#define TE  (1u<<"@, "USART2"@, "CR1"@, "TE"@),
    ]
}

pub open spec fn register_line(d: DeviceModel, m: (Seq<char>, Seq<char>, Seq<char>)) -> Seq<char> {
    m.0 + hex_prefixed(register_address(d, m.1, m.2) as nat) + "u)\n"@
}

pub open spec fn bit_line(d: DeviceModel, m: (Seq<char>, Seq<char>, Seq<char>, Seq<char>)) -> Seq<
    char,
> {
    m.0 + dec_spec(field_bit(d, m.1, m.2, m.3) as nat) + ")\n"@
}

proof fn lemma_bit_of_first(fields: Seq<FieldModel>, f: Seq<char>)
    ensures
        (exists|j: int| 0 <= j < fields.len() && fields[j].name == f) ==> ({
            let j = choose|j: int|
                0 <= j < fields.len() && fields[j].name == f && forall|i: int|
                    0 <= i < j ==> fields[i].name != f;
            &&& 0 <= j < fields.len() && fields[j].name == f
            &&& forall|i: int| 0 <= i < j ==> fields[i].name != f
            &&& bit_of(fields, f) == fields[j].bit_offset
        }),
        !(exists|j: int| 0 <= j < fields.len() && fields[j].name == f) ==> bit_of(fields, f) == 0,
    decreases fields.len(),
{
    if fields.len() > 0 {
        let rest = fields.drop_first();
        lemma_bit_of_first(rest, f);
        if fields[0].name == f {
            let j0 = 0int;
            assert(0 <= j0 < fields.len() && fields[j0].name == f && forall|i: int|
                0 <= i < j0 ==> fields[i].name != f);
            let j = choose|j: int|
                0 <= j < fields.len() && fields[j].name == f && forall|i: int|
                    0 <= i < j ==> fields[i].name != f;
            if j != 0 {
                assert(fields[0].name != f);
            }
        } else {
            if exists|j: int| 0 <= j < fields.len() && fields[j].name == f {
                let w = choose|j: int| 0 <= j < fields.len() && fields[j].name == f;
                assert(rest[w - 1] == fields[w]);
                let k = choose|j: int|
                    0 <= j < rest.len() && rest[j].name == f && forall|i: int|
                        0 <= i < j ==> rest[i].name != f;
                assert(fields[k + 1] == rest[k]);
                assert forall|i: int| 0 <= i < k + 1 implies fields[i].name != f by {
                    if i > 0 {
                        assert(fields[i] == rest[i - 1]);
                    }
                }
                let j = choose|j: int|
                    0 <= j < fields.len() && fields[j].name == f && forall|i: int|
                        0 <= i < j ==> fields[i].name != f;
                if j < k + 1 {
                    assert(false);
                } else if j > k + 1 {
                    assert(fields[k + 1].name != f);
                }
            } else {
                if exists|j: int| 0 <= j < rest.len() && rest[j].name == f {
                    let w = choose|j: int| 0 <= j < rest.len() && rest[j].name == f;
                    assert(fields[w + 1] == rest[w]);
                }
            }
        }
    }
}

proof fn lemma_fact_address(d: DeviceModel, k: int)
    requires
        0 <= k < 9,
    ensures
        fact_at(d, k).absolute_address == register_address(
            d,
            register_macros()[k].1,
            register_macros()[k].2,
        ),
        blink_registers()[k].0 == register_macros()[k].1,
        blink_registers()[k].1 == register_macros()[k].2,
{
}

/// The head of the synthesized firmware, before its definitions.
pub open spec fn synth_head(source: Seq<char>) -> Seq<char> {
    "#include <stdint.h>\n"@
        + "/* Synthesized by Embeder from grounded CMSIS-SVD facts (source: "@ + source + ") */\n"@
        + "#define REG(a) (*(volatile uint32_t *)(a))\n"@
}

/// `y` begins with `x`.
pub open spec fn begins_with(y: Seq<char>, x: Seq<char>) -> bool {
    x.len() <= y.len() && y.subrange(0, x.len() as int) == x
}

proof fn lemma_begins_extend(x: Seq<char>, z: Seq<char>, y: Seq<char>)
    requires
        begins_with(y, x + z),
    ensures
        begins_with(y, x),
{
    assert(y.subrange(0, x.len() as int) =~= (x + z).subrange(0, x.len() as int));
    assert((x + z).subrange(0, x.len() as int) =~= x);
}

proof fn lemma_occurs_in_prefix(x: Seq<char>, y: Seq<char>, p: Seq<char>)
    requires
        begins_with(y, x),
        occurs_in(x, p),
    ensures
        occurs_in(y, p),
{
    let i = choose|i: int| matches_at(x, p, i);
    assert(y.subrange(i, i + p.len()) =~= x.subrange(i, i + p.len()));
    assert(matches_at(y, p, i));
}

proof fn lemma_occurs_last_three(e: Seq<char>, a: Seq<char>, x: Seq<char>, c: Seq<char>)
    ensures
        occurs_in(e + a + x + c, a + x + c),
{
    assert(e + a + x + c =~= e + (a + x + c) + Seq::<char>::empty());
    lemma_occurs_between(e, a + x + c, Seq::empty());
}

proof fn lemma_line_is_register_line(d: DeviceModel, k: int)
    requires
        0 <= k < 9,
    ensures
        register_line(d, register_macros()[k]) == register_macros()[k].0 + hex_prefixed(
            fact_at(d, k).absolute_address as nat,
        ) + "u)\n"@,
{
    lemma_fact_address(d, k);
}

proof fn lemma_line_is_bit_line(d: DeviceModel, k: int, r: int)
    requires
        0 <= k < 5,
        0 <= r < 9,
        blink_registers()[r].0 == bit_macros()[k].1,
        blink_registers()[r].1 == bit_macros()[k].2,
    ensures
        bit_line(d, bit_macros()[k]) == bit_macros()[k].0 + dec_spec(
            bit_of(fact_at(d, r).fields, bit_macros()[k].3) as nat,
        ) + ")\n"@,
{
    lemma_bit_of_first(fact_at(d, r).fields, bit_macros()[k].3);
}

#[verifier::rlimit(100)]
proof fn lemma_synth_holds_each_line(d: DeviceModel, source: Seq<char>)
    ensures
        occurs_in(synth_source(d, source), "#define RCC_AHB1ENR REG("@ + hex_prefixed(fact_at(d, 0).absolute_address as nat) + "u)\n"@),
        occurs_in(synth_source(d, source), "#define RCC_APB1ENR REG("@ + hex_prefixed(fact_at(d, 1).absolute_address as nat) + "u)\n"@),
        occurs_in(synth_source(d, source), "#define GPIOA_MODER REG("@ + hex_prefixed(fact_at(d, 2).absolute_address as nat) + "u)\n"@),
        occurs_in(synth_source(d, source), "#define GPIOA_ODR   REG("@ + hex_prefixed(fact_at(d, 3).absolute_address as nat) + "u)\n"@),
        occurs_in(synth_source(d, source), "#define GPIOA_AFRL  REG("@ + hex_prefixed(fact_at(d, 4).absolute_address as nat) + "u)\n"@),
        occurs_in(synth_source(d, source), "#define USART2_SR   REG("@ + hex_prefixed(fact_at(d, 5).absolute_address as nat) + "u)\n"@),
        occurs_in(synth_source(d, source), "#define USART2_DR   REG("@ + hex_prefixed(fact_at(d, 6).absolute_address as nat) + "u)\n"@),
        occurs_in(synth_source(d, source), "#define USART2_BRR  REG("@ + hex_prefixed(fact_at(d, 7).absolute_address as nat) + "u)\n"@),
        occurs_in(synth_source(d, source), "#define USART2_CR1  REG("@ + hex_prefixed(fact_at(d, 8).absolute_address as nat) + "u)\n"@),
        occurs_in(synth_source(d, source), "#define GPIOAEN  (1u<<"@ + dec_spec(bit_of(fact_at(d, 0).fields, "GPIOAEN"@) as nat) + ")\n"@),
        occurs_in(synth_source(d, source), "#define USART2EN (1u<<"@ + dec_spec(bit_of(fact_at(d, 1).fields, "USART2EN"@) as nat) + ")\n"@),
        occurs_in(synth_source(d, source), "#define TXE (1u<<"@ + dec_spec(bit_of(fact_at(d, 5).fields, "TXE"@) as nat) + ")\n"@),
        occurs_in(synth_source(d, source), "#define UE  (1u<<"@ + dec_spec(bit_of(fact_at(d, 8).fields, "UE"@) as nat) + ")\n"@),
        occurs_in(synth_source(d, source), "#define TE  (1u<<"@ + dec_spec(bit_of(fact_at(d, 8).fields, "TE"@) as nat) + ")\n"@),
{
    let s = synth_source(d, source);
    let e0 = synth_head(source);
    let e1 = e0 + "#define RCC_AHB1ENR REG("@ + hex_prefixed(fact_at(d, 0).absolute_address as nat) + "u)\n"@;
    let e2 = e1 + "#define RCC_APB1ENR REG("@ + hex_prefixed(fact_at(d, 1).absolute_address as nat) + "u)\n"@;
    let e3 = e2 + "#define GPIOA_MODER REG("@ + hex_prefixed(fact_at(d, 2).absolute_address as nat) + "u)\n"@;
    let e4 = e3 + "#define GPIOA_ODR   REG("@ + hex_prefixed(fact_at(d, 3).absolute_address as nat) + "u)\n"@;
    let e5 = e4 + "#define GPIOA_AFRL  REG("@ + hex_prefixed(fact_at(d, 4).absolute_address as nat) + "u)\n"@;
    let e6 = e5 + "#define USART2_SR   REG("@ + hex_prefixed(fact_at(d, 5).absolute_address as nat) + "u)\n"@;
    let e7 = e6 + "#define USART2_DR   REG("@ + hex_prefixed(fact_at(d, 6).absolute_address as nat) + "u)\n"@;
    let e8 = e7 + "#define USART2_BRR  REG("@ + hex_prefixed(fact_at(d, 7).absolute_address as nat) + "u)\n"@;
    let e9 = e8 + "#define USART2_CR1  REG("@ + hex_prefixed(fact_at(d, 8).absolute_address as nat) + "u)\n"@;
    let e10 = e9 + "#define GPIOAEN  (1u<<"@ + dec_spec(bit_of(fact_at(d, 0).fields, "GPIOAEN"@) as nat) + ")\n"@;
    let e11 = e10 + "#define USART2EN (1u<<"@ + dec_spec(bit_of(fact_at(d, 1).fields, "USART2EN"@) as nat) + ")\n"@;
    let e12 = e11 + "#define TXE (1u<<"@ + dec_spec(bit_of(fact_at(d, 5).fields, "TXE"@) as nat) + ")\n"@;
    let e13 = e12 + "#define UE  (1u<<"@ + dec_spec(bit_of(fact_at(d, 8).fields, "UE"@) as nat) + ")\n"@;
    let e14 = e13 + "#define TE  (1u<<"@ + dec_spec(bit_of(fact_at(d, 8).fields, "TE"@) as nat) + ")\n"@;
    assert(s == e14 + SYNTH_BODY@);
    assert(begins_with(s, e14 + SYNTH_BODY@)) by { assert(s.subrange(0, s.len() as int) =~= s); }
    lemma_begins_extend(e14, SYNTH_BODY@, s);
    lemma_begins_extend(e13 + "#define TE  (1u<<"@ + dec_spec(bit_of(fact_at(d, 8).fields, "TE"@) as nat), ")\n"@, s);
    lemma_begins_extend(e13 + "#define TE  (1u<<"@, dec_spec(bit_of(fact_at(d, 8).fields, "TE"@) as nat), s);
    lemma_begins_extend(e13, "#define TE  (1u<<"@, s);
    lemma_begins_extend(e12 + "#define UE  (1u<<"@ + dec_spec(bit_of(fact_at(d, 8).fields, "UE"@) as nat), ")\n"@, s);
    lemma_begins_extend(e12 + "#define UE  (1u<<"@, dec_spec(bit_of(fact_at(d, 8).fields, "UE"@) as nat), s);
    lemma_begins_extend(e12, "#define UE  (1u<<"@, s);
    lemma_begins_extend(e11 + "#define TXE (1u<<"@ + dec_spec(bit_of(fact_at(d, 5).fields, "TXE"@) as nat), ")\n"@, s);
    lemma_begins_extend(e11 + "#define TXE (1u<<"@, dec_spec(bit_of(fact_at(d, 5).fields, "TXE"@) as nat), s);
    lemma_begins_extend(e11, "#define TXE (1u<<"@, s);
    lemma_begins_extend(e10 + "#define USART2EN (1u<<"@ + dec_spec(bit_of(fact_at(d, 1).fields, "USART2EN"@) as nat), ")\n"@, s);
    lemma_begins_extend(e10 + "#define USART2EN (1u<<"@, dec_spec(bit_of(fact_at(d, 1).fields, "USART2EN"@) as nat), s);
    lemma_begins_extend(e10, "#define USART2EN (1u<<"@, s);
    lemma_begins_extend(e9 + "#define GPIOAEN  (1u<<"@ + dec_spec(bit_of(fact_at(d, 0).fields, "GPIOAEN"@) as nat), ")\n"@, s);
    lemma_begins_extend(e9 + "#define GPIOAEN  (1u<<"@, dec_spec(bit_of(fact_at(d, 0).fields, "GPIOAEN"@) as nat), s);
    lemma_begins_extend(e9, "#define GPIOAEN  (1u<<"@, s);
    lemma_begins_extend(e8 + "#define USART2_CR1  REG("@ + hex_prefixed(fact_at(d, 8).absolute_address as nat), "u)\n"@, s);
    lemma_begins_extend(e8 + "#define USART2_CR1  REG("@, hex_prefixed(fact_at(d, 8).absolute_address as nat), s);
    lemma_begins_extend(e8, "#define USART2_CR1  REG("@, s);
    lemma_begins_extend(e7 + "#define USART2_BRR  REG("@ + hex_prefixed(fact_at(d, 7).absolute_address as nat), "u)\n"@, s);
    lemma_begins_extend(e7 + "#define USART2_BRR  REG("@, hex_prefixed(fact_at(d, 7).absolute_address as nat), s);
    lemma_begins_extend(e7, "#define USART2_BRR  REG("@, s);
    lemma_begins_extend(e6 + "#define USART2_DR   REG("@ + hex_prefixed(fact_at(d, 6).absolute_address as nat), "u)\n"@, s);
    lemma_begins_extend(e6 + "#define USART2_DR   REG("@, hex_prefixed(fact_at(d, 6).absolute_address as nat), s);
    lemma_begins_extend(e6, "#define USART2_DR   REG("@, s);
    lemma_begins_extend(e5 + "#define USART2_SR   REG("@ + hex_prefixed(fact_at(d, 5).absolute_address as nat), "u)\n"@, s);
    lemma_begins_extend(e5 + "#define USART2_SR   REG("@, hex_prefixed(fact_at(d, 5).absolute_address as nat), s);
    lemma_begins_extend(e5, "#define USART2_SR   REG("@, s);
    lemma_begins_extend(e4 + "#define GPIOA_AFRL  REG("@ + hex_prefixed(fact_at(d, 4).absolute_address as nat), "u)\n"@, s);
    lemma_begins_extend(e4 + "#define GPIOA_AFRL  REG("@, hex_prefixed(fact_at(d, 4).absolute_address as nat), s);
    lemma_begins_extend(e4, "#define GPIOA_AFRL  REG("@, s);
    lemma_begins_extend(e3 + "#define GPIOA_ODR   REG("@ + hex_prefixed(fact_at(d, 3).absolute_address as nat), "u)\n"@, s);
    lemma_begins_extend(e3 + "#define GPIOA_ODR   REG("@, hex_prefixed(fact_at(d, 3).absolute_address as nat), s);
    lemma_begins_extend(e3, "#define GPIOA_ODR   REG("@, s);
    lemma_begins_extend(e2 + "#define GPIOA_MODER REG("@ + hex_prefixed(fact_at(d, 2).absolute_address as nat), "u)\n"@, s);
    lemma_begins_extend(e2 + "#define GPIOA_MODER REG("@, hex_prefixed(fact_at(d, 2).absolute_address as nat), s);
    lemma_begins_extend(e2, "#define GPIOA_MODER REG("@, s);
    lemma_begins_extend(e1 + "#define RCC_APB1ENR REG("@ + hex_prefixed(fact_at(d, 1).absolute_address as nat), "u)\n"@, s);
    lemma_begins_extend(e1 + "#define RCC_APB1ENR REG("@, hex_prefixed(fact_at(d, 1).absolute_address as nat), s);
    lemma_begins_extend(e1, "#define RCC_APB1ENR REG("@, s);
    lemma_begins_extend(e0 + "#define RCC_AHB1ENR REG("@ + hex_prefixed(fact_at(d, 0).absolute_address as nat), "u)\n"@, s);
    lemma_begins_extend(e0 + "#define RCC_AHB1ENR REG("@, hex_prefixed(fact_at(d, 0).absolute_address as nat), s);
    lemma_begins_extend(e0, "#define RCC_AHB1ENR REG("@, s);
    lemma_occurs_last_three(e0, "#define RCC_AHB1ENR REG("@, hex_prefixed(fact_at(d, 0).absolute_address as nat), "u)\n"@);
    lemma_occurs_in_prefix(e1, s, "#define RCC_AHB1ENR REG("@ + hex_prefixed(fact_at(d, 0).absolute_address as nat) + "u)\n"@);
    lemma_occurs_last_three(e1, "#define RCC_APB1ENR REG("@, hex_prefixed(fact_at(d, 1).absolute_address as nat), "u)\n"@);
    lemma_occurs_in_prefix(e2, s, "#define RCC_APB1ENR REG("@ + hex_prefixed(fact_at(d, 1).absolute_address as nat) + "u)\n"@);
    lemma_occurs_last_three(e2, "#define GPIOA_MODER REG("@, hex_prefixed(fact_at(d, 2).absolute_address as nat), "u)\n"@);
    lemma_occurs_in_prefix(e3, s, "#define GPIOA_MODER REG("@ + hex_prefixed(fact_at(d, 2).absolute_address as nat) + "u)\n"@);
    lemma_occurs_last_three(e3, "#define GPIOA_ODR   REG("@, hex_prefixed(fact_at(d, 3).absolute_address as nat), "u)\n"@);
    lemma_occurs_in_prefix(e4, s, "#define GPIOA_ODR   REG("@ + hex_prefixed(fact_at(d, 3).absolute_address as nat) + "u)\n"@);
    lemma_occurs_last_three(e4, "#define GPIOA_AFRL  REG("@, hex_prefixed(fact_at(d, 4).absolute_address as nat), "u)\n"@);
    lemma_occurs_in_prefix(e5, s, "#define GPIOA_AFRL  REG("@ + hex_prefixed(fact_at(d, 4).absolute_address as nat) + "u)\n"@);
    lemma_occurs_last_three(e5, "#define USART2_SR   REG("@, hex_prefixed(fact_at(d, 5).absolute_address as nat), "u)\n"@);
    lemma_occurs_in_prefix(e6, s, "#define USART2_SR   REG("@ + hex_prefixed(fact_at(d, 5).absolute_address as nat) + "u)\n"@);
    lemma_occurs_last_three(e6, "#define USART2_DR   REG("@, hex_prefixed(fact_at(d, 6).absolute_address as nat), "u)\n"@);
    lemma_occurs_in_prefix(e7, s, "#define USART2_DR   REG("@ + hex_prefixed(fact_at(d, 6).absolute_address as nat) + "u)\n"@);
    lemma_occurs_last_three(e7, "#define USART2_BRR  REG("@, hex_prefixed(fact_at(d, 7).absolute_address as nat), "u)\n"@);
    lemma_occurs_in_prefix(e8, s, "#define USART2_BRR  REG("@ + hex_prefixed(fact_at(d, 7).absolute_address as nat) + "u)\n"@);
    lemma_occurs_last_three(e8, "#define USART2_CR1  REG("@, hex_prefixed(fact_at(d, 8).absolute_address as nat), "u)\n"@);
    lemma_occurs_in_prefix(e9, s, "#define USART2_CR1  REG("@ + hex_prefixed(fact_at(d, 8).absolute_address as nat) + "u)\n"@);
    lemma_occurs_last_three(e9, "#define GPIOAEN  (1u<<"@, dec_spec(bit_of(fact_at(d, 0).fields, "GPIOAEN"@) as nat), ")\n"@);
    lemma_occurs_in_prefix(e10, s, "#define GPIOAEN  (1u<<"@ + dec_spec(bit_of(fact_at(d, 0).fields, "GPIOAEN"@) as nat) + ")\n"@);
    lemma_occurs_last_three(e10, "#define USART2EN (1u<<"@, dec_spec(bit_of(fact_at(d, 1).fields, "USART2EN"@) as nat), ")\n"@);
    lemma_occurs_in_prefix(e11, s, "#define USART2EN (1u<<"@ + dec_spec(bit_of(fact_at(d, 1).fields, "USART2EN"@) as nat) + ")\n"@);
    lemma_occurs_last_three(e11, "#define TXE (1u<<"@, dec_spec(bit_of(fact_at(d, 5).fields, "TXE"@) as nat), ")\n"@);
    lemma_occurs_in_prefix(e12, s, "#define TXE (1u<<"@ + dec_spec(bit_of(fact_at(d, 5).fields, "TXE"@) as nat) + ")\n"@);
    lemma_occurs_last_three(e12, "#define UE  (1u<<"@, dec_spec(bit_of(fact_at(d, 8).fields, "UE"@) as nat), ")\n"@);
    lemma_occurs_in_prefix(e13, s, "#define UE  (1u<<"@ + dec_spec(bit_of(fact_at(d, 8).fields, "UE"@) as nat) + ")\n"@);
    lemma_occurs_last_three(e13, "#define TE  (1u<<"@, dec_spec(bit_of(fact_at(d, 8).fields, "TE"@) as nat), ")\n"@);
    lemma_occurs_in_prefix(e14, s, "#define TE  (1u<<"@ + dec_spec(bit_of(fact_at(d, 8).fields, "TE"@) as nat) + ")\n"@);
}

/// The synthesized firmware defines each register it uses at the address
/// that looking that register up in the datasheet gives (the peripheral's
/// base address plus the register's offset), and each bit it uses at the
/// offset of that field in that register.
pub proof fn law_synthesis_uses_the_looked_up_addresses(d: DeviceModel, source: Seq<char>)
    ensures
        forall|k: int|
            0 <= k < 9 ==> occurs_in(
                synth_source(d, source),
                #[trigger] register_line(d, register_macros()[k]),
            ),
        forall|k: int|
            0 <= k < 5 ==> occurs_in(synth_source(d, source), #[trigger] bit_line(d, bit_macros()[k])),
{
    lemma_synth_holds_each_line(d, source);
    lemma_line_is_register_line(d, 0);
    lemma_line_is_register_line(d, 1);
    lemma_line_is_register_line(d, 2);
    lemma_line_is_register_line(d, 3);
    lemma_line_is_register_line(d, 4);
    lemma_line_is_register_line(d, 5);
    lemma_line_is_register_line(d, 6);
    lemma_line_is_register_line(d, 7);
    lemma_line_is_register_line(d, 8);
    lemma_line_is_bit_line(d, 0, 0);
    lemma_line_is_bit_line(d, 1, 1);
    lemma_line_is_bit_line(d, 2, 5);
    lemma_line_is_bit_line(d, 3, 8);
    lemma_line_is_bit_line(d, 4, 8);
    assert forall|k: int| 0 <= k < 9 implies occurs_in(synth_source(d, source), #[trigger] register_line(d, register_macros()[k])) by {
        if k == 0 {} else if k == 1 {} else if k == 2 {} else if k == 3 {} else if k == 4 {} else if k == 5 {} else if k == 6 {} else if k == 7 {} else {}
    }
    assert forall|k: int| 0 <= k < 5 implies occurs_in(synth_source(d, source), #[trigger] bit_line(d, bit_macros()[k])) by {
        if k == 0 {} else if k == 1 {} else if k == 2 {} else if k == 3 {} else {}
    }
}

} // verus!

verus! {

/// Each citation of a grounded synthesis names, in order, the register it
/// cites, with the address that looking that register up gives, and the
/// datasheet it comes from.
pub proof fn law_citations_name_the_looked_up_registers(d: DeviceModel, source: Seq<char>, k: int)
    requires
        0 <= k < 9,
    ensures
        ({
            let c = blink_citations(d, source)[k];
            let m = register_macros()[k];
            &&& blink_citations(d, source).len() == 9
            &&& c.source == source
            &&& c.summary == m.1 + "."@ + m.2 + " @ 0x"@ + hex_pad_spec(
                register_address(d, m.1, m.2) as nat,
                8,
            )
        }),
{
    lemma_fact_address(d, k);
}

/// The model is always shown the goal and the grounded facts, and after a
/// failed simulation the fault it reported.
pub proof fn law_prompt_shows_goal_facts_and_fault(brief: Seq<char>, ctx: ContextView)
    ensures
        occurs_in(user_prompt_spec(brief, ctx), ctx.goal),
        occurs_in(user_prompt_spec(brief, ctx), brief),
        ctx.sim_fault matches Some(f) ==> occurs_in(user_prompt_spec(brief, ctx), f),
{
    let p = user_prompt_spec(brief, ctx);
    let fb = if ctx.compile_diagnostics.len() > 0 {
        "\nYour previous draft FAILED TO COMPILE. Fix exactly these compiler diagnostics and return the corrected full file:\n"@
            + diagnostic_lines(ctx.compile_diagnostics)
    } else {
        Seq::empty()
    };
    let tail = match ctx.sim_fault {
        Some(f) => "\nYour previous draft compiled but simulation did not observe the banner (fault: "@
            + f
            + "). Make sure USART2 is fully initialized and every byte of `Hello from Embeder\\r\\n` is written to USART2_DR after TXE is set.\n"@,
        None => Seq::empty(),
    };
    let g1 = "Goal: "@;
    let g2 = "\n\nAuthoritative grounded register facts:\n"@;
    assert(p =~= g1 + ctx.goal + (g2 + brief + "\n"@ + fb + tail));
    lemma_occurs_between(g1, ctx.goal, g2 + brief + "\n"@ + fb + tail);
    assert(p =~= (g1 + ctx.goal + g2) + brief + ("\n"@ + fb + tail));
    lemma_occurs_between(g1 + ctx.goal + g2, brief, "\n"@ + fb + tail);
    if let Some(f) = ctx.sim_fault {
        let h = "\nYour previous draft compiled but simulation did not observe the banner (fault: "@;
        let t = "). Make sure USART2 is fully initialized and every byte of `Hello from Embeder\\r\\n` is written to USART2_DR after TXE is set.\n"@;
        assert(p =~= (g1 + ctx.goal + g2 + brief + "\n"@ + fb + h) + f + t);
        lemma_occurs_between(g1 + ctx.goal + g2 + brief + "\n"@ + fb + h, f, t);
    }
}

} // verus!
