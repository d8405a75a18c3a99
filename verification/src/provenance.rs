//! Provenance: every consequential action the loop takes is described by an
//! entry so a VERIFIED artifact is auditable and reproducible from its inputs
//! and named oracle versions. Hosts append the entries to their ledger.

use vstd::prelude::*;
use crate::json::{push_quoted, quote_spec};
use crate::num::{dec_spec, hex_pad_spec, push_dec, push_hex_pad};
use crate::text::{chars_of, push_str, string_of};

verus! {

/// The value std's `DefaultHasher` gives a string: the hasher that
/// `BuildHasherDefault<DefaultHasher>` builds is `DefaultHasher::new`, whose
/// keys are fixed, so the value depends on the text alone (for a given std
/// release; std leaves the algorithm itself unspecified).
pub uninterp spec fn std_hash(s: Seq<char>) -> u64;

/// std's `BuildHasher::hash_one` with `BuildHasherDefault<DefaultHasher>` on a
/// string: the contract claims only that the result is `std_hash` of the text.
#[verifier::external_body]
fn default_hash(s: &str) -> (h: u64)
    ensures
        h == std_hash(s@),
{
    std::hash::BuildHasher::hash_one(
        &std::hash::BuildHasherDefault::<std::collections::hash_map::DefaultHasher>::default(),
        s,
    )
}

/// The fingerprint of a text: its std hash as 16 lower-case hex digits.
pub open spec fn fingerprint(s: Seq<char>) -> Seq<char> {
    hex_pad_spec(std_hash(s) as nat, 16)
}

/// A short change fingerprint: the 64-bit std hash of `s` as 16 lower-case hex
/// digits.
pub fn short_hash(s: &str) -> (r: String)
    ensures
        r@ == fingerprint(s@),
{
    let h = default_hash(s);
    let mut out: Vec<char> = Vec::new();
    push_hex_pad(&mut out, h, 16);
    assert(out@ =~= hex_pad_spec(h as nat, 16));
    string_of(&out)
}

/// One consequential action, as the loop describes it to the ledger.
#[derive(Debug, Clone)]
pub struct ProvenanceEntry {
    /// "oracle" | "user" | "model"
    pub actor: String,
    /// "ground" | "compile" | "simulate" | "verify"
    pub tool: String,
    pub inputs: String,
    pub outputs: String,
    pub tier: Option<String>,
    pub oracle_version: String,
    /// a raw JSON fragment
    pub detail: String,
}

#[verifier::ext_equal]
pub struct EntryView {
    pub actor: Seq<char>,
    pub tool: Seq<char>,
    pub inputs: Seq<char>,
    pub outputs: Seq<char>,
    pub tier: Option<Seq<char>>,
    pub oracle_version: Seq<char>,
    pub detail: Seq<char>,
}

impl View for ProvenanceEntry {
    type V = EntryView;

    open spec fn view(&self) -> EntryView {
        EntryView {
            actor: self.actor@,
            tool: self.tool@,
            inputs: self.inputs@,
            outputs: self.outputs@,
            tier: self.tier.deep_view(),
            oracle_version: self.oracle_version@,
            detail: self.detail@,
        }
    }
}

pub open spec fn entries_view(v: Seq<ProvenanceEntry>) -> Seq<EntryView> {
    v.map_values(|e: ProvenanceEntry| e@)
}

/// One line of the ledger. `ts` is the time of the action as the host
/// printed it (seconds since the Unix epoch).
#[derive(Debug, Clone)]
pub struct ProvenanceRecord {
    pub id: String,
    pub ts: String,
    /// "oracle" | "user" | "model"
    pub actor: String,
    /// "compile" | "simulate" | "verify"
    pub tool: String,
    pub inputs_hash: String,
    pub outputs_hash: String,
    pub tier: Option<String>,
    pub oracle_version: String,
    /// a raw JSON fragment supplied by the caller
    pub detail: String,
}

#[verifier::ext_equal]
pub struct RecordView {
    pub id: Seq<char>,
    pub ts: Seq<char>,
    pub actor: Seq<char>,
    pub tool: Seq<char>,
    pub inputs_hash: Seq<char>,
    pub outputs_hash: Seq<char>,
    pub tier: Option<Seq<char>>,
    pub oracle_version: Seq<char>,
    pub detail: Seq<char>,
}

impl View for ProvenanceRecord {
    type V = RecordView;

    open spec fn view(&self) -> RecordView {
        RecordView {
            id: self.id@,
            ts: self.ts@,
            actor: self.actor@,
            tool: self.tool@,
            inputs_hash: self.inputs_hash@,
            outputs_hash: self.outputs_hash@,
            tier: self.tier.deep_view(),
            oracle_version: self.oracle_version@,
            detail: self.detail@,
        }
    }
}

pub open spec fn records_view(v: Seq<ProvenanceRecord>) -> Seq<RecordView> {
    v.map_values(|r: ProvenanceRecord| r@)
}

/// The JSON object of a ledger line: strings quoted, the time and the detail
/// as they are, and a missing tier as `null`.
pub open spec fn record_json(r: RecordView) -> Seq<char> {
    "{\"id\":"@ + quote_spec(r.id) + ",\"ts\":"@ + r.ts + ",\"actor\":"@ + quote_spec(r.actor)
        + ",\"tool\":"@ + quote_spec(r.tool) + ",\"inputs_hash\":"@ + quote_spec(r.inputs_hash)
        + ",\"outputs_hash\":"@ + quote_spec(r.outputs_hash) + ",\"tier\":"@ + (match r.tier {
        Some(t) => quote_spec(t),
        None => "null"@,
    }) + ",\"oracle_version\":"@ + quote_spec(r.oracle_version) + ",\"detail\":"@ + r.detail
        + "}"@
}

impl ProvenanceRecord {
    /// The record as one JSON line.
    pub fn to_json(&self) -> (r: String)
        ensures
            r@ == record_json(self@),
    {
        let mut out: Vec<char> = Vec::new();
        push_str(&mut out, "{\"id\":");
        push_quoted(&mut out, &chars_of(self.id.as_str()));
        push_str(&mut out, ",\"ts\":");
        push_str(&mut out, self.ts.as_str());
        push_str(&mut out, ",\"actor\":");
        push_quoted(&mut out, &chars_of(self.actor.as_str()));
        push_str(&mut out, ",\"tool\":");
        push_quoted(&mut out, &chars_of(self.tool.as_str()));
        push_str(&mut out, ",\"inputs_hash\":");
        push_quoted(&mut out, &chars_of(self.inputs_hash.as_str()));
        push_str(&mut out, ",\"outputs_hash\":");
        push_quoted(&mut out, &chars_of(self.outputs_hash.as_str()));
        push_str(&mut out, ",\"tier\":");
        match &self.tier {
            Some(t) => push_quoted(&mut out, &chars_of(t.as_str())),
            None => push_str(&mut out, "null"),
        }
        push_str(&mut out, ",\"oracle_version\":");
        push_quoted(&mut out, &chars_of(self.oracle_version.as_str()));
        push_str(&mut out, ",\"detail\":");
        push_str(&mut out, self.detail.as_str());
        push_str(&mut out, "}");
        assert(out@ =~= record_json(self@));
        string_of(&out)
    }
}

/// The ledger's records, in the order the actions happened, and how many
/// actions it has numbered.
pub struct ProvenanceLedger {
    pub counter: u64,
    pub records: Vec<ProvenanceRecord>,
}

impl ProvenanceLedger {
    /// An empty ledger.
    pub fn new() -> (r: ProvenanceLedger)
        ensures
            r.counter == 0,
            r.records@.len() == 0,
    {
        ProvenanceLedger { counter: 0, records: Vec::new() }
    }

    /// Appends the record of one action taken at time `ts` and returns it
    /// with its JSON line: the action is numbered next, its id fingerprints
    /// the time, number and tool, and its inputs and outputs are kept as
    /// fingerprints.
    pub fn record(
        &mut self,
        ts: &str,
        actor: &str,
        tool: &str,
        inputs: &str,
        outputs: &str,
        tier: Option<&str>,
        oracle_version: &str,
        detail: &str,
    ) -> (r: (String, String))
        requires
            old(self).counter < u64::MAX,
        ensures
            final(self).counter == old(self).counter + 1,
            records_view(final(self).records@) == records_view(old(self).records@).push(
                final(self).records@.last()@,
            ),
            ({
                let rec = final(self).records@.last()@;
                &&& rec.id == r.0@
                &&& rec.ts == ts@
                &&& rec.actor == actor@
                &&& rec.tool == tool@
                &&& rec.tier == (match tier {
                    Some(t) => Some(t@),
                    None => None,
                })
                &&& rec.oracle_version == oracle_version@
                &&& rec.detail == detail@
                &&& rec.id == fingerprint(
                    ts@ + "-"@ + dec_spec(final(self).counter as nat) + "-"@ + tool@,
                )
                &&& rec.inputs_hash == fingerprint(inputs@)
                &&& rec.outputs_hash == fingerprint(outputs@)
                &&& r.1@ == record_json(rec)
            }),
    {
        self.counter = self.counter + 1;
        let mut key: Vec<char> = chars_of(ts);
        push_str(&mut key, "-");
        push_dec(&mut key, self.counter);
        push_str(&mut key, "-");
        push_str(&mut key, tool);
        assert(key@ =~= ts@ + "-"@ + dec_spec(self.counter as nat) + "-"@ + tool@);
        let id = short_hash(string_of(&key).as_str());
        let rec = ProvenanceRecord {
            id: id.clone(),
            ts: ts.to_owned(),
            actor: actor.to_owned(),
            tool: tool.to_owned(),
            inputs_hash: short_hash(inputs),
            outputs_hash: short_hash(outputs),
            tier: match tier {
                Some(t) => Some(t.to_owned()),
                None => None,
            },
            oracle_version: oracle_version.to_owned(),
            detail: detail.to_owned(),
        };
        let line = rec.to_json();
        let ghost before = records_view(self.records@);
        self.records.push(rec);
        assert(records_view(self.records@) =~= before.push(self.records@.last()@));
        (id, line)
    }
}

} // verus!
