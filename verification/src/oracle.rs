//! The oracle contracts. A firmware draft is only ever advanced by a
//! deterministic oracle: a compiler (`CompileOracle`) and a simulator
//! (`SimOracle`). Fixtures and real toolchains are interchangeable
//! implementations of these traits.

use vstd::prelude::*;
use crate::json::strings_view;
use crate::num::{dec_spec, push_dec};
use crate::text::{push_str, str_eq, string_of};
use crate::tiers::VerifiabilityBoundary;

verus! {

/// A copy of an optional string.
pub fn dup_opt(o: &Option<String>) -> (r: Option<String>)
    ensures
        r.deep_view() == o.deep_view(),
{
    match o {
        Some(s) => Some(s.clone()),
        None => None,
    }
}

/// A copy of a list of strings.
pub fn dup_strings(v: &Vec<String>) -> (r: Vec<String>)
    ensures
        strings_view(r@) == strings_view(v@),
{
    let mut r: Vec<String> = Vec::new();
    let mut i: usize = 0;
    while i < v.len()
        invariant
            i <= v.len(),
            r@.len() == i,
            forall|j: int| 0 <= j < i ==> #[trigger] r@[j]@ == v@[j]@,
        decreases v.len() - i,
    {
        r.push(v[i].clone());
        i += 1;
    }
    assert(strings_view(r@) =~= strings_view(v@));
    r
}

/// The character views of a list of string pairs.
pub open spec fn pairs_view(v: Seq<(String, String)>) -> Seq<(Seq<char>, Seq<char>)> {
    v.map_values(|p: (String, String)| (p.0@, p.1@))
}

/// One structured compiler diagnostic (never free text: the diagnostics feed
/// the next codegen attempt, which is what makes self-healing possible).
#[derive(Debug, Clone)]
pub struct Diagnostic {
    /// "error" | "warning" | "note"
    pub severity: String,
    pub message: String,
    pub file: Option<String>,
    pub line: Option<u32>,
    pub col: Option<u32>,
    pub raw: String,
}

#[verifier::ext_equal]
pub struct DiagnosticView {
    pub severity: Seq<char>,
    pub message: Seq<char>,
    pub file: Option<Seq<char>>,
    pub line: Option<u32>,
    pub col: Option<u32>,
    pub raw: Seq<char>,
}

impl View for Diagnostic {
    type V = DiagnosticView;

    open spec fn view(&self) -> DiagnosticView {
        DiagnosticView {
            severity: self.severity@,
            message: self.message@,
            file: self.file.deep_view(),
            line: self.line,
            col: self.col,
            raw: self.raw@,
        }
    }
}

/// The views of a list of diagnostics.
pub open spec fn diags_view(v: Seq<Diagnostic>) -> Seq<DiagnosticView> {
    v.map_values(|d: Diagnostic| d@)
}

/// The compact single-line form of a diagnostic fed back to the model on retry:
/// `file[:line][:col]: severity: message`, or `severity: message` with no file.
pub open spec fn context_spec(d: DiagnosticView) -> Seq<char> {
    let loc = match d.file {
        Some(f) => f + (match d.line {
            Some(l) => seq![':'] + dec_spec(l as nat),
            None => Seq::empty(),
        }) + (match d.col {
            Some(c) => seq![':'] + dec_spec(c as nat),
            None => Seq::empty(),
        }) + ": "@,
        None => Seq::empty(),
    };
    loc + d.severity + ": "@ + d.message
}

/// Only the diagnostics whose severity is "error", in order.
pub open spec fn errors_spec(v: Seq<DiagnosticView>) -> Seq<DiagnosticView>
    decreases v.len(),
{
    if v.len() == 0 {
        Seq::empty()
    } else if v.last().severity == "error"@ {
        errors_spec(v.drop_last()).push(v.last())
    } else {
        errors_spec(v.drop_last())
    }
}

impl Diagnostic {
    /// A field-by-field copy.
    pub fn duplicate(&self) -> (r: Diagnostic)
        ensures
            r@ == self@,
    {
        Diagnostic {
            severity: self.severity.clone(),
            message: self.message.clone(),
            file: dup_opt(&self.file),
            line: self.line,
            col: self.col,
            raw: self.raw.clone(),
        }
    }

    /// Compact single-line form fed back into the model's context on retry.
    pub fn as_context(&self) -> (r: String)
        ensures
            r@ == context_spec(self@),
    {
        let mut out: Vec<char> = Vec::new();
        if let Some(f) = &self.file {
            push_str(&mut out, f.as_str());
            if let Some(l) = self.line {
                out.push(':');
                push_dec(&mut out, l as u64);
            }
            if let Some(c) = self.col {
                out.push(':');
                push_dec(&mut out, c as u64);
            }
            push_str(&mut out, ": ");
        }
        push_str(&mut out, self.severity.as_str());
        push_str(&mut out, ": ");
        push_str(&mut out, self.message.as_str());
        assert(out@ =~= context_spec(self@));
        string_of(&out)
    }
}

/// Where a grounded fact came from: a source document, a locator inside it,
/// and a one-line summary of the fact.
#[derive(Debug, Clone)]
pub struct SourceRef {
    pub source: String,
    pub locator: String,
    pub summary: String,
}

#[verifier::ext_equal]
pub struct SourceRefView {
    pub source: Seq<char>,
    pub locator: Seq<char>,
    pub summary: Seq<char>,
}

impl View for SourceRef {
    type V = SourceRefView;

    open spec fn view(&self) -> SourceRefView {
        SourceRefView { source: self.source@, locator: self.locator@, summary: self.summary@ }
    }
}

pub open spec fn refs_view(v: Seq<SourceRef>) -> Seq<SourceRefView> {
    v.map_values(|r: SourceRef| r@)
}

/// The one-line form of a citation: `source::locator (summary)`.
pub open spec fn source_line_spec(r: SourceRefView) -> Seq<char> {
    r.source + "::"@ + r.locator + " ("@ + r.summary + ")"@
}

impl SourceRef {
    pub fn new(source: &str, locator: &str, summary: &str) -> (r: SourceRef)
        ensures
            r@ == (SourceRefView { source: source@, locator: locator@, summary: summary@ }),
    {
        SourceRef {
            source: source.to_owned(),
            locator: locator.to_owned(),
            summary: summary.to_owned(),
        }
    }

    pub fn duplicate(&self) -> (r: SourceRef)
        ensures
            r@ == self@,
    {
        SourceRef {
            source: self.source.clone(),
            locator: self.locator.clone(),
            summary: self.summary.clone(),
        }
    }

    /// One-line form of the citation, recorded in provenance.
    pub fn as_line(&self) -> (r: String)
        ensures
            r@ == source_line_spec(self@),
    {
        let mut out: Vec<char> = Vec::new();
        push_str(&mut out, self.source.as_str());
        push_str(&mut out, "::");
        push_str(&mut out, self.locator.as_str());
        push_str(&mut out, " (");
        push_str(&mut out, self.summary.as_str());
        push_str(&mut out, ")");
        assert(out@ =~= source_line_spec(self@));
        string_of(&out)
    }
}

/// A copy of a list of citations.
pub fn dup_refs(v: &Vec<SourceRef>) -> (r: Vec<SourceRef>)
    ensures
        refs_view(r@) == refs_view(v@),
{
    let mut r: Vec<SourceRef> = Vec::new();
    let mut i: usize = 0;
    while i < v.len()
        invariant
            i <= v.len(),
            r@.len() == i,
            forall|j: int| 0 <= j < i ==> #[trigger] r@[j]@ == v@[j]@,
        decreases v.len() - i,
    {
        r.push(v[i].duplicate());
        i += 1;
    }
    assert(refs_view(r@) =~= refs_view(v@));
    r
}

/// A candidate firmware, produced by codegen (the model stand-in).
#[derive(Debug, Clone)]
pub struct FirmwareDraft {
    /// e.g. "stm32f4-discovery"
    pub target: String,
    /// e.g. "main.c"
    pub entry: String,
    /// (relative path, source)
    pub files: Vec<(String, String)>,
    /// The grounded facts this draft was built on.
    pub citations: Vec<SourceRef>,
}

impl FirmwareDraft {
    pub fn new(target: &str, entry: &str, files: Vec<(String, String)>) -> (r: FirmwareDraft)
        ensures
            r.target@ == target@,
            r.entry@ == entry@,
            r.files == files,
            r.citations@.len() == 0,
    {
        FirmwareDraft {
            target: target.to_owned(),
            entry: entry.to_owned(),
            files,
            citations: Vec::new(),
        }
    }

    pub fn with_citations(self, citations: Vec<SourceRef>) -> (r: FirmwareDraft)
        ensures
            r.target == self.target,
            r.entry == self.entry,
            r.files == self.files,
            r.citations == citations,
    {
        FirmwareDraft { citations, ..self }
    }
}

/// Result of a compile attempt.
#[derive(Debug, Clone)]
pub struct CompileResult {
    pub ok: bool,
    pub diagnostics: Vec<Diagnostic>,
    pub stdout: String,
    pub stderr: String,
    /// Some(ELF) only when ok
    pub artifact_path: Option<String>,
    /// named version, for provenance
    pub toolchain: String,
    pub toolchain_available: bool,
}

/// The views of a list of diagnostic references.
pub open spec fn diag_refs_view(v: Seq<&Diagnostic>) -> Seq<DiagnosticView> {
    v.map_values(|d: &Diagnostic| d@)
}

impl CompileResult {
    /// The diagnostics whose severity is "error", in order.
    pub fn errors(&self) -> (r: Vec<&Diagnostic>)
        ensures
            diag_refs_view(r@) == errors_spec(diags_view(self.diagnostics@)),
    {
        let mut r: Vec<&Diagnostic> = Vec::new();
        let mut i: usize = 0;
        let ghost all = diags_view(self.diagnostics@);
        while i < self.diagnostics.len()
            invariant
                i <= self.diagnostics.len(),
                all == diags_view(self.diagnostics@),
                diag_refs_view(r@) == errors_spec(all.subrange(0, i as int)),
            decreases self.diagnostics.len() - i,
        {
            let d = &self.diagnostics[i];
            proof {
                let t = all.subrange(0, i + 1);
                assert(t.drop_last() =~= all.subrange(0, i as int));
                assert(t.last() == d@);
            }
            if str_eq(d.severity.as_str(), "error") {
                r.push(d);
            }
            i += 1;
            assert(diag_refs_view(r@) =~= errors_spec(all.subrange(0, i as int)));
        }
        assert(all.subrange(0, self.diagnostics.len() as int) =~= all);
        r
    }

    /// Copies of the diagnostics whose severity is "error", in order.
    pub fn error_copies(&self) -> (r: Vec<Diagnostic>)
        ensures
            diags_view(r@) == errors_spec(diags_view(self.diagnostics@)),
    {
        let errs = self.errors();
        let mut r: Vec<Diagnostic> = Vec::new();
        let mut i: usize = 0;
        while i < errs.len()
            invariant
                i <= errs.len(),
                r@.len() == i,
                forall|j: int| 0 <= j < i ==> #[trigger] r@[j]@ == errs@[j]@,
            decreases errs.len() - i,
        {
            r.push(errs[i].duplicate());
            i += 1;
        }
        assert(diags_view(r@) =~= diag_refs_view(errs@));
        r
    }
}

/// Result of a simulation run.
#[derive(Debug, Clone)]
pub struct SimResult {
    pub ok: bool,
    pub boundary: VerifiabilityBoundary,
    /// e.g. ("uart", "Hello...")
    pub observations: Vec<(String, String)>,
    pub log: String,
    /// named version, for provenance
    pub engine: String,
    pub engine_available: bool,
    pub fault: Option<String>,
}

/// A deterministic build oracle.
pub trait CompileOracle {
    /// Whether `r` is a build result this oracle may give for draft `d`. An
    /// oracle that states nothing of its results may give any.
    open spec fn compiles(&self, d: DraftView, r: CompileView) -> bool {
        true
    }

    fn name(&self) -> &str;

    fn compile(&self, draft: &FirmwareDraft) -> (r: CompileResult)
        ensures
            self.compiles(draft@, r@),
    ;
}

/// A deterministic simulation oracle.
pub trait SimOracle {
    /// Whether `r` is a simulation result this oracle may give for the
    /// artifact at `artifact_path` on `target`. An oracle that states nothing
    /// of its results may give any.
    open spec fn simulates(&self, artifact_path: Seq<char>, target: Seq<char>, r: SimView) -> bool {
        true
    }

    fn name(&self) -> &str;

    fn simulate(&self, artifact_path: &str, target: &str) -> (r: SimResult)
        ensures
            self.simulates(artifact_path@, target@, r@),
    ;
}

} // verus!

verus! {

#[verifier::ext_equal]
pub struct DraftView {
    pub target: Seq<char>,
    pub entry: Seq<char>,
    pub files: Seq<(Seq<char>, Seq<char>)>,
    pub citations: Seq<SourceRefView>,
}

impl View for FirmwareDraft {
    type V = DraftView;

    open spec fn view(&self) -> DraftView {
        DraftView {
            target: self.target@,
            entry: self.entry@,
            files: pairs_view(self.files@),
            citations: refs_view(self.citations@),
        }
    }
}

#[verifier::ext_equal]
pub struct CompileView {
    pub ok: bool,
    pub diagnostics: Seq<DiagnosticView>,
    pub stdout: Seq<char>,
    pub stderr: Seq<char>,
    pub artifact_path: Option<Seq<char>>,
    pub toolchain: Seq<char>,
    pub toolchain_available: bool,
}

impl View for CompileResult {
    type V = CompileView;

    open spec fn view(&self) -> CompileView {
        CompileView {
            ok: self.ok,
            diagnostics: diags_view(self.diagnostics@),
            stdout: self.stdout@,
            stderr: self.stderr@,
            artifact_path: self.artifact_path.deep_view(),
            toolchain: self.toolchain@,
            toolchain_available: self.toolchain_available,
        }
    }
}

#[verifier::ext_equal]
pub struct SimView {
    pub ok: bool,
    pub boundary: crate::tiers::BoundaryView,
    pub observations: Seq<(Seq<char>, Seq<char>)>,
    pub log: Seq<char>,
    pub engine: Seq<char>,
    pub engine_available: bool,
    pub fault: Option<Seq<char>>,
}

impl View for SimResult {
    type V = SimView;

    open spec fn view(&self) -> SimView {
        SimView {
            ok: self.ok,
            boundary: self.boundary@,
            observations: pairs_view(self.observations@),
            log: self.log@,
            engine: self.engine@,
            engine_available: self.engine_available,
            fault: self.fault.deep_view(),
        }
    }
}

impl VerifiabilityBoundary {
    /// A field-by-field copy.
    pub fn duplicate(&self) -> (r: VerifiabilityBoundary)
        ensures
            r@ == self@,
    {
        VerifiabilityBoundary {
            verified: dup_strings(&self.verified),
            stubbed: dup_strings(&self.stubbed),
            not_modeled: dup_strings(&self.not_modeled),
        }
    }
}

} // verus!
