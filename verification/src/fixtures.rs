//! In-process fixture oracles: deterministic stand-ins for `arm-none-eabi-gcc`
//! and Renode so the loop runs without toolchains installed. The fixture
//! compiler emits authentic gcc-style stderr and parses it with the real
//! parser, so the loop consumes genuinely structured diagnostics.

use vstd::prelude::*;
use crate::gcc::{gcc_spec, lines_spec, lines_view, parse_gcc_stderr, split_lines};
use crate::num::{dec_spec, push_dec};
use crate::oracle::{
    pairs_view, CompileOracle, CompileResult, CompileView, DraftView, FirmwareDraft,
    SimOracle, SimResult, SimView,
};
use crate::text::{chars_of, contains, contains_spec, push_str, str_eq, string_of};
use crate::tiers::{BoundaryView, VerifiabilityBoundary};

verus! {

/// A source containing this marker "fails to compile" deterministically.
pub const BUG_MARKER: &'static str = "/* BUG */";

pub struct FixtureCompileOracle;

/// The source of the entry file: the first file whose path is the entry.
pub open spec fn entry_source(d: DraftView) -> Seq<char>
    decreases d.files.len(),
{
    if d.files.len() == 0 {
        Seq::empty()
    } else if d.files[0].0 == d.entry {
        d.files[0].1
    } else {
        entry_source(DraftView { files: d.files.drop_first(), ..d })
    }
}

/// Index of the first line that contains `p`.
pub open spec fn first_line_with(ls: Seq<Seq<char>>, p: Seq<char>) -> Option<nat>
    decreases ls.len(),
{
    if ls.len() == 0 {
        None
    } else if contains_spec(ls[0], p) {
        Some(0)
    } else {
        match first_line_with(ls.drop_first(), p) {
            Some(i) => Some(i + 1),
            None => None,
        }
    }
}

/// The 1-based line of the bug marker (1 when no line holds it).
pub open spec fn bug_line(src: Seq<char>) -> nat {
    match first_line_with(lines_spec(src), "/* BUG */"@) {
        Some(i) => i + 1,
        None => 1,
    }
}

/// The gcc-style stderr the fixture compiler emits for a buggy entry.
pub open spec fn bug_stderr(entry: Seq<char>, n: nat) -> Seq<char> {
    entry + ":"@ + dec_spec(n) + ":5: error: expected ';' before '}' token\n"@ + entry + ":"@
        + dec_spec(n) + ":5: note: to match this '{'\n"@
}

/// What the fixture compiler returns for a draft: a failed build with parsed
/// diagnostics when the entry holds the bug marker, otherwise a clean build of
/// `/virtual/<target>.elf`.
pub open spec fn fixture_compile_spec(d: DraftView) -> CompileView {
    let src = entry_source(d);
    if contains_spec(src, "/* BUG */"@) {
        let stderr = bug_stderr(d.entry, bug_line(src));
        CompileView {
            ok: false,
            diagnostics: gcc_spec(stderr),
            stdout: Seq::empty(),
            stderr,
            artifact_path: None,
            toolchain: "fixture-gcc 0.0"@,
            toolchain_available: true,
        }
    } else {
        CompileView {
            ok: true,
            diagnostics: Seq::empty(),
            stdout: Seq::empty(),
            stderr: Seq::empty(),
            artifact_path: Some("/virtual/"@ + d.target + ".elf"@),
            toolchain: "fixture-gcc 0.0"@,
            toolchain_available: true,
        }
    }
}

fn entry_source_exec(d: &FirmwareDraft) -> (r: Vec<char>)
    ensures
        r@ == entry_source(d@),
{
    let mut i: usize = 0;
    assert(DraftView { files: d@.files.subrange(0, d@.files.len() as int), ..d@ } =~= d@);
    while i < d.files.len()
        invariant
            i <= d.files.len(),
            entry_source(d@) == entry_source(DraftView { files: d@.files.subrange(i as int, d@.files.len() as int), ..d@ }),
        decreases d.files.len() - i,
    {
        let ghost rest = DraftView { files: d@.files.subrange(i as int, d@.files.len() as int), ..d@ };
        if str_eq(d.files[i].0.as_str(), d.entry.as_str()) {
            assert(rest.files[0] == d@.files[i as int]);
            return chars_of(d.files[i].1.as_str());
        }
        proof {
            assert(rest.files.drop_first() =~= d@.files.subrange(i + 1, d@.files.len() as int));
            assert(DraftView { files: rest.files.drop_first(), ..rest } == DraftView { files: d@.files.subrange(i + 1, d@.files.len() as int), ..d@ });
        }
        i += 1;
    }
    let ghost rest = DraftView { files: d@.files.subrange(i as int, d@.files.len() as int), ..d@ };
    assert(rest.files.len() == 0);
    Vec::new()
}

fn bug_line_exec(src: &Vec<char>) -> (n: u64)
    ensures
        n as nat == bug_line(src@),
{
    let lines = split_lines(src);
    let marker = chars_of(BUG_MARKER);
    let ghost ls = lines_view(lines@);
    let mut i: usize = 0;
    assert(ls.subrange(0, ls.len() as int) =~= ls);
    while i < lines.len()
        invariant
            i <= lines.len(),
            ls == lines_view(lines@),
            ls == lines_spec(src@),
            marker@ == "/* BUG */"@,
            first_line_with(ls, marker@) == match first_line_with(ls.subrange(i as int, ls.len() as int), marker@) {
                Some(k) => Some((k + i) as nat),
                None => None::<nat>,
            },
        decreases lines.len() - i,
    {
        let ghost rest = ls.subrange(i as int, ls.len() as int);
        assert(rest[0] == lines@[i as int]@);
        if contains(&lines[i], &marker) {
            return (i as u64) + 1;
        }
        assert(rest.drop_first() =~= ls.subrange(i + 1, ls.len() as int));
        i += 1;
    }
    1
}

impl FixtureCompileOracle {
    /// The fixture build: exactly [`fixture_compile_spec`].
    pub fn build(&self, draft: &FirmwareDraft) -> (r: CompileResult)
        ensures
            r@ == fixture_compile_spec(draft@),
    {
        let src = entry_source_exec(draft);
        let marker = chars_of(BUG_MARKER);
        if contains(&src, &marker) {
            let n = bug_line_exec(&src);
            let mut err: Vec<char> = Vec::new();
            push_str(&mut err, draft.entry.as_str());
            push_str(&mut err, ":");
            push_dec(&mut err, n);
            push_str(&mut err, ":5: error: expected ';' before '}' token\n");
            push_str(&mut err, draft.entry.as_str());
            push_str(&mut err, ":");
            push_dec(&mut err, n);
            push_str(&mut err, ":5: note: to match this '{'\n");
            let stderr = string_of(&err);
            let diagnostics = parse_gcc_stderr(stderr.as_str());
            let r = CompileResult {
                ok: false,
                diagnostics,
                stdout: String::new(),
                stderr,
                artifact_path: None,
                toolchain: "fixture-gcc 0.0".to_owned(),
                toolchain_available: true,
            };
            assert(r@ =~= fixture_compile_spec(draft@));
            return r;
        }
        let mut path: Vec<char> = Vec::new();
        push_str(&mut path, "/virtual/");
        push_str(&mut path, draft.target.as_str());
        push_str(&mut path, ".elf");
        let r = CompileResult {
            ok: true,
            diagnostics: Vec::new(),
            stdout: String::new(),
            stderr: String::new(),
            artifact_path: Some(string_of(&path)),
            toolchain: "fixture-gcc 0.0".to_owned(),
            toolchain_available: true,
        };
        assert(r@ =~= fixture_compile_spec(draft@));
        r
    }
}

impl CompileOracle for FixtureCompileOracle {
    open spec fn compiles(&self, d: DraftView, r: CompileView) -> bool {
        r == fixture_compile_spec(d)
    }

    fn name(&self) -> (r: &str)
        ensures
            r@ == "fixture-gcc"@,
    {
        "fixture-gcc"
    }

    fn compile(&self, draft: &FirmwareDraft) -> (r: CompileResult)
        ensures
            r@ == fixture_compile_spec(draft@),
    {
        self.build(draft)
    }
}

pub struct FixtureSimOracle;

/// The honest boundary for an STM32 blink+UART: digital behaviour is modeled,
/// analog is stubbed, wireless/RF is out of scope entirely.
pub open spec fn stm32_boundary_spec() -> BoundaryView {
    BoundaryView {
        verified: seq!["cpu_boot"@, "register_init"@, "gpio_toggle"@, "uart_tx"@],
        stubbed: seq!["adc_values"@],
        not_modeled: seq!["wifi"@, "ble"@, "rf"@, "real_analog"@],
    }
}

/// What the fixture simulator returns for any artifact: a passing run.
pub open spec fn fixture_sim_spec() -> SimView {
    SimView {
        ok: true,
        boundary: stm32_boundary_spec(),
        observations: seq![("gpio_toggles"@, "5"@), ("uart"@, "Hello from Embeder"@)],
        log: "fixture: booted ELF; PA5 toggled 5x; USART2 TX captured"@,
        engine: "fixture-renode 0.0"@,
        engine_available: true,
        fault: None,
    }
}

/// The full STM32F4 blink+UART boundary.
pub fn stm32_boundary() -> (b: VerifiabilityBoundary)
    ensures
        b@ == stm32_boundary_spec(),
{
    let b = VerifiabilityBoundary {
        verified: vec![
            "cpu_boot".to_owned(),
            "register_init".to_owned(),
            "gpio_toggle".to_owned(),
            "uart_tx".to_owned(),
        ],
        stubbed: vec!["adc_values".to_owned()],
        not_modeled: vec![
            "wifi".to_owned(),
            "ble".to_owned(),
            "rf".to_owned(),
            "real_analog".to_owned(),
        ],
    };
    assert(b@ =~= stm32_boundary_spec());
    b
}

impl FixtureSimOracle {
    /// The fixture run: exactly [`fixture_sim_spec`].
    pub fn run(&self) -> (r: SimResult)
        ensures
            r@ == fixture_sim_spec(),
    {
        let r = SimResult {
            ok: true,
            boundary: stm32_boundary(),
            observations: vec![
                ("gpio_toggles".to_owned(), "5".to_owned()),
                ("uart".to_owned(), "Hello from Embeder".to_owned()),
            ],
            log: "fixture: booted ELF; PA5 toggled 5x; USART2 TX captured".to_owned(),
            engine: "fixture-renode 0.0".to_owned(),
            engine_available: true,
            fault: None,
        };
        assert(pairs_view(r.observations@) =~= fixture_sim_spec().observations);
        assert(r@ =~= fixture_sim_spec());
        r
    }
}

impl SimOracle for FixtureSimOracle {
    open spec fn simulates(&self, artifact_path: Seq<char>, target: Seq<char>, r: SimView) -> bool {
        r == fixture_sim_spec()
    }

    fn name(&self) -> (r: &str)
        ensures
            r@ == "fixture-renode"@,
    {
        "fixture-renode"
    }

    fn simulate(&self, _artifact_path: &str, _target: &str) -> (r: SimResult)
        ensures
            r@ == fixture_sim_spec(),
    {
        self.run()
    }
}

} // verus!
