//! The real toolchain oracles: `arm-none-eabi-gcc` for builds and Renode for
//! simulation. This module decides what a build writes and runs, what a
//! simulation script says, and how their outputs become oracle results; the
//! host runs the processes and touches the files.

use vstd::prelude::*;
use crate::engine::{bool_spec, push_bool, truncate_spec};
use crate::fixtures::{stm32_boundary, stm32_boundary_spec};
use crate::gcc::{gcc_spec, lines_spec, parse_gcc_stderr, split_lines};
use crate::json::strings_view;
use crate::num::{dec_spec, push_dec};
use crate::oracle::{
    pairs_view, CompileResult, CompileView, Diagnostic, DiagnosticView, FirmwareDraft,
    SimResult, SimView,
};
use crate::paths::{join_path, path_join_spec};
use crate::text::{
    byte_len, chars_of, contains, contains_spec, debug_quoted, debug_text, ends_with,
    ends_with_spec, lossy_utf8, push_chars, push_str, slice, string_of, trim, trim_spec,
    utf8_lossy,
};
use crate::tiers::{BoundaryView, VerifiabilityBoundary};

verus! {

// ---------------------------------------------------------------------------
// arm-none-eabi-gcc
// ---------------------------------------------------------------------------

/// A gcc build profile: compiler, CPU flags, board support sources compiled
/// with the application, an optional linker script (a linked ELF; without
/// one, an object build) and further flags.
pub struct ArmGccOracle {
    pub cc: String,
    pub cpu_flags: Vec<String>,
    pub support_sources: Vec<String>,
    pub linker_script: Option<String>,
    pub extra_flags: Vec<String>,
}

#[verifier::ext_equal]
pub struct GccView {
    pub cc: Seq<char>,
    pub cpu_flags: Seq<Seq<char>>,
    pub support_sources: Seq<Seq<char>>,
    pub linker_script: Option<Seq<char>>,
    pub extra_flags: Seq<Seq<char>>,
}

impl View for ArmGccOracle {
    type V = GccView;

    open spec fn view(&self) -> GccView {
        GccView {
            cc: self.cc@,
            cpu_flags: strings_view(self.cpu_flags@),
            support_sources: strings_view(self.support_sources@),
            linker_script: self.linker_script.deep_view(),
            extra_flags: strings_view(self.extra_flags@),
        }
    }
}

/// Cortex-M4 in Thumb mode.
pub open spec fn cortex_m4_flags() -> Seq<Seq<char>> {
    seq!["-mcpu=cortex-m4"@, "-mthumb"@]
}

/// The flags of a freestanding, linked, debuggable STM32F4 build.
pub open spec fn stm32f4_flags() -> Seq<Seq<char>> {
    seq![
        "-nostdlib"@,
        "-ffreestanding"@,
        "-ffunction-sections"@,
        "-fdata-sections"@,
        "-Wall"@,
        "-O0"@,
        "-g"@,
        "-Wl,--gc-sections"@,
    ]
}

/// The STM32F4 blink+UART profile for the firmware directory `dir`.
pub open spec fn stm32f4_gcc_spec(dir: Seq<char>, cc: Seq<char>) -> GccView {
    GccView {
        cc,
        cpu_flags: cortex_m4_flags(),
        support_sources: seq![path_join_spec(path_join_spec(dir, "src"@), "startup.c"@)],
        linker_script: Some(path_join_spec(path_join_spec(dir, "link"@), "stm32f4.ld"@)),
        extra_flags: stm32f4_flags(),
    }
}

fn cortex_m4() -> (r: Vec<String>)
    ensures
        strings_view(r@) == cortex_m4_flags(),
{
    let r = vec!["-mcpu=cortex-m4".to_owned(), "-mthumb".to_owned()];
    assert(strings_view(r@) =~= cortex_m4_flags());
    r
}

fn join2(dir: &str, a: &str, b: &str) -> (r: String)
    ensures
        r@ == path_join_spec(path_join_spec(dir@, a@), b@),
{
    let d = join_path(dir, a);
    join_path(d.as_str(), b)
}

impl ArmGccOracle {
    /// The plain object-build profile for compiler `cc`: `-nostdlib -c`, no
    /// board support and no linker script.
    pub fn new(cc: String) -> (r: ArmGccOracle)
        ensures
            r@ == (GccView {
                cc: cc@,
                cpu_flags: cortex_m4_flags(),
                support_sources: Seq::empty(),
                linker_script: None,
                extra_flags: seq!["-nostdlib"@, "-c"@],
            }),
    {
        let extra = vec!["-nostdlib".to_owned(), "-c".to_owned()];
        let r = ArmGccOracle {
            cc,
            cpu_flags: cortex_m4(),
            support_sources: Vec::new(),
            linker_script: None,
            extra_flags: extra,
        };
        assert(strings_view(r.support_sources@) =~= Seq::<Seq<char>>::empty());
        assert(strings_view(r.extra_flags@) =~= seq!["-nostdlib"@, "-c"@]);
        r
    }

    /// The STM32F4 board profile for the firmware directory `firmware_dir`
    /// (which holds `src/startup.c` and `link/stm32f4.ld`), built with `cc`.
    pub fn stm32f4(firmware_dir: &str, cc: String) -> (r: ArmGccOracle)
        ensures
            r@ == stm32f4_gcc_spec(firmware_dir@, cc@),
    {
        let startup = join2(firmware_dir, "src", "startup.c");
        let ld = join2(firmware_dir, "link", "stm32f4.ld");
        let extra = vec![
            "-nostdlib".to_owned(),
            "-ffreestanding".to_owned(),
            "-ffunction-sections".to_owned(),
            "-fdata-sections".to_owned(),
            "-Wall".to_owned(),
            "-O0".to_owned(),
            "-g".to_owned(),
            "-Wl,--gc-sections".to_owned(),
        ];
        let support = vec![startup];
        let r = ArmGccOracle {
            cc,
            cpu_flags: cortex_m4(),
            support_sources: support,
            linker_script: Some(ld),
            extra_flags: extra,
        };
        assert(strings_view(r.extra_flags@) =~= stm32f4_flags());
        assert(strings_view(r.support_sources@) =~= seq![
            path_join_spec(path_join_spec(firmware_dir@, "src"@), "startup.c"@),
        ]);
        assert(r@ =~= stm32f4_gcc_spec(firmware_dir@, cc@));
        r
    }

    /// Builds a complete workspace snapshot instead: the snapshot brings its
    /// own startup code, links with its own `link/stm32f4.ld`, and finds its
    /// headers under `src` and `include`.
    pub fn use_workspace_snapshot(&mut self)
        ensures
            final(self)@ == (GccView {
                support_sources: Seq::empty(),
                linker_script: Some("link/stm32f4.ld"@),
                extra_flags: old(self)@.extra_flags + seq!["-Isrc"@, "-Iinclude"@],
                ..old(self)@
            }),
    {
        self.support_sources = Vec::new();
        self.linker_script = Some("link/stm32f4.ld".to_owned());
        let ghost before = self.extra_flags@;
        self.extra_flags.push("-Isrc".to_owned());
        self.extra_flags.push("-Iinclude".to_owned());
        assert(strings_view(self.extra_flags@) =~= strings_view(before) + seq![
            "-Isrc"@,
            "-Iinclude"@,
        ]);
        assert(strings_view(self.support_sources@) =~= Seq::<Seq<char>>::empty());
    }
}

/// A draft file that gcc compiles: C or assembly.
pub open spec fn is_compilable(rel: Seq<char>) -> bool {
    ends_with_spec(rel, ".c"@) || ends_with_spec(rel, ".s"@) || ends_with_spec(rel, ".S"@)
}

/// The build-directory paths of the compilable draft files, in order.
pub open spec fn draft_sources(dir: Seq<char>, files: Seq<(Seq<char>, Seq<char>)>) -> Seq<
    Seq<char>,
>
    decreases files.len(),
{
    if files.len() == 0 {
        Seq::empty()
    } else {
        let rest = draft_sources(dir, files.drop_last());
        if is_compilable(files.last().0) {
            rest.push(path_join_spec(dir, files.last().0))
        } else {
            rest
        }
    }
}

/// What a build does: the files it writes (path and contents), the compiler
/// arguments, and the artifact it expects.
pub struct CompilePlan {
    pub writes: Vec<(String, String)>,
    pub args: Vec<String>,
    pub artifact: String,
}

#[verifier::ext_equal]
pub struct PlanView {
    pub writes: Seq<(Seq<char>, Seq<char>)>,
    pub args: Seq<Seq<char>>,
    pub artifact: Seq<char>,
}

impl View for CompilePlan {
    type V = PlanView;

    open spec fn view(&self) -> PlanView {
        PlanView {
            writes: pairs_view(self.writes@),
            args: strings_view(self.args@),
            artifact: self.artifact@,
        }
    }
}

/// The build in directory `dir`: every draft file is written under `dir`;
/// gcc gets the CPU flags, the other flags, `-T` and the linker script when
/// there is one, the compilable draft files then the board sources, and `-o`
/// with `firmware.elf` (linked) or `out.o` (object build).
pub open spec fn plan_spec(g: GccView, d: Seq<(Seq<char>, Seq<char>)>, dir: Seq<char>) -> PlanView {
    let artifact = match g.linker_script {
        Some(_) => path_join_spec(dir, "firmware.elf"@),
        None => path_join_spec(dir, "out.o"@),
    };
    let script = match g.linker_script {
        Some(l) => seq!["-T"@, l],
        None => Seq::empty(),
    };
    PlanView {
        writes: d.map_values(|f: (Seq<char>, Seq<char>)| (path_join_spec(dir, f.0), f.1)),
        args: g.cpu_flags + g.extra_flags + script + draft_sources(dir, d) + g.support_sources
            + seq!["-o"@, artifact],
        artifact,
    }
}

fn push_strings(out: &mut Vec<String>, items: &Vec<String>)
    ensures
        strings_view(final(out)@) == strings_view(old(out)@) + strings_view(items@),
{
    let ghost start = strings_view(out@);
    let mut i: usize = 0;
    while i < items.len()
        invariant
            i <= items.len(),
            strings_view(out@) == start + strings_view(items@).subrange(0, i as int),
        decreases items.len() - i,
    {
        let ghost prev = strings_view(out@);
        let c = items[i].clone();
        assert(c@ == items@[i as int]@);
        out.push(c);
        assert(strings_view(out@) =~= prev.push(items@[i as int]@));
        assert(strings_view(items@).subrange(0, i + 1) =~= strings_view(items@).subrange(
            0,
            i as int,
        ).push(items@[i as int]@));
        i += 1;
    }
    assert(strings_view(items@).subrange(0, items.len() as int) =~= strings_view(items@));
}

/// The compile result the moment the compiler cannot even be used: one error
/// diagnostic and no build.
pub open spec fn failed_compile(message: Seq<char>, toolchain: Seq<char>) -> CompileView {
    CompileView {
        ok: false,
        diagnostics: seq![
            DiagnosticView {
                severity: "error"@,
                message,
                file: None,
                line: None,
                col: None,
                raw: Seq::empty(),
            },
        ],
        stdout: Seq::empty(),
        stderr: Seq::empty(),
        artifact_path: None,
        toolchain,
        toolchain_available: false,
    }
}

pub(crate) fn failed_compile_exec(message: String, toolchain: String) -> (r: CompileResult)
    ensures
        r@ == failed_compile(message@, toolchain@),
{
    let d = Diagnostic {
        severity: "error".to_owned(),
        message,
        file: None,
        line: None,
        col: None,
        raw: String::new(),
    };
    let r = CompileResult {
        ok: false,
        diagnostics: vec![d],
        stdout: String::new(),
        stderr: String::new(),
        artifact_path: None,
        toolchain,
        toolchain_available: false,
    };
    assert(r@.diagnostics =~= failed_compile(message@, toolchain@).diagnostics);
    assert(r@ =~= failed_compile(message@, toolchain@));
    r
}

/// The result when compiler `cc` is not installed.
pub fn absent(cc: &str) -> (r: CompileResult)
    ensures
        r@ == failed_compile(cc@ + " not installed"@, cc@ + " (absent)"@),
{
    let mut m: Vec<char> = chars_of(cc);
    push_str(&mut m, " not installed");
    let mut t: Vec<char> = chars_of(cc);
    push_str(&mut t, " (absent)");
    failed_compile_exec(string_of(&m), string_of(&t))
}

/// The result when the build could not be carried out with compiler `cc`.
pub fn err_result(cc: &str, msg: &str) -> (r: CompileResult)
    ensures
        r@ == failed_compile(msg@, cc@ + " (error)"@),
{
    let mut t: Vec<char> = chars_of(cc);
    push_str(&mut t, " (error)");
    failed_compile_exec(msg.to_owned(), string_of(&t))
}

/// What gcc's output makes of a finished build: a success only when gcc
/// exited successfully and the artifact exists; diagnostics parsed from its
/// error output.
pub open spec fn compile_outcome_spec(
    success: bool,
    artifact_exists: bool,
    stdout: Seq<char>,
    stderr: Seq<char>,
    artifact: Seq<char>,
    toolchain: Seq<char>,
) -> CompileView {
    let ok = success && artifact_exists;
    CompileView {
        ok,
        diagnostics: gcc_spec(stderr),
        stdout,
        stderr,
        artifact_path: if ok {
            Some(artifact)
        } else {
            None
        },
        toolchain,
        toolchain_available: true,
    }
}

/// The first line of `s` (`str::lines().next()`), if it has one.
pub open spec fn first_line(s: Seq<char>) -> Option<Seq<char>> {
    if lines_spec(s).len() > 0 {
        Some(lines_spec(s)[0])
    } else {
        None
    }
}

fn first_line_exec(s: &str) -> (r: Option<Vec<char>>)
    ensures
        match r {
            Some(l) => first_line(s@) == Some(l@),
            None => first_line(s@) is None,
        },
{
    let ls = split_lines(&chars_of(s));
    if ls.len() > 0 {
        assert(ls@[0]@ == lines_spec(s@)[0]);
        Some(slice(&ls[0], 0, ls[0].len()))
    } else {
        None
    }
}

/// The toolchain version: the first line of `gcc --version`, the compiler's
/// name when that printed nothing, or the name marked absent when it could
/// not run.
pub open spec fn version_spec(stdout: Option<Seq<char>>, cc: Seq<char>) -> Seq<char> {
    match stdout {
        Some(out) => match first_line(out) {
            Some(l) => l,
            None => cc,
        },
        None => cc + " (absent)"@,
    }
}

impl ArmGccOracle {
    /// What a build of `draft` in directory `dir` writes and runs.
    pub fn compile_plan(&self, draft: &FirmwareDraft, dir: &str) -> (r: CompilePlan)
        ensures
            r@ == plan_spec(self@, pairs_view(draft.files@), dir@),
    {
        let ghost fs = pairs_view(draft.files@);
        let mut writes: Vec<(String, String)> = Vec::new();
        let mut sources: Vec<String> = Vec::new();
        let mut i: usize = 0;
        while i < draft.files.len()
            invariant
                i <= draft.files.len(),
                fs == pairs_view(draft.files@),
                pairs_view(writes@) == fs.subrange(0, i as int).map_values(
                    |f: (Seq<char>, Seq<char>)| (path_join_spec(dir@, f.0), f.1),
                ),
                strings_view(sources@) == draft_sources(dir@, fs.subrange(0, i as int)),
            decreases draft.files.len() - i,
        {
            let (rel, src) = &draft.files[i];
            let p = join_path(dir, rel.as_str());
            let rc = chars_of(rel.as_str());
            let compilable = ends_with(&rc, ".c") || ends_with(&rc, ".s") || ends_with(&rc, ".S");
            let ghost wbefore = pairs_view(writes@);
            let ghost sbefore = strings_view(sources@);
            writes.push((p.clone(), src.clone()));
            if compilable {
                sources.push(p);
            }
            proof {
                let pre = fs.subrange(0, i as int);
                let nxt = fs.subrange(0, i + 1);
                assert(nxt.drop_last() =~= pre);
                assert(nxt.last() == fs[i as int]);
                assert(fs[i as int] == (rel@, src@));
                assert(pairs_view(writes@) =~= wbefore.push((path_join_spec(dir@, rel@), src@)));
                assert(nxt.map_values(|f: (Seq<char>, Seq<char>)| (path_join_spec(dir@, f.0), f.1))
                    =~= pre.map_values(|f: (Seq<char>, Seq<char>)| (path_join_spec(dir@, f.0), f.1)).push(
                    (path_join_spec(dir@, rel@), src@),
                ));
                if compilable {
                    assert(strings_view(sources@) =~= sbefore.push(path_join_spec(dir@, rel@)));
                } else {
                    assert(strings_view(sources@) =~= sbefore);
                }
            }
            i += 1;
        }
        assert(fs.subrange(0, draft.files.len() as int) =~= fs);
        let artifact = match &self.linker_script {
            Some(_) => join_path(dir, "firmware.elf"),
            None => join_path(dir, "out.o"),
        };
        let mut args: Vec<String> = Vec::new();
        push_strings(&mut args, &self.cpu_flags);
        push_strings(&mut args, &self.extra_flags);
        let ghost before_script = strings_view(args@);
        match &self.linker_script {
            Some(l) => {
                args.push("-T".to_owned());
                args.push(l.clone());
                assert(strings_view(args@) =~= before_script + seq!["-T"@, l@]);
            },
            None => {
                assert(strings_view(args@) =~= before_script + Seq::<Seq<char>>::empty());
            },
        }
        push_strings(&mut args, &sources);
        push_strings(&mut args, &self.support_sources);
        let ghost before_out = strings_view(args@);
        args.push("-o".to_owned());
        args.push(artifact.clone());
        assert(strings_view(args@) =~= before_out + seq!["-o"@, artifact@]);
        let r = CompilePlan { writes, args, artifact };
        assert(r@ =~= plan_spec(self@, fs, dir@));
        r
    }

    /// The result of a finished build, from gcc's exit status, whether the
    /// artifact exists, and gcc's output as text.
    pub fn compile_outcome_text(
        success: bool,
        artifact_exists: bool,
        stdout: String,
        stderr: String,
        artifact: &str,
        toolchain: String,
    ) -> (r: CompileResult)
        ensures
            r@ == compile_outcome_spec(
                success,
                artifact_exists,
                stdout@,
                stderr@,
                artifact@,
                toolchain@,
            ),
    {
        let diagnostics = parse_gcc_stderr(stderr.as_str());
        let ok = success && artifact_exists;
        let artifact_path = if ok {
            Some(artifact.to_owned())
        } else {
            None
        };
        let r = CompileResult {
            ok,
            diagnostics,
            stdout,
            stderr,
            artifact_path,
            toolchain,
            toolchain_available: true,
        };
        assert(r@ =~= compile_outcome_spec(
            success,
            artifact_exists,
            stdout@,
            stderr@,
            artifact@,
            toolchain@,
        ));
        r
    }

    /// The result of a finished build from gcc's raw output bytes.
    pub fn compile_outcome(
        success: bool,
        artifact_exists: bool,
        stdout: &Vec<u8>,
        stderr: &Vec<u8>,
        artifact: &str,
        toolchain: String,
    ) -> (r: CompileResult)
        ensures
            r@ == compile_outcome_spec(
                success,
                artifact_exists,
                lossy_utf8(stdout@),
                lossy_utf8(stderr@),
                artifact@,
                toolchain@,
            ),
    {
        let out = utf8_lossy(stdout);
        let err = utf8_lossy(stderr);
        Self::compile_outcome_text(success, artifact_exists, out, err, artifact, toolchain)
    }

    /// The toolchain version from the text `gcc --version` printed (`None`
    /// when it could not run).
    pub fn version_from_text(&self, stdout: Option<String>) -> (r: String)
        ensures
            r@ == version_spec(stdout.deep_view(), self.cc@),
    {
        match stdout {
            Some(out) => match first_line_exec(out.as_str()) {
                Some(l) => string_of(&l),
                None => self.cc.clone(),
            },
            None => {
                let mut t: Vec<char> = chars_of(self.cc.as_str());
                push_str(&mut t, " (absent)");
                string_of(&t)
            },
        }
    }

    /// The toolchain version from the bytes `gcc --version` printed.
    pub fn version_from_output(&self, stdout: Option<&Vec<u8>>) -> (r: String)
        ensures
            r@ == version_spec(
                match stdout {
                    Some(b) => Some(lossy_utf8(b@)),
                    None => None,
                },
                self.cc@,
            ),
    {
        match stdout {
            Some(b) => self.version_from_text(Some(utf8_lossy(b))),
            None => self.version_from_text(None),
        }
    }
}

// ---------------------------------------------------------------------------
// Renode
// ---------------------------------------------------------------------------

/// A Renode run: the binary, the platform description, the UART to capture,
/// the virtual time to run, the banner that must appear, and a wall-clock
/// guard on the process.
pub struct RenodeOracle {
    pub bin: String,
    pub platform: String,
    pub uart: String,
    pub run_for_secs: String,
    pub expect: String,
    pub timeout_secs: u64,
}

#[verifier::ext_equal]
pub struct RenodeView {
    pub bin: Seq<char>,
    pub platform: Seq<char>,
    pub uart: Seq<char>,
    pub run_for_secs: Seq<char>,
    pub expect: Seq<char>,
    pub timeout_secs: u64,
}

impl View for RenodeOracle {
    type V = RenodeView;

    open spec fn view(&self) -> RenodeView {
        RenodeView {
            bin: self.bin@,
            platform: self.platform@,
            uart: self.uart@,
            run_for_secs: self.run_for_secs@,
            expect: self.expect@,
            timeout_secs: self.timeout_secs,
        }
    }
}

/// The STM32F4 Discovery run with Renode binary `bin`: USART2 captured for
/// half a second of virtual time, the banner `Hello from Embeder` expected,
/// and a generous three-minute guard against a true hang.
pub open spec fn stm32f4_renode_spec(bin: Seq<char>) -> RenodeView {
    RenodeView {
        bin,
        platform: "@platforms/boards/stm32f4_discovery.repl"@,
        uart: "sysbus.usart2"@,
        run_for_secs: "0.5"@,
        expect: "Hello from Embeder"@,
        timeout_secs: 180,
    }
}

impl Default for RenodeOracle {
    fn default() -> (r: Self)
        ensures
            r@ == stm32f4_renode_spec("renode"@),
    {
        RenodeOracle::stm32f4("renode".to_owned())
    }
}

/// `p` with every backslash turned into a slash.
pub open spec fn fwd_spec(p: Seq<char>) -> Seq<char> {
    p.map_values(|c: char| if c == '\\' { '/' } else { c })
}

/// A path with forward slashes, as Renode scripts want them.
pub fn fwd(p: &str) -> (r: String)
    ensures
        r@ == fwd_spec(p@),
{
    let v = chars_of(p);
    let mut out: Vec<char> = Vec::new();
    let mut i: usize = 0;
    while i < v.len()
        invariant
            i <= v.len(),
            out@ == fwd_spec(v@.subrange(0, i as int)),
        decreases v.len() - i,
    {
        let c = v[i];
        out.push(if c == '\\' { '/' } else { c });
        i += 1;
        assert(out@ =~= fwd_spec(v@.subrange(0, i as int)));
    }
    assert(v@.subrange(0, v.len() as int) =~= v@);
    string_of(&out)
}

/// At most the first `n` characters of `s`.
pub fn truncate(s: &str, n: usize) -> (r: String)
    ensures
        r@ == truncate_spec(s@, n as nat),
{
    let cs = chars_of(s);
    if cs.len() <= n {
        string_of(&cs)
    } else {
        string_of(&slice(&cs, 0, n))
    }
}

/// The Renode script: create the machine, load the platform and the ELF,
/// send the UART to a file, run for the virtual time, close the file, quit.
pub open spec fn script_spec(r: RenodeView, elf: Seq<char>, uart_file: Seq<char>) -> Seq<char> {
    "mach create \"embeder\"\nmachine LoadPlatformDescription "@ + r.platform + "\nsysbus LoadELF @"@
        + fwd_spec(elf) + "\n"@ + r.uart + " CreateFileBackend @"@ + fwd_spec(uart_file)
        + "\nemulation RunFor \""@ + r.run_for_secs + "\"\n"@ + r.uart + " CloseFileBackend @"@
        + fwd_spec(uart_file) + "\nquit\n"@
}

/// `{:?}` of an `i32`.
pub open spec fn i32_text(n: i32) -> Seq<char> {
    if n < 0 {
        "-"@ + dec_spec((-n) as nat)
    } else {
        dec_spec(n as nat)
    }
}

/// `{:?}` of an exit code.
pub open spec fn exit_text(code: Option<i32>) -> Seq<char> {
    match code {
        Some(n) => "Some("@ + i32_text(n) + ")"@,
        None => "None"@,
    }
}

/// The first line of a capture, trimmed (empty when there is none).
pub open spec fn first_line_trimmed(s: Seq<char>) -> Seq<char> {
    match first_line(s) {
        Some(l) => trim_spec(l),
        None => Seq::empty(),
    }
}

/// The first line of a capture, trimmed.
pub(crate) fn first_line_trimmed_exec(s: &str) -> (r: String)
    ensures
        r@ == first_line_trimmed(s@),
{
    match first_line_exec(s) {
        Some(l) => string_of(&trim(&l)),
        None => {
            let e: Vec<char> = Vec::new();
            assert(e@ =~= Seq::<char>::empty());
            string_of(&e)
        },
    }
}

/// What a finished Renode run yields: a pass only when it did not time out
/// and the capture contains the expected banner; a timeout, or a missing
/// banner, is named as the fault.
pub open spec fn renode_outcome_spec(
    r: RenodeView,
    code: Option<i32>,
    timed_out: bool,
    output: Seq<char>,
    uart_text: Seq<char>,
) -> SimView {
    let ok = !timed_out && contains_spec(uart_text, r.expect);
    SimView {
        ok,
        boundary: stm32_boundary_spec(),
        observations: seq![
            ("uart"@, first_line_trimmed(uart_text)),
            ("uart_bytes"@, dec_spec(byte_len(uart_text) as nat)),
        ],
        log: "renode exit="@ + exit_text(code) + " timed_out="@ + bool_spec(timed_out)
            + "; uart_captured="@ + dec_spec(byte_len(uart_text) as nat) + " bytes; expect="@
            + debug_text(r.expect) + " -> pass="@ + bool_spec(ok)
            + "\n--- renode output (truncated) ---\n"@ + truncate_spec(output, 900),
        engine: "renode 1.16.0"@,
        engine_available: true,
        fault: if timed_out {
            Some("timeout"@)
        } else if ok {
            None
        } else {
            Some("expected_uart_not_found"@)
        },
    }
}

/// A run that produced no capture: the fault kind and message, with the
/// engine marked absent or in error.
pub open spec fn fault_spec(bin: Seq<char>, kind: Seq<char>, msg: Seq<char>, available: bool) -> SimView {
    SimView {
        ok: false,
        boundary: BoundaryView {
            verified: Seq::empty(),
            stubbed: Seq::empty(),
            not_modeled: Seq::empty(),
        },
        observations: Seq::empty(),
        log: msg,
        engine: bin + " ("@ + (if available {
            "error"@
        } else {
            "absent"@
        }) + ")"@,
        engine_available: available,
        fault: Some(kind),
    }
}

/// The result of a Renode run that failed before producing a capture.
pub fn fault(bin: &str, kind: &str, msg: &str, available: bool) -> (r: SimResult)
    ensures
        r@ == fault_spec(bin@, kind@, msg@, available),
{
    let mut engine: Vec<char> = chars_of(bin);
    push_str(&mut engine, " (");
    push_str(&mut engine, if available { "error" } else { "absent" });
    push_str(&mut engine, ")");
    let b = VerifiabilityBoundary::default();
    let r = SimResult {
        ok: false,
        boundary: b,
        observations: Vec::new(),
        log: msg.to_owned(),
        engine: string_of(&engine),
        engine_available: available,
        fault: Some(kind.to_owned()),
    };
    assert(r@.boundary =~= fault_spec(bin@, kind@, msg@, available).boundary);
    assert(pairs_view(r.observations@) =~= Seq::<(Seq<char>, Seq<char>)>::empty());
    assert(r@ =~= fault_spec(bin@, kind@, msg@, available));
    r
}

fn push_exit(out: &mut Vec<char>, code: Option<i32>)
    ensures
        final(out)@ == old(out)@ + exit_text(code),
{
    match code {
        Some(n) => {
            let ghost start = out@;
            push_str(out, "Some(");
            if n < 0 {
                out.push('-');
                let m: u64 = (0i64 - (n as i64)) as u64;
                push_dec(out, m);
                assert(out@ =~= start + ("Some("@ + ("-"@ + dec_spec((-n) as nat)))) by {
                    reveal_strlit("-");
                }
            } else {
                push_dec(out, n as u64);
            }
            push_str(out, ")");
            assert(out@ =~= start + exit_text(code));
        },
        None => push_str(out, "None"),
    }
}

impl RenodeOracle {
    /// The STM32F4 Discovery run with Renode binary `bin`.
    pub fn stm32f4(bin: String) -> (r: RenodeOracle)
        ensures
            r@ == stm32f4_renode_spec(bin@),
    {
        RenodeOracle {
            bin,
            platform: "@platforms/boards/stm32f4_discovery.repl".to_owned(),
            uart: "sysbus.usart2".to_owned(),
            run_for_secs: "0.5".to_owned(),
            expect: "Hello from Embeder".to_owned(),
            timeout_secs: 180,
        }
    }

    /// What a run on this board exercises: the CPU, register setup, the GPIO
    /// and the UART are modeled; analog values are stubbed; radio is not
    /// modeled at all.
    pub fn full_boundary() -> (b: VerifiabilityBoundary)
        ensures
            b@ == stm32_boundary_spec(),
    {
        stm32_boundary()
    }

    /// The Renode script that runs `elf` and captures the UART to `uart_file`.
    pub fn script(&self, elf: &str, uart_file: &str) -> (r: String)
        ensures
            r@ == script_spec(self@, elf@, uart_file@),
    {
        let e = fwd(elf);
        let u = fwd(uart_file);
        let mut out: Vec<char> = Vec::new();
        push_str(&mut out, "mach create \"embeder\"\nmachine LoadPlatformDescription ");
        push_str(&mut out, self.platform.as_str());
        push_str(&mut out, "\nsysbus LoadELF @");
        push_str(&mut out, e.as_str());
        push_str(&mut out, "\n");
        push_str(&mut out, self.uart.as_str());
        push_str(&mut out, " CreateFileBackend @");
        push_str(&mut out, u.as_str());
        push_str(&mut out, "\nemulation RunFor \"");
        push_str(&mut out, self.run_for_secs.as_str());
        push_str(&mut out, "\"\n");
        push_str(&mut out, self.uart.as_str());
        push_str(&mut out, " CloseFileBackend @");
        push_str(&mut out, u.as_str());
        push_str(&mut out, "\nquit\n");
        assert(out@ =~= script_spec(self@, elf@, uart_file@));
        string_of(&out)
    }

    /// The command line that runs a script headless.
    pub fn command_args(resc: &str) -> (r: Vec<String>)
        ensures
            strings_view(r@) == seq!["--console"@, "--disable-gui"@, "--plain"@, resc@],
    {
        let r = vec![
            "--console".to_owned(),
            "--disable-gui".to_owned(),
            "--plain".to_owned(),
            resc.to_owned(),
        ];
        assert(strings_view(r@) =~= seq!["--console"@, "--disable-gui"@, "--plain"@, resc@]);
        r
    }

    /// The result when the Renode binary cannot be started.
    pub fn absent_fault(&self) -> (r: SimResult)
        ensures
            r@ == fault_spec(self.bin@, "engine_absent"@, self.bin@ + " not available"@, false),
    {
        let mut m: Vec<char> = chars_of(self.bin.as_str());
        push_str(&mut m, " not available");
        let msg = string_of(&m);
        fault(self.bin.as_str(), "engine_absent", msg.as_str(), false)
    }

    /// The result of a finished run, from its exit code, whether it timed
    /// out, what it printed, and the captured UART text.
    pub fn outcome(&self, code: Option<i32>, timed_out: bool, output: &str, uart_text: &str) -> (r:
        SimResult)
        ensures
            r@ == renode_outcome_spec(self@, code, timed_out, output@, uart_text@),
    {
        let uv = chars_of(uart_text);
        let ok = !timed_out && contains(&uv, &chars_of(self.expect.as_str()));
        let first = first_line_trimmed_exec(uart_text);
        let bytes = uart_text.len();
        let mut count: Vec<char> = Vec::new();
        push_dec(&mut count, bytes as u64);
        let mut log: Vec<char> = Vec::new();
        push_str(&mut log, "renode exit=");
        push_exit(&mut log, code);
        push_str(&mut log, " timed_out=");
        push_bool(&mut log, timed_out);
        push_str(&mut log, "; uart_captured=");
        push_chars(&mut log, &count);
        push_str(&mut log, " bytes; expect=");
        let ex = debug_quoted(self.expect.as_str());
        push_str(&mut log, ex.as_str());
        push_str(&mut log, " -> pass=");
        push_bool(&mut log, ok);
        push_str(&mut log, "\n--- renode output (truncated) ---\n");
        let t = truncate(output, 900);
        push_str(&mut log, t.as_str());
        let fault = if timed_out {
            Some("timeout".to_owned())
        } else if ok {
            None
        } else {
            Some("expected_uart_not_found".to_owned())
        };
        let observations = vec![
            ("uart".to_owned(), first),
            ("uart_bytes".to_owned(), string_of(&count)),
        ];
        let r = SimResult {
            ok,
            boundary: Self::full_boundary(),
            observations,
            log: string_of(&log),
            engine: "renode 1.16.0".to_owned(),
            engine_available: true,
            fault,
        };
        assert(pairs_view(r.observations@) =~= renode_outcome_spec(
            self@,
            code,
            timed_out,
            output@,
            uart_text@,
        ).observations);
        assert(r@ =~= renode_outcome_spec(self@, code, timed_out, output@, uart_text@));
        r
    }
}

} // verus!
