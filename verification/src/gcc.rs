//! Structured parsing of GCC/Clang stderr into [`Diagnostic`]s. Pure and
//! toolchain-independent, so it is fully testable without a compiler installed.

use vstd::prelude::*;
use crate::num::{parse_u32, parse_u32_spec};
use crate::oracle::{diags_view, Diagnostic, DiagnosticView};
use crate::text::{
    chars_of, find, find_spec, matches_at, push_chars, slice, string_of, trim, trim_by, trim_chars, trim_spec,
    Strip,
};

verus! {

// ---------------------------------------------------------------------------
// Lines (`str::lines`)
// ---------------------------------------------------------------------------

/// Index of the first `'\n'` in `s`, or `s.len()` when there is none.
pub open spec fn nl_index(s: Seq<char>) -> nat
    decreases s.len(),
{
    if s.len() == 0 {
        0
    } else if s[0] == '\n' {
        0
    } else {
        1 + nl_index(s.drop_first())
    }
}

/// A line that was terminated by `"\r\n"` loses its `'\r'`.
pub open spec fn strip_cr(l: Seq<char>) -> Seq<char> {
    if l.len() > 0 && l.last() == '\r' {
        l.drop_last()
    } else {
        l
    }
}

/// `str::lines`: split at `'\n'` (a preceding `'\r'` is part of the line
/// ending); a final line ending is optional and adds no empty line.
pub open spec fn lines_spec(s: Seq<char>) -> Seq<Seq<char>>
    decreases s.len(),
{
    if s.len() == 0 {
        Seq::empty()
    } else {
        let j = nl_index(s);
        if j < s.len() {
            seq![strip_cr(s.subrange(0, j as int))] + lines_spec(
                s.subrange(j as int + 1, s.len() as int),
            )
        } else {
            seq![s]
        }
    }
}

proof fn lemma_nl_index(t: Seq<char>, k: int)
    requires
        0 <= k <= t.len(),
        forall|j: int| 0 <= j < k ==> t[j] != '\n',
        k < t.len() ==> t[k] == '\n',
    ensures
        nl_index(t) == k,
    decreases k,
{
    if k > 0 {
        lemma_nl_index(t.drop_first(), k - 1);
    }
}

// ---------------------------------------------------------------------------
// Locations (`file:line:col`)
// ---------------------------------------------------------------------------

/// Index of the last occurrence of `c` in `s` (`str::rfind`).
pub open spec fn rfind_spec(s: Seq<char>, c: char) -> Option<int>
    decreases s.len(),
{
    if s.len() == 0 {
        None
    } else if s.last() == c {
        Some(s.len() - 1)
    } else {
        rfind_spec(s.drop_last(), c)
    }
}

proof fn lemma_rfind(s: Seq<char>, c: char, k: int)
    requires
        0 <= k <= s.len(),
        forall|j: int| k <= j < s.len() ==> s[j] != c,
    ensures
        rfind_spec(s, c) == rfind_spec(s.subrange(0, k), c),
    decreases s.len() - k,
{
    if k < s.len() {
        assert(s.drop_last().subrange(0, k) =~= s.subrange(0, k));
        lemma_rfind(s.drop_last(), c, k);
    } else {
        assert(s.subrange(0, k) =~= s);
    }
}

fn rfind(s: &Vec<char>, c: char) -> (r: Option<usize>)
    ensures
        r matches Some(i) ==> rfind_spec(s@, c) == Some(i as int),
        r matches Some(i) ==> i < s@.len(),
        r is None ==> rfind_spec(s@, c) is None,
{
    let mut i: usize = s.len();
    while i > 0
        invariant
            i <= s.len(),
            forall|j: int| i <= j < s.len() ==> s@[j] != c,
        decreases i,
    {
        if s[i - 1] == c {
            proof {
                lemma_rfind(s@, c, i as int);
                assert(s@.subrange(0, i as int).last() == c);
            }
            return Some(i - 1);
        }
        i -= 1;
    }
    proof {
        lemma_rfind(s@, c, 0);
    }
    None
}

/// What `parse_location` makes of a location prefix: split from the right at
/// most twice on `':'`. Where the last two parts are numbers they are the
/// column and the line; otherwise, where the last part alone is a number, it is
/// the line and everything before it the file (so a drive letter such as
/// `C:\a\b.c:12` survives); otherwise the whole prefix is the file.
pub open spec fn location_spec(loc: Seq<char>) -> (Option<Seq<char>>, Option<u32>, Option<u32>) {
    match rfind_spec(loc, ':') {
        None => (Some(loc), None, None),
        Some(p1) => {
            let a = loc.subrange(p1 + 1, loc.len() as int);
            let rest = loc.subrange(0, p1);
            match rfind_spec(rest, ':') {
                None => match parse_u32_spec(trim_spec(a)) {
                    Some(l) => (Some(rest), Some(l), None),
                    None => (Some(loc), None, None),
                },
                Some(p2) => {
                    let b = rest.subrange(p2 + 1, rest.len() as int);
                    let c = rest.subrange(0, p2);
                    match (parse_u32_spec(trim_spec(a)), parse_u32_spec(trim_spec(b))) {
                        (Some(col), Some(l)) => (Some(c), Some(l), Some(col)),
                        (Some(l), None) => (Some(rest), Some(l), None),
                        _ => (Some(loc), None, None),
                    }
                },
            }
        },
    }
}

fn parse_location(loc: &Vec<char>) -> (r: (Option<String>, Option<u32>, Option<u32>))
    ensures
        (r.0.deep_view(), r.1, r.2) == location_spec(loc@),
{
    let whole = Some(string_of(loc));
    let f1 = rfind(loc, ':');
    match f1 {
        None => (whole, None, None),
        Some(p1) => {
            assert(p1 < loc.len());
            let a = slice(loc, p1 + 1, loc.len());
            let rest = slice(loc, 0, p1);
            let col_or_line = parse_u32(&trim(&a));
            match rfind(&rest, ':') {
                None => match col_or_line {
                    Some(l) => (Some(string_of(&rest)), Some(l), None),
                    None => (whole, None, None),
                },
                Some(p2) => {
                    let b = slice(&rest, p2 + 1, rest.len());
                    let c = slice(&rest, 0, p2);
                    match (col_or_line, parse_u32(&trim(&b))) {
                        (Some(col), Some(l)) => (Some(string_of(&c)), Some(l), Some(col)),
                        (Some(l), None) => (Some(string_of(&rest)), Some(l), None),
                        _ => (whole, None, None),
                    }
                },
            }
        },
    }
}

// ---------------------------------------------------------------------------
// One line
// ---------------------------------------------------------------------------

/// The diagnostic for a compiler line with `marker` at `pos`: what precedes the
/// marker is the location and what follows it, trimmed, is the message.
pub open spec fn marked_diag(
    line: Seq<char>,
    raw: Seq<char>,
    pos: int,
    marker: Seq<char>,
    severity: Seq<char>,
) -> DiagnosticView {
    let loc = location_spec(line.subrange(0, pos));
    DiagnosticView {
        severity,
        message: trim_spec(line.subrange(pos + marker.len(), line.len() as int)),
        file: loc.0,
        line: loc.1,
        col: loc.2,
        raw,
    }
}

/// The diagnostic for `marker` if it occurs in `line`.
pub open spec fn marker_hit(
    line: Seq<char>,
    raw: Seq<char>,
    marker: Seq<char>,
    severity: Seq<char>,
) -> Option<DiagnosticView> {
    match find_spec(line, marker) {
        Some(pos) => Some(marked_diag(line, raw, pos, marker, severity)),
        None => None,
    }
}

pub open spec fn or_else(a: Option<DiagnosticView>, b: Option<DiagnosticView>) -> Option<
    DiagnosticView,
> {
    if a is Some {
        a
    } else {
        b
    }
}

/// Compiler markers, checked in this order ("fatal error" before "error",
/// since the latter is a substring of the former).
pub open spec fn compiler_diag(line: Seq<char>, raw: Seq<char>) -> Option<DiagnosticView> {
    or_else(
        marker_hit(line, raw, ": fatal error: "@, "error"@),
        or_else(
            marker_hit(line, raw, ": error: "@, "error"@),
            or_else(
                marker_hit(line, raw, ": warning: "@, "warning"@),
                marker_hit(line, raw, ": note: "@, "note"@),
            ),
        ),
    )
}

/// The diagnostic that one raw stderr line yields, if any.
pub open spec fn line_diag(raw: Seq<char>) -> Option<DiagnosticView> {
    let line = trim_spec(raw);
    if line.len() == 0 {
        None
    } else {
        match find_spec(line, "undefined reference to "@) {
            Some(pos) => Some(
                DiagnosticView {
                    severity: "error"@,
                    message: "undefined reference to "@ + trim_by(
                        Strip::SymbolQuotes,
                        line.subrange(pos + "undefined reference to "@.len(), line.len() as int),
                    ),
                    file: None,
                    line: None,
                    col: None,
                    raw,
                },
            ),
            None => compiler_diag(line, raw),
        }
    }
}

pub open spec fn opt_seq(o: Option<DiagnosticView>) -> Seq<DiagnosticView> {
    match o {
        Some(d) => seq![d],
        None => Seq::empty(),
    }
}

/// The diagnostics of a sequence of lines, in order.
pub open spec fn diags_of_lines(ls: Seq<Seq<char>>) -> Seq<DiagnosticView>
    decreases ls.len(),
{
    if ls.len() == 0 {
        Seq::empty()
    } else {
        opt_seq(line_diag(ls[0])) + diags_of_lines(ls.drop_first())
    }
}

/// Every diagnostic that `stderr` holds, in order.
pub open spec fn gcc_spec(stderr: Seq<char>) -> Seq<DiagnosticView> {
    diags_of_lines(lines_spec(stderr))
}

fn try_marker(line: &Vec<char>, raw: &Vec<char>, marker: &str, severity: &str) -> (r: Option<
    Diagnostic,
>)
    ensures
        r matches Some(d) ==> marker_hit(line@, raw@, marker@, severity@) == Some(d@),
        r is None ==> marker_hit(line@, raw@, marker@, severity@) is None,
{
    let m = chars_of(marker);
    let found = find(line, &m);
    match found {
        None => None,
        Some(pos) => {
            assert(matches_at(line@, m@, pos as int));
            let mlen = m.len();
            let llen = line.len();
            assert(pos + mlen <= llen);
            let loc = slice(line, 0, pos);
            let msg = trim(&slice(line, pos + mlen, line.len()));
            let (file, lineno, col) = parse_location(&loc);
            let d = Diagnostic {
                severity: severity.to_owned(),
                message: string_of(&msg),
                file,
                line: lineno,
                col,
                raw: string_of(raw),
            };
            assert(d@ == marked_diag(line@, raw@, pos as int, marker@, severity@));
            Some(d)
        },
    }
}

fn line_diagnostic(raw: &Vec<char>) -> (r: Option<Diagnostic>)
    ensures
        r matches Some(d) ==> line_diag(raw@) == Some(d@),
        r is None ==> line_diag(raw@) is None,
{
    let line = trim(raw);
    if line.len() == 0 {
        return None;
    }
    let undef = chars_of("undefined reference to ");
    if let Some(pos) = find(&line, &undef) {
        let rest = slice(&line, pos + undef.len(), line.len());
        let sym = trim_chars(&Strip::SymbolQuotes, &rest);
        let mut msg = chars_of("undefined reference to ");
        push_chars(&mut msg, &sym);
        let d = Diagnostic {
            severity: "error".to_owned(),
            message: string_of(&msg),
            file: None,
            line: None,
            col: None,
            raw: string_of(raw),
        };
        return Some(d);
    }
    let h = try_marker(&line, raw, ": fatal error: ", "error");
    if h.is_some() {
        return h;
    }
    let h = try_marker(&line, raw, ": error: ", "error");
    if h.is_some() {
        return h;
    }
    let h = try_marker(&line, raw, ": warning: ", "warning");
    if h.is_some() {
        return h;
    }
    try_marker(&line, raw, ": note: ", "note")
}

proof fn lemma_lines_step(t: Seq<char>, k: int)
    requires
        0 <= k < t.len(),
        forall|j: int| 0 <= j < k ==> t[j] != '\n',
        t[k] == '\n',
    ensures
        lines_spec(t) == seq![strip_cr(t.subrange(0, k))] + lines_spec(
            t.subrange(k + 1, t.len() as int),
        ),
{
    lemma_nl_index(t, k);
}

proof fn lemma_diags_cons(l: Seq<char>, ls: Seq<Seq<char>>)
    ensures
        diags_of_lines(seq![l] + ls) == opt_seq(line_diag(l)) + diags_of_lines(ls),
{
    let s = seq![l] + ls;
    assert(s[0] == l);
    assert(s.drop_first() =~= ls);
}

/// Parse compiler stderr. Recognizes `file:line:col: severity: message`
/// diagnostics and linker `undefined reference to `sym'` errors.
pub fn parse_gcc_stderr(stderr: &str) -> (r: Vec<Diagnostic>)
    ensures
        diags_view(r@) == gcc_spec(stderr@),
{
    let v = chars_of(stderr);
    let n = v.len();
    let mut out: Vec<Diagnostic> = Vec::new();
    let mut start: usize = 0;
    let mut j: usize = 0;
    assert(v@.subrange(0, n as int) =~= v@);
    assert(diags_view(out@) =~= Seq::<DiagnosticView>::empty());
    assert(gcc_spec(v@) =~= diags_view(out@) + gcc_spec(v@));
    while j < n
        invariant
            n == v.len(),
            start <= j <= n,
            forall|k: int| start <= k < j ==> v@[k] != '\n',
            gcc_spec(v@) == diags_view(out@) + diags_of_lines(
                lines_spec(v@.subrange(start as int, n as int)),
            ),
        decreases n - j,
    {
        if v[j] == '\n' {
            let ghost t = v@.subrange(start as int, n as int);
            let mut line = slice(&v, start, j);
            if line.len() > 0 && line[line.len() - 1] == '\r' {
                line.pop();
            }
            let d = line_diagnostic(&line);
            proof {
                let k = j - start;
                assert forall|q: int| 0 <= q < k implies t[q] != '\n' by {
                    assert(t[q] == v@[start + q]);
                }
                lemma_lines_step(t, k);
                assert(t.subrange(0, k) =~= v@.subrange(start as int, j as int));
                assert(t.subrange(k + 1, t.len() as int) =~= v@.subrange(j + 1, n as int));
                assert(line@ == strip_cr(v@.subrange(start as int, j as int)));
                lemma_diags_cons(line@, lines_spec(v@.subrange(j + 1, n as int)));
            }
            let ghost before = diags_view(out@);
            match d {
                Some(x) => {
                    out.push(x);
                    assert(diags_view(out@) =~= before + opt_seq(line_diag(line@)));
                },
                None => {
                    assert(opt_seq(line_diag(line@)) =~= Seq::<DiagnosticView>::empty());
                },
            }
            assert(gcc_spec(v@) == diags_view(out@) + diags_of_lines(
                lines_spec(v@.subrange(j + 1, n as int)),
            ));
            start = j + 1;
        }
        j += 1;
    }
    let ghost t = v@.subrange(start as int, n as int);
    if start < n {
        let line = slice(&v, start, n);
        let d = line_diagnostic(&line);
        proof {
            assert forall|q: int| 0 <= q < t.len() implies t[q] != '\n' by {
                assert(t[q] == v@[start + q]);
            }
            lemma_nl_index(t, t.len() as int);
            assert(lines_spec(t) == seq![t]);
            lemma_diags_cons(t, Seq::empty());
            assert(seq![t] + Seq::<Seq<char>>::empty() =~= seq![t]);
        }
        let ghost before = diags_view(out@);
        match d {
            Some(x) => {
                out.push(x);
                assert(diags_view(out@) =~= before + opt_seq(line_diag(line@)));
            },
            None => {},
        }
        assert(diags_view(out@) =~= gcc_spec(v@));
    } else {
        assert(diags_view(out@) =~= gcc_spec(v@));
    }
    out
}

} // verus!

verus! {

/// The character views of a list of lines.
pub open spec fn lines_view(v: Seq<Vec<char>>) -> Seq<Seq<char>> {
    v.map_values(|l: Vec<char>| l@)
}

/// `str::lines` on characters.
pub fn split_lines(v: &Vec<char>) -> (r: Vec<Vec<char>>)
    ensures
        lines_view(r@) == lines_spec(v@),
{
    let n = v.len();
    let mut out: Vec<Vec<char>> = Vec::new();
    let mut start: usize = 0;
    let mut j: usize = 0;
    assert(v@.subrange(0, n as int) =~= v@);
    assert(lines_spec(v@) =~= lines_view(out@) + lines_spec(v@));
    while j < n
        invariant
            n == v.len(),
            start <= j <= n,
            forall|k: int| start <= k < j ==> v@[k] != '\n',
            lines_spec(v@) == lines_view(out@) + lines_spec(v@.subrange(start as int, n as int)),
        decreases n - j,
    {
        if v[j] == '\n' {
            let ghost t = v@.subrange(start as int, n as int);
            let mut line = slice(v, start, j);
            if line.len() > 0 && line[line.len() - 1] == '\r' {
                line.pop();
            }
            proof {
                let k = j - start;
                assert forall|q: int| 0 <= q < k implies t[q] != '\n' by {
                    assert(t[q] == v@[start + q]);
                }
                lemma_lines_step(t, k);
                assert(t.subrange(0, k) =~= v@.subrange(start as int, j as int));
                assert(t.subrange(k + 1, t.len() as int) =~= v@.subrange(j + 1, n as int));
            }
            let ghost before = lines_view(out@);
            out.push(line);
            assert(lines_view(out@) =~= before.push(strip_cr(v@.subrange(start as int, j as int))));
            assert(lines_spec(v@) =~= lines_view(out@) + lines_spec(v@.subrange(j + 1, n as int)));
            start = j + 1;
        }
        j += 1;
    }
    let ghost t = v@.subrange(start as int, n as int);
    if start < n {
        let line = slice(v, start, n);
        proof {
            assert forall|q: int| 0 <= q < t.len() implies t[q] != '\n' by {
                assert(t[q] == v@[start + q]);
            }
            lemma_nl_index(t, t.len() as int);
        }
        let ghost before = lines_view(out@);
        out.push(line);
        assert(lines_view(out@) =~= before.push(t));
    }
    assert(lines_view(out@) =~= lines_spec(v@));
    out
}

} // verus!
