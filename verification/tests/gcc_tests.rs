use embeder::gcc::parse_gcc_stderr;

#[test]
fn parses_error_with_col() {
    let d = parse_gcc_stderr("main.c:12:5: error: expected ';' before '}' token");
    assert_eq!(d.len(), 1);
    assert_eq!(d[0].severity, "error");
    assert_eq!(d[0].file.as_deref(), Some("main.c"));
    assert_eq!(d[0].line, Some(12));
    assert_eq!(d[0].col, Some(5));
}

#[test]
fn parses_warning_note_and_linker() {
    let s = "foo.c:3:1: warning: unused variable 'x'\n\
             foo.c:4:2: note: here\n\
             /usr/bin/ld: main.o: in function `main': undefined reference to `uart_puts'";
    let d = parse_gcc_stderr(s);
    assert_eq!(d.len(), 3);
    assert_eq!(d[0].severity, "warning");
    assert_eq!(d[1].severity, "note");
    assert_eq!(d[2].severity, "error");
    assert!(d[2].message.contains("uart_puts"));
}

#[test]
fn keeps_windows_path_and_parses_line_col() {
    let d = parse_gcc_stderr(r"C:\proj\main.c:7:9: error: oops");
    assert_eq!(d.len(), 1);
    assert_eq!(d[0].file.as_deref(), Some(r"C:\proj\main.c"));
    assert_eq!(d[0].line, Some(7));
    assert_eq!(d[0].col, Some(9));
}

#[test]
fn keeps_windows_path_with_line_only() {
    let d = parse_gcc_stderr(r"C:\a\b.c:12: error: boom");
    assert_eq!(d.len(), 1);
    assert_eq!(d[0].file.as_deref(), Some(r"C:\a\b.c"));
    assert_eq!(d[0].line, Some(12));
    assert_eq!(d[0].col, None);
    assert_eq!(d[0].message, "boom");
}

#[test]
fn fatal_error_maps_to_error() {
    let d = parse_gcc_stderr("main.c:1:10: fatal error: stm32.h: No such file or directory");
    assert_eq!(d.len(), 1);
    assert_eq!(d[0].severity, "error");
}

#[test]
fn message_and_location_are_split_exactly() {
    let d = parse_gcc_stderr("main.c:12:5: error: expected ';' before '}' token");
    assert_eq!(d[0].message, "expected ';' before '}' token");
    assert_eq!(d[0].raw, "main.c:12:5: error: expected ';' before '}' token");
}

#[test]
fn blank_and_unrelated_lines_give_no_diagnostics() {
    assert!(parse_gcc_stderr("").is_empty());
    assert!(parse_gcc_stderr("compilation terminated.\n\n").is_empty());
}

#[test]
fn diagnostic_context_line_is_compact() {
    let d = parse_gcc_stderr("main.c:12:5: error: oops");
    assert_eq!(d[0].as_context(), "main.c:12:5: error: oops");
}

#[test]
fn diagnostics_of_joined_output_are_joined() {
    let a = "a.c:1:2: error: first\n";
    let b = "b.c:3:4: warning: second\nnote: nothing here";
    let whole = parse_gcc_stderr(&format!("{a}{b}"));
    let mut parts = parse_gcc_stderr(a);
    parts.extend(parse_gcc_stderr(b));
    assert_eq!(whole.len(), 2);
    assert_eq!(whole.len(), parts.len());
    for (x, y) in whole.iter().zip(parts.iter()) {
        assert_eq!(x.severity, y.severity);
        assert_eq!(x.message, y.message);
        assert_eq!(x.file, y.file);
        assert_eq!(x.line, y.line);
        assert_eq!(x.col, y.col);
        assert_eq!(x.raw, y.raw);
    }
    assert_eq!(whole[1].file.as_deref(), Some("b.c"));
}

#[test]
fn every_diagnostic_comes_from_its_own_line() {
    let s = "\nmain.c:1:2: error: a\nplain text\n\n  \nfoo.c:3:4: warning: b\r\nfoo.c:5:6: note: c\n/usr/bin/ld: x.o: undefined reference to `f'";
    let d = parse_gcc_stderr(s);
    let lines: Vec<&str> = s.lines().collect();
    let nonblank = lines.iter().filter(|l| !l.trim().is_empty()).count();
    assert_eq!(d.len(), 4);
    assert!(d.len() <= nonblank);
    let mut last = None;
    for x in &d {
        assert!(["error", "warning", "note"].contains(&x.severity.as_str()));
        let pos = lines.iter().position(|l| *l == x.raw).unwrap();
        assert!(last.map_or(true, |p| p < pos));
        last = Some(pos);
    }
}
