use embeder::desktop::{
    allowed_workspace_file, checked_sources, classify_method, content_type, is_local_host, is_note,
    is_server_kind, language_for, local_tool, mcp_tools, safe_static_relative_path,
    snapshot_complete, static_file, worker_register_miss, LocalTool, McpMethod,
};
use embeder::http::{
    is_percent_safe, percent_decode, query_param, query_param_raw, request_target,
    route_and_query, route_for, Admission, RequestHead, Route,
};
use std::path::Path;

#[test]
fn workspace_jail_rejects_traversal_and_absolute_paths() {
    assert!(allowed_workspace_file("../../README.md", false).is_err());
    assert!(allowed_workspace_file(r"C:\\Windows\\system.ini", false).is_err());
}

#[test]
fn workspace_jail_accepts_firmware_sources() {
    let path = allowed_workspace_file("src/main.c", true).expect("main.c in workspace");
    assert!(Path::new(&path).ends_with(Path::new("src").join("main.c")));
}

#[test]
fn mcp_catalog_is_scoped_by_server_kind() {
    assert_eq!(mcp_tools("datasheet").len(), 2);
    assert_eq!(mcp_tools("firmware").len(), 1);
    assert_eq!(mcp_tools("simulation").len(), 1);
    assert!(mcp_tools("unknown").is_empty());
}

#[test]
fn only_loopback_hosts_are_accepted() {
    assert!(is_local_host("127.0.0.1:8787", 8787));
    assert!(is_local_host("localhost:8787", 8787));
    assert!(!is_local_host("example.com:8787", 8787));
    assert!(!is_local_host("127.0.0.1:9999", 8787));
}

#[test]
fn static_paths_cannot_escape_the_ui_directory() {
    assert!(safe_static_relative_path("app.js"));
    assert!(!safe_static_relative_path("../README.md"));
    assert!(!safe_static_relative_path("C:\\Windows\\win.ini"));
    assert!(!safe_static_relative_path("\\\\server\\share"));
}

#[test]
fn loopback_names_and_ipv6() {
    assert!(is_local_host("LocalHost:8787", 8787));
    assert!(is_local_host("[::1]:8787", 8787));
    assert!(!is_local_host("127.0.0.1", 8787));
    assert!(!is_local_host("LOCALHOST:8788", 8787));
}

#[test]
fn jail_error_messages_and_read_only_notes() {
    assert_eq!(
        allowed_workspace_file("", false).unwrap_err(),
        "workspace path must be a relative file path"
    );
    assert_eq!(
        allowed_workspace_file("/etc/passwd.c", false).unwrap_err(),
        "workspace path must be a relative file path"
    );
    assert_eq!(
        allowed_workspace_file("./src/main.c", false).unwrap_err(),
        "workspace path must be a relative file path"
    );
    assert_eq!(allowed_workspace_file("README.md", false).unwrap(), "README.md");
    assert_eq!(
        allowed_workspace_file("README.md", true).unwrap_err(),
        "file type is not editable in the firmware sandbox"
    );
    assert_eq!(
        allowed_workspace_file("Makefile", false).unwrap_err(),
        "file type is not editable in the firmware sandbox"
    );
    assert!(allowed_workspace_file("link/stm32f4.ld", true).is_ok());
    assert!(allowed_workspace_file("src/startup.S", true).is_ok());
}

#[test]
fn file_kinds_pick_editor_language_and_media_type() {
    assert_eq!(language_for("src/main.c"), "c");
    assert_eq!(language_for("include/regs.h"), "c");
    assert_eq!(language_for("src/vec.S"), "asm");
    assert_eq!(language_for("link/stm32f4.ld"), "linker");
    assert_eq!(language_for("README.md"), "markdown");
    assert_eq!(language_for("Makefile"), "text");
    assert_eq!(content_type("/ui/index.html"), "text/html; charset=utf-8");
    assert_eq!(content_type("app.js"), "text/javascript; charset=utf-8");
    assert_eq!(content_type("font.woff2"), "font/woff2");
    assert_eq!(content_type(".hidden"), "application/octet-stream");
    assert_eq!(content_type("page.HTML"), "application/octet-stream");
}

#[test]
fn request_paths_name_ui_files() {
    assert_eq!(static_file("/"), "index.html");
    assert_eq!(static_file("/app.js"), "app.js");
    assert_eq!(static_file("//assets/x.css"), "assets/x.css");
    assert!(!safe_static_relative_path(&static_file("/../etc/passwd")));
}

#[test]
fn tool_catalog_names_the_tools() {
    let ds = mcp_tools("datasheet");
    assert_eq!(ds[0].name, "register_map");
    assert_eq!(ds[1].name, "lookup_register");
    assert_eq!(ds[1].required, vec!["peripheral".to_string(), "register".to_string()]);
    let fw = mcp_tools("firmware");
    assert_eq!(fw[0].properties, vec![("files".to_string(), "object".to_string())]);
    assert_eq!(mcp_tools("simulation")[0].name, "run_simulation");
    assert!(is_server_kind("firmware"));
    assert!(!is_server_kind("shell"));
}

#[test]
fn worker_methods_are_classified() {
    assert_eq!(classify_method("initialize"), McpMethod::Initialize);
    assert_eq!(classify_method("notifications/initialized"), McpMethod::Initialized);
    assert_eq!(classify_method("tools/list"), McpMethod::ListTools);
    assert_eq!(classify_method("tools/call"), McpMethod::CallTool);
    assert_eq!(classify_method("exit"), McpMethod::Stop);
    assert_eq!(classify_method("shutdown"), McpMethod::Stop);
    assert_eq!(classify_method("resources/list"), McpMethod::Unknown);
}

#[test]
fn worker_sources_are_checked_in_order() {
    let ok = vec![("src/main.c".to_string(), Some("int main(){}".to_string()))];
    assert_eq!(checked_sources(&ok).unwrap(), vec![("src/main.c".to_string(), "int main(){}".to_string())]);
    let escape = vec![
        ("../x.c".to_string(), Some(String::new())),
        ("y.c".to_string(), None),
    ];
    assert_eq!(checked_sources(&escape).unwrap_err(), "source path escaped the MCP sandbox");
    let not_text = vec![("y.c".to_string(), None), ("../x.c".to_string(), Some(String::new()))];
    assert_eq!(checked_sources(&not_text).unwrap_err(), "source content must be text");
    let big = vec![("big.c".to_string(), Some("x".repeat(512 * 1024 + 1)))];
    assert_eq!(checked_sources(&big).unwrap_err(), "source file exceeds the MCP sandbox limit");
    let absolute = vec![("/etc/x.c".to_string(), Some(String::new()))];
    assert!(checked_sources(&absolute).is_err());
}

#[test]
fn snapshots_need_startup_and_linker_script() {
    let full = vec!["link/stm32f4.ld".to_string(), "src/main.c".to_string(), "src/startup.c".to_string()];
    assert!(snapshot_complete(&full));
    assert!(!snapshot_complete(&full[..2].to_vec()));
}

#[test]
fn query_parameters_are_found_and_decoded() {
    assert_eq!(query_param("path=src%2Fmain.c&server=x", "path").as_deref(), Some("src/main.c"));
    assert_eq!(query_param("a&server=firm+ware", "server").as_deref(), Some("firm ware"));
    assert_eq!(query_param("x=1&x=2", "x").as_deref(), Some("1"));
    assert_eq!(query_param("path=a=b", "path").as_deref(), Some("a=b"));
    assert_eq!(query_param("simulate=false", "path"), None);
    assert_eq!(query_param("", "id"), None);
}

#[test]
fn percent_decoding_edge_cases() {
    assert_eq!(percent_decode("a%20b"), "a b");
    assert_eq!(percent_decode("100%"), "100%");
    assert_eq!(percent_decode("%zz"), "%zz");
    assert_eq!(percent_decode("%+5"), "\u{5}");
    assert_eq!(percent_decode("%C3%A9"), "\u{e9}");
    assert_eq!(percent_decode("%FF"), "\u{fffd}");
    assert_eq!(percent_decode("plain"), "plain");
}

#[test]
fn request_lines_and_targets() {
    let (m, t) = request_target("POST /api/tasks?simulate=true HTTP/1.1\r\n");
    assert_eq!(m, "POST");
    assert_eq!(t, "/api/tasks?simulate=true");
    assert_eq!(request_target("   "), ("GET".to_string(), "/".to_string()));
    assert_eq!(request_target("DELETE"), ("DELETE".to_string(), "/".to_string()));
    assert_eq!(route_and_query("/api/task?id=7"), ("/api/task".to_string(), "id=7".to_string()));
    assert_eq!(route_and_query("/index.html"), ("/index.html".to_string(), String::new()));
}

#[test]
fn headers_decide_admission() {
    let mut h = RequestHead::new();
    for line in ["Host: 127.0.0.1:8787\r\n", "content-LENGTH:  12 \r\n", "X-Embeder-Client: 1\r\n", "Accept: */*\r\n"] {
        h.apply(line);
    }
    assert_eq!(h.content_length, 12);
    assert!(h.local_client);
    assert_eq!(h.host.as_deref(), Some("127.0.0.1:8787"));
    assert!(matches!(h.admission(8787), Admission::Admitted));
    assert!(matches!(h.admission(9000), Admission::Forbidden));

    h.apply("Origin: http://evil.example\r\n");
    assert!(matches!(h.admission(8787), Admission::Forbidden));

    let mut big = RequestHead::new();
    big.apply("Host: localhost:8787");
    big.apply("Content-Length: 600000");
    assert!(matches!(big.admission(8787), Admission::TooLarge));
    big.apply("Content-Length: nonsense");
    assert_eq!(big.content_length, 0);

    let mut cross = RequestHead::new();
    cross.apply("Host: localhost:8787");
    cross.apply("Origin: http://localhost:8787");
    assert!(matches!(cross.admission(8787), Admission::Admitted));
    cross.apply("Sec-Fetch-Site: cross-site");
    assert!(matches!(cross.admission(8787), Admission::Forbidden));

    let none = RequestHead::new();
    assert!(!none.admitted(8787));
}

#[test]
fn routes_follow_the_table() {
    assert_eq!(route_for("GET", "/api/project", false), Route::Project);
    assert_eq!(route_for("GET", "/api/file", false), Route::ReadFile);
    assert_eq!(route_for("POST", "/api/file", true), Route::SaveFile);
    assert_eq!(route_for("POST", "/api/file", false), Route::ClientHeaderRequired);
    assert_eq!(route_for("POST", "/api/tasks", true), Route::StartTask);
    assert_eq!(route_for("GET", "/api/task", false), Route::TaskStatus);
    assert_eq!(route_for("GET", "/app.js", false), Route::Static);
    assert_eq!(route_for("PUT", "/api/file", false), Route::NotAllowed);
    assert_eq!(route_for("POST", "/api/unknown", true), Route::NotAllowed);
}

#[test]
fn workers_serve_only_their_own_tools() {
    assert_eq!(local_tool("datasheet", "register_map"), Ok(LocalTool::RegisterMap));
    assert_eq!(local_tool("datasheet", "lookup_register"), Ok(LocalTool::LookupRegister));
    assert_eq!(local_tool("firmware", "compile_firmware"), Ok(LocalTool::CompileFirmware));
    assert_eq!(local_tool("simulation", "run_simulation"), Ok(LocalTool::RunSimulation));
    assert_eq!(
        local_tool("firmware", "run_simulation"),
        Err("tool 'run_simulation' is not available on MCP server 'firmware'".to_string())
    );
    assert_eq!(
        worker_register_miss("USART2", "XYZ"),
        "register 'USART2.XYZ' is not in the structured source"
    );
    assert!(is_note("docs/README.md"));
    assert!(!is_note("src/main.c"));
}

#[test]
fn writable_paths_are_readable_too() {
    for p in ["src/main.c", "include/regs.h", "link/stm32f4.ld", "src/vec.s"] {
        let w = allowed_workspace_file(p, true).unwrap();
        assert_eq!(allowed_workspace_file(p, false).unwrap(), w);
    }
}

#[test]
fn raw_values_and_decoding_safety() {
    assert_eq!(query_param_raw("path=src%2Fmain.c", "path").as_deref(), Some("src%2Fmain.c"));
    assert_eq!(query_param_raw("path", "path"), None);
    assert!(is_percent_safe("a%20b"));
    assert!(!is_percent_safe("%a\u{e9}"));
    assert!(is_percent_safe("%\u{e9}"));
}
