//! The desktop host's rules: which hosts may talk to the local server, which
//! paths may be served or edited, what each file is, and which tools each
//! isolated MCP worker exposes. The host itself (sockets, files, processes)
//! only asks these questions and acts on the answers.

use vstd::prelude::*;
use crate::json::strings_view;
use crate::num::{dec_spec, push_dec};
use crate::oracle::pairs_view;
use crate::paths::{all_normal, all_normal_exec, extension, extension_is, extension_spec};
use crate::text::{byte_len, chars_eq, chars_eq_ignore_case, chars_of, eq_ignore_case_spec, push_str, str_eq};

verus! {

/// Largest source file, in bytes, that the editor saves or a worker compiles.
pub const MAX_EDIT_BYTES: usize = 524288;

// ---------------------------------------------------------------------------
// Who may use the local server
// ---------------------------------------------------------------------------

/// A `Host` header names this server on a loopback address: `localhost` (in
/// any ASCII case), `127.0.0.1` or `[::1]`, with this server's port.
pub open spec fn is_local_host_spec(host: Seq<char>, port: u16) -> bool {
    let p = dec_spec(port as nat);
    ||| eq_ignore_case_spec(host, "localhost:"@ + p)
    ||| host == "127.0.0.1:"@ + p
    ||| host == "[::1]:"@ + p
}

fn with_port(prefix: &str, port: u16) -> (r: Vec<char>)
    ensures
        r@ == prefix@ + dec_spec(port as nat),
{
    let mut out: Vec<char> = Vec::new();
    push_str(&mut out, prefix);
    push_dec(&mut out, port as u64);
    out
}

/// Whether `host` names this server on a loopback address.
pub fn is_local_host(host: &str, port: u16) -> (b: bool)
    ensures
        b == is_local_host_spec(host@, port),
{
    let h = chars_of(host);
    let named = with_port("localhost:", port);
    let v4 = with_port("127.0.0.1:", port);
    let v6 = with_port("[::1]:", port);
    chars_eq_ignore_case(&h, &named) || chars_eq(&h, &v4) || chars_eq(&h, &v6)
}

// ---------------------------------------------------------------------------
// Static files of the UI
// ---------------------------------------------------------------------------

/// A path inside the UI directory: not empty, no backslash, and made only of
/// plain names.
pub open spec fn safe_static_spec(path: Seq<char>) -> bool {
    path.len() > 0 && !path.contains('\\') && all_normal(path)
}

/// Whether `path` may be served from the UI directory.
pub fn safe_static_relative_path(path: &str) -> (b: bool)
    ensures
        b == safe_static_spec(path@),
{
    let p = chars_of(path);
    if p.len() == 0 {
        return false;
    }
    let mut i: usize = 0;
    while i < p.len()
        invariant
            i <= p.len(),
            p@ == path@,
            forall|j: int| 0 <= j < i ==> p@[j] != '\\',
        decreases p.len() - i,
    {
        if p[i] == '\\' {
            assert(path@[i as int] == '\\');
            assert(path@.contains('\\'));
            return false;
        }
        i += 1;
    }
    all_normal_exec(&p)
}

/// `path` without its leading slashes.
pub open spec fn trim_slashes(path: Seq<char>) -> Seq<char>
    decreases path.len(),
{
    if path.len() > 0 && path[0] == '/' {
        trim_slashes(path.drop_first())
    } else {
        path
    }
}

/// The file a request path names: `index.html` for `/`, else the path without
/// its leading slashes.
pub open spec fn static_file_spec(path: Seq<char>) -> Seq<char> {
    if path == "/"@ {
        "index.html"@
    } else {
        trim_slashes(path)
    }
}

/// The file of the UI directory that a request path names.
pub fn static_file(path: &str) -> (r: String)
    ensures
        r@ == static_file_spec(path@),
{
    if str_eq(path, "/") {
        return "index.html".to_owned();
    }
    let p = chars_of(path);
    let mut i: usize = 0;
    assert(p@.subrange(0, p@.len() as int) =~= p@);
    while i < p.len() && p[i] == '/'
        invariant
            i <= p.len(),
            trim_slashes(p@) == trim_slashes(p@.subrange(i as int, p@.len() as int)),
        decreases p.len() - i,
    {
        assert(p@.subrange(i as int, p@.len() as int).drop_first() =~= p@.subrange(
            i + 1,
            p@.len() as int,
        ));
        i += 1;
    }
    let rest = crate::text::slice(&p, i, p.len());
    crate::text::string_of(&rest)
}

/// The media type served for a file, chosen by its extension.
pub open spec fn content_type_spec(ext: Option<Seq<char>>) -> Seq<char> {
    if ext == Some("html"@) {
        "text/html; charset=utf-8"@
    } else if ext == Some("css"@) {
        "text/css; charset=utf-8"@
    } else if ext == Some("js"@) {
        "text/javascript; charset=utf-8"@
    } else if ext == Some("json"@) {
        "application/json; charset=utf-8"@
    } else if ext == Some("svg"@) {
        "image/svg+xml"@
    } else if ext == Some("png"@) {
        "image/png"@
    } else if ext == Some("ico"@) {
        "image/x-icon"@
    } else if ext == Some("woff2"@) {
        "font/woff2"@
    } else {
        "application/octet-stream"@
    }
}

/// The media type served for the file at `path`.
pub fn content_type(path: &str) -> (r: &'static str)
    ensures
        r@ == content_type_spec(extension_spec(path@)),
{
    let ext = extension(&chars_of(path));
    if extension_is(&ext, "html") {
        "text/html; charset=utf-8"
    } else if extension_is(&ext, "css") {
        "text/css; charset=utf-8"
    } else if extension_is(&ext, "js") {
        "text/javascript; charset=utf-8"
    } else if extension_is(&ext, "json") {
        "application/json; charset=utf-8"
    } else if extension_is(&ext, "svg") {
        "image/svg+xml"
    } else if extension_is(&ext, "png") {
        "image/png"
    } else if extension_is(&ext, "ico") {
        "image/x-icon"
    } else if extension_is(&ext, "woff2") {
        "font/woff2"
    } else {
        "application/octet-stream"
    }
}

// ---------------------------------------------------------------------------
// The firmware workspace
// ---------------------------------------------------------------------------

/// The editor language of a workspace file, chosen by its extension.
pub open spec fn language_spec(ext: Option<Seq<char>>) -> Seq<char> {
    if ext == Some("c"@) || ext == Some("h"@) {
        "c"@
    } else if ext == Some("s"@) || ext == Some("S"@) {
        "asm"@
    } else if ext == Some("ld"@) {
        "linker"@
    } else if ext == Some("md"@) {
        "markdown"@
    } else {
        "text"@
    }
}

/// The editor language of the file at `path`.
pub fn language_for(path: &str) -> (r: &'static str)
    ensures
        r@ == language_spec(extension_spec(path@)),
{
    let ext = extension(&chars_of(path));
    if extension_is(&ext, "c") || extension_is(&ext, "h") {
        "c"
    } else if extension_is(&ext, "s") || extension_is(&ext, "S") {
        "asm"
    } else if extension_is(&ext, "ld") {
        "linker"
    } else if extension_is(&ext, "md") {
        "markdown"
    } else {
        "text"
    }
}

/// The extension of `p`, or nothing.
pub open spec fn ext_or_empty(p: Seq<char>) -> Seq<char> {
    match extension_spec(p) {
        Some(e) => e,
        None => Seq::empty(),
    }
}

/// The file kinds the firmware sandbox shows: C sources and headers,
/// assembly, linker scripts and notes.
pub open spec fn workspace_kind(e: Seq<char>) -> bool {
    e == "c"@ || e == "h"@ || e == "s"@ || e == "S"@ || e == "ld"@ || e == "md"@
}

/// The workspace jail: a path is admitted when it is a non-empty relative path
/// of plain names with a sandbox file kind; notes are read-only.
pub open spec fn workspace_file_spec(rel: Seq<char>, for_write: bool) -> Result<
    Seq<char>,
    Seq<char>,
> {
    if rel.len() == 0 || !all_normal(rel) {
        Err("workspace path must be a relative file path"@)
    } else if !workspace_kind(ext_or_empty(rel)) || (for_write && ext_or_empty(rel) == "md"@) {
        Err("file type is not editable in the firmware sandbox"@)
    } else {
        Ok(rel)
    }
}

/// The result of a check on strings, by characters.
pub open spec fn text_result(r: Result<String, String>) -> Result<Seq<char>, Seq<char>> {
    match r {
        Ok(s) => Ok(s@),
        Err(e) => Err(e@),
    }
}

/// Admits `relative` into the workspace jail (for reading, or for writing when
/// `for_write`), giving back the admitted relative path.
pub fn allowed_workspace_file(relative: &str, for_write: bool) -> (r: Result<String, String>)
    ensures
        text_result(r) == workspace_file_spec(relative@, for_write),
{
    let p = chars_of(relative);
    if p.len() == 0 || !all_normal_exec(&p) {
        return Err("workspace path must be a relative file path".to_owned());
    }
    let ext = extension(&p);
    let md = extension_is(&ext, "md");
    let kind = extension_is(&ext, "c") || extension_is(&ext, "h") || extension_is(&ext, "s")
        || extension_is(&ext, "S") || extension_is(&ext, "ld") || md;
    proof {
        match extension_spec(p@) {
            Some(e) => {},
            None => {
                reveal_strlit("c");
                reveal_strlit("h");
                reveal_strlit("s");
                reveal_strlit("S");
                reveal_strlit("ld");
                reveal_strlit("md");
                assert(ext_or_empty(p@) =~= Seq::<char>::empty());
            },
        }
    }
    if !kind || (for_write && md) {
        return Err("file type is not editable in the firmware sandbox".to_owned());
    }
    Ok(relative.to_owned())
}

/// Whether a worker's source path stays inside its sandbox: made only of
/// plain names (an empty path names nothing outside it).
pub fn sandboxed_source_path(path: &str) -> (b: bool)
    ensures
        b == all_normal(path@),
{
    all_normal_exec(&chars_of(path))
}

// ---------------------------------------------------------------------------
// The isolated MCP workers
// ---------------------------------------------------------------------------

/// Longest JSON-RPC message line a worker reads, in bytes; longer lines are
/// skipped.
pub const MAX_WORKER_MESSAGE_BYTES: usize = 2097152;

/// The kinds of MCP worker the desktop host runs.
pub open spec fn is_server_kind_spec(kind: Seq<char>) -> bool {
    kind == "datasheet"@ || kind == "firmware"@ || kind == "simulation"@
}

/// Whether `kind` names an MCP worker.
pub fn is_server_kind(kind: &str) -> (b: bool)
    ensures
        b == is_server_kind_spec(kind@),
{
    str_eq(kind, "datasheet") || str_eq(kind, "firmware") || str_eq(kind, "simulation")
}

/// A tool that a worker lists: its name, description, and the parameters of
/// its input object (name and JSON type), with those that are required.
pub struct McpTool {
    pub name: String,
    pub description: String,
    pub properties: Vec<(String, String)>,
    pub required: Vec<String>,
}

#[verifier::ext_equal]
pub struct McpToolView {
    pub name: Seq<char>,
    pub description: Seq<char>,
    pub properties: Seq<(Seq<char>, Seq<char>)>,
    pub required: Seq<Seq<char>>,
}

impl View for McpTool {
    type V = McpToolView;

    open spec fn view(&self) -> McpToolView {
        McpToolView {
            name: self.name@,
            description: self.description@,
            properties: pairs_view(self.properties@),
            required: strings_view(self.required@),
        }
    }
}

pub open spec fn tools_view(v: Seq<McpTool>) -> Seq<McpToolView> {
    v.map_values(|t: McpTool| t@)
}

/// The tools each worker exposes; an unknown kind exposes none.
pub open spec fn tool_catalog(kind: Seq<char>) -> Seq<McpToolView> {
    if kind == "datasheet"@ {
        seq![
            McpToolView {
                name: "register_map"@,
                description: "Read a grounded peripheral register map from the bundled CMSIS-SVD."@,
                properties: seq![("peripheral"@, "string"@)],
                required: seq!["peripheral"@],
            },
            McpToolView {
                name: "lookup_register"@,
                description: "Read one grounded register from the bundled CMSIS-SVD."@,
                properties: seq![("peripheral"@, "string"@), ("register"@, "string"@)],
                required: seq!["peripheral"@, "register"@],
            },
        ]
    } else if kind == "firmware"@ {
        seq![
            McpToolView {
                name: "compile_firmware"@,
                description: "Compile firmware inside an isolated temporary build directory with the fixed STM32F4 profile."@,
                properties: seq![("files"@, "object"@)],
                required: seq!["files"@],
            },
        ]
    } else if kind == "simulation"@ {
        seq![
            McpToolView {
                name: "run_simulation"@,
                description: "Run a sandboxed STM32F4 ELF in Renode and capture USART2."@,
                properties: seq![("elf_path"@, "string"@)],
                required: seq!["elf_path"@],
            },
        ]
    } else {
        seq![]
    }
}

fn param(name: &str, kind: &str) -> (r: (String, String))
    ensures
        r.0@ == name@,
        r.1@ == kind@,
{
    (name.to_owned(), kind.to_owned())
}

fn tool(
    name: &str,
    description: &str,
    properties: Vec<(String, String)>,
    required: Vec<String>,
) -> (t: McpTool)
    ensures
        t@ == (McpToolView {
            name: name@,
            description: description@,
            properties: pairs_view(properties@),
            required: strings_view(required@),
        }),
{
    McpTool { name: name.to_owned(), description: description.to_owned(), properties, required }
}

/// The tools the worker of kind `kind` lists.
pub fn mcp_tools(kind: &str) -> (r: Vec<McpTool>)
    ensures
        tools_view(r@) == tool_catalog(kind@),
{
    if str_eq(kind, "datasheet") {
        let p1 = vec![param("peripheral", "string")];
        let r1 = vec!["peripheral".to_owned()];
        assert(pairs_view(p1@) =~= seq![("peripheral"@, "string"@)]);
        assert(strings_view(r1@) =~= seq!["peripheral"@]);
        let t1 = tool(
            "register_map",
            "Read a grounded peripheral register map from the bundled CMSIS-SVD.",
            p1,
            r1,
        );
        let p2 = vec![param("peripheral", "string"), param("register", "string")];
        let r2 = vec!["peripheral".to_owned(), "register".to_owned()];
        assert(pairs_view(p2@) =~= seq![("peripheral"@, "string"@), ("register"@, "string"@)]);
        assert(strings_view(r2@) =~= seq!["peripheral"@, "register"@]);
        let t2 = tool(
            "lookup_register",
            "Read one grounded register from the bundled CMSIS-SVD.",
            p2,
            r2,
        );
        let r = vec![t1, t2];
        assert(tools_view(r@) =~= tool_catalog(kind@));
        r
    } else if str_eq(kind, "firmware") {
        let p = vec![param("files", "object")];
        let q = vec!["files".to_owned()];
        assert(pairs_view(p@) =~= seq![("files"@, "object"@)]);
        assert(strings_view(q@) =~= seq!["files"@]);
        let t = tool(
            "compile_firmware",
            "Compile firmware inside an isolated temporary build directory with the fixed STM32F4 profile.",
            p,
            q,
        );
        let r = vec![t];
        assert(tools_view(r@) =~= tool_catalog(kind@));
        r
    } else if str_eq(kind, "simulation") {
        let p = vec![param("elf_path", "string")];
        let q = vec!["elf_path".to_owned()];
        assert(pairs_view(p@) =~= seq![("elf_path"@, "string"@)]);
        assert(strings_view(q@) =~= seq!["elf_path"@]);
        let t = tool(
            "run_simulation",
            "Run a sandboxed STM32F4 ELF in Renode and capture USART2.",
            p,
            q,
        );
        let r = vec![t];
        assert(tools_view(r@) =~= tool_catalog(kind@));
        r
    } else {
        let r: Vec<McpTool> = Vec::new();
        assert(tools_view(r@) =~= tool_catalog(kind@));
        r
    }
}

/// The JSON-RPC methods a worker answers.
#[derive(PartialEq, Eq, Structural, Clone, Copy, Debug)]
pub enum McpMethod {
    Initialize,
    Initialized,
    ListTools,
    CallTool,
    Stop,
    Unknown,
}

pub open spec fn method_spec(m: Seq<char>) -> McpMethod {
    if m == "initialize"@ {
        McpMethod::Initialize
    } else if m == "notifications/initialized"@ {
        McpMethod::Initialized
    } else if m == "tools/list"@ {
        McpMethod::ListTools
    } else if m == "tools/call"@ {
        McpMethod::CallTool
    } else if m == "shutdown"@ || m == "exit"@ {
        McpMethod::Stop
    } else {
        McpMethod::Unknown
    }
}

/// Which JSON-RPC method a worker request names.
pub fn classify_method(m: &str) -> (r: McpMethod)
    ensures
        r == method_spec(m@),
{
    if str_eq(m, "initialize") {
        McpMethod::Initialize
    } else if str_eq(m, "notifications/initialized") {
        McpMethod::Initialized
    } else if str_eq(m, "tools/list") {
        McpMethod::ListTools
    } else if str_eq(m, "tools/call") {
        McpMethod::CallTool
    } else if str_eq(m, "shutdown") || str_eq(m, "exit") {
        McpMethod::Stop
    } else {
        McpMethod::Unknown
    }
}

/// The first problem with the sources handed to the firmware worker, file by
/// file in order: content that is not text, a file over the size limit, or a
/// path that leaves the sandbox.
pub open spec fn sources_problem(files: Seq<(Seq<char>, Option<Seq<char>>)>) -> Option<Seq<char>>
    decreases files.len(),
{
    if files.len() == 0 {
        None
    } else {
        match files[0].1 {
            None => Some("source content must be text"@),
            Some(c) => if byte_len(c) > MAX_EDIT_BYTES {
                Some("source file exceeds the MCP sandbox limit"@)
            } else if !all_normal(files[0].0) {
                Some("source path escaped the MCP sandbox"@)
            } else {
                sources_problem(files.drop_first())
            },
        }
    }
}

pub open spec fn sources_view(v: Seq<(String, Option<String>)>) -> Seq<(Seq<char>, Option<Seq<char>>)> {
    v.map_values(|p: (String, Option<String>)| (p.0@, p.1.deep_view()))
}

/// Checks the sources handed to the firmware worker and gives them back as
/// draft files, or the first problem found.
pub fn checked_sources(files: &Vec<(String, Option<String>)>) -> (r: Result<
    Vec<(String, String)>,
    String,
>)
    ensures
        match r {
            Ok(v) => sources_problem(sources_view(files@)) is None && v@.len() == files@.len()
                && forall|i: int|
                0 <= i < v@.len() ==> (#[trigger] v@[i]).0@ == files@[i].0@ && files@[i].1.deep_view()
                    == Some(v@[i].1@),
            Err(e) => sources_problem(sources_view(files@)) == Some(e@),
        },
{
    let ghost fs = sources_view(files@);
    let mut out: Vec<(String, String)> = Vec::new();
    let mut i: usize = 0;
    assert(fs.subrange(0, fs.len() as int) =~= fs);
    while i < files.len()
        invariant
            i <= files.len(),
            fs == sources_view(files@),
            sources_problem(fs) == sources_problem(fs.subrange(i as int, fs.len() as int)),
            out@.len() == i,
            forall|j: int|
                0 <= j < i ==> (#[trigger] out@[j]).0@ == files@[j].0@ && files@[j].1.deep_view()
                    == Some(out@[j].1@),
        decreases files.len() - i,
    {
        let ghost rest = fs.subrange(i as int, fs.len() as int);
        assert(rest[0] == fs[i as int]);
        assert(rest.drop_first() =~= fs.subrange(i + 1, fs.len() as int));
        let (path, contents) = &files[i];
        assert(rest[0] == (path@, contents.deep_view()));
        match contents {
            None => {
                return Err("source content must be text".to_owned());
            },
            Some(c) => {
                let cs = c.as_str();
                assert(cs@ == c@);
                if cs.len() > MAX_EDIT_BYTES {
                    return Err("source file exceeds the MCP sandbox limit".to_owned());
                }
                let ps = path.as_str();
                assert(ps@ == path@);
                if !sandboxed_source_path(ps) {
                    return Err("source path escaped the MCP sandbox".to_owned());
                }
                out.push((path.clone(), c.clone()));
                assert(sources_problem(rest) == sources_problem(rest.drop_first()));
            },
        }
        i += 1;
    }
    Ok(out)
}

/// Whether `p` is among `paths`.
pub fn has_path(paths: &Vec<String>, p: &str) -> (b: bool)
    ensures
        b == strings_view(paths@).contains(p@),
{
    let mut i: usize = 0;
    while i < paths.len()
        invariant
            i <= paths.len(),
            forall|j: int| 0 <= j < i ==> paths@[j]@ != p@,
        decreases paths.len() - i,
    {
        if str_eq(paths[i].as_str(), p) {
            assert(strings_view(paths@)[i as int] == p@);
            return true;
        }
        i += 1;
    }
    proof {
        if strings_view(paths@).contains(p@) {
            let k = choose|k: int| 0 <= k < strings_view(paths@).len() && strings_view(paths@)[k] == p@;
            assert(paths@[k]@ == p@);
        }
    }
    false
}

/// A workspace snapshot names the sources a board build needs: the
/// application, the startup code and the linker script.
pub open spec fn snapshot_complete_spec(paths: Seq<Seq<char>>) -> bool {
    paths.contains("src/main.c"@) && paths.contains("src/startup.c"@) && paths.contains(
        "link/stm32f4.ld"@,
    )
}

/// Whether a workspace snapshot names the sources a board build needs.
pub fn snapshot_complete(paths: &Vec<String>) -> (b: bool)
    ensures
        b == snapshot_complete_spec(strings_view(paths@)),
{
    has_path(paths, "src/main.c") && has_path(paths, "src/startup.c") && has_path(
        paths,
        "link/stm32f4.ld",
    )
}

/// The tools a worker serves itself.
#[derive(PartialEq, Eq, Structural, Clone, Copy, Debug)]
pub enum LocalTool {
    RegisterMap,
    LookupRegister,
    CompileFirmware,
    RunSimulation,
}

/// Which tool a worker of kind `kind` serves under `name`: each kind serves
/// only the tools of its catalog.
pub open spec fn local_tool_spec(kind: Seq<char>, name: Seq<char>) -> Option<LocalTool> {
    if kind == "datasheet"@ && name == "register_map"@ {
        Some(LocalTool::RegisterMap)
    } else if kind == "datasheet"@ && name == "lookup_register"@ {
        Some(LocalTool::LookupRegister)
    } else if kind == "firmware"@ && name == "compile_firmware"@ {
        Some(LocalTool::CompileFirmware)
    } else if kind == "simulation"@ && name == "run_simulation"@ {
        Some(LocalTool::RunSimulation)
    } else {
        None
    }
}

/// The tool a worker call names, or the error for a tool the worker does not
/// serve.
pub fn local_tool(kind: &str, name: &str) -> (r: Result<LocalTool, String>)
    ensures
        match r {
            Ok(t) => local_tool_spec(kind@, name@) == Some(t),
            Err(e) => local_tool_spec(kind@, name@) is None && e@ == "tool '"@ + name@
                + "' is not available on MCP server '"@ + kind@ + "'"@,
        },
{
    let ds = str_eq(kind, "datasheet");
    if ds && str_eq(name, "register_map") {
        Ok(LocalTool::RegisterMap)
    } else if ds && str_eq(name, "lookup_register") {
        Ok(LocalTool::LookupRegister)
    } else if str_eq(kind, "firmware") && str_eq(name, "compile_firmware") {
        Ok(LocalTool::CompileFirmware)
    } else if str_eq(kind, "simulation") && str_eq(name, "run_simulation") {
        Ok(LocalTool::RunSimulation)
    } else {
        let mut e: Vec<char> = chars_of("tool '");
        push_str(&mut e, name);
        push_str(&mut e, "' is not available on MCP server '");
        push_str(&mut e, kind);
        push_str(&mut e, "'");
        Err(crate::text::string_of(&e))
    }
}

/// The note a worker gives for a register its peripheral does not have.
pub fn worker_register_miss(peripheral: &str, register: &str) -> (r: String)
    ensures
        r@ == "register '"@ + peripheral@ + "."@ + register@ + "' is not in the structured source"@,
{
    let mut e: Vec<char> = chars_of("register '");
    push_str(&mut e, peripheral);
    push_str(&mut e, ".");
    push_str(&mut e, register);
    push_str(&mut e, "' is not in the structured source");
    crate::text::string_of(&e)
}

/// A note is shown in the workspace but never compiled or snapshotted.
pub fn is_note(path: &str) -> (b: bool)
    ensures
        b == crate::text::ends_with_spec(path@, ".md"@),
{
    crate::text::ends_with(&chars_of(path), ".md")
}

} // verus!
