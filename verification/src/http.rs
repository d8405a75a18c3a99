//! The local HTTP server's request handling: the request line, the headers it
//! reads, who is admitted, which route a request takes, and how query
//! parameters are decoded. Sockets and files stay with the host.

use vstd::prelude::*;
use vstd::utf8::{decode_utf8, encode_utf8, is_continuation_byte, valid_utf8};
use crate::text::{lossy_utf8, utf8_lossy};
use crate::desktop::is_local_host_spec;
use crate::num::{parse_radix, parse_radix_exec};
use crate::text::{
    chars_eq, chars_eq_ignore_case, chars_of, eq_ignore_case_spec, is_ws, slice,
    split_chars, split_once_chars, split_once_spec, split_spec, str_eq, string_of, strips_exec,
    trim, trim_spec, Strip,
};

verus! {

// ---------------------------------------------------------------------------
// The request line
// ---------------------------------------------------------------------------

/// The first index at or after `i` that is not whitespace.
pub open spec fn skip_ws_from(s: Seq<char>, i: int) -> int
    decreases s.len() - i,
{
    if 0 <= i < s.len() && is_ws(s[i]) {
        skip_ws_from(s, i + 1)
    } else {
        i
    }
}

/// The first index at or after `i` that is whitespace (or the end).
pub open spec fn word_end(s: Seq<char>, i: int) -> int
    decreases s.len() - i,
{
    if 0 <= i < s.len() && !is_ws(s[i]) {
        word_end(s, i + 1)
    } else {
        i
    }
}

/// The word of `s` that starts at the first non-space at or after `i`.
pub open spec fn word_at(s: Seq<char>, i: int) -> Option<Seq<char>> {
    let a = skip_ws_from(s, i);
    let e = word_end(s, a);
    if a < e {
        Some(s.subrange(a, e))
    } else {
        None
    }
}

/// The request line's method and target, as `split_whitespace` gives them:
/// `GET` and `/` where a word is missing.
pub open spec fn request_target_spec(line: Seq<char>) -> (Seq<char>, Seq<char>) {
    let first_end = word_end(line, skip_ws_from(line, 0));
    let method = match word_at(line, 0) {
        Some(w) => w,
        None => "GET"@,
    };
    let target = match word_at(line, first_end) {
        Some(w) => w,
        None => "/"@,
    };
    (method, target)
}

proof fn lemma_skip_ws_bounds(s: Seq<char>, i: int)
    requires
        0 <= i <= s.len(),
    ensures
        i <= skip_ws_from(s, i) <= s.len(),
        forall|j: int| i <= j < skip_ws_from(s, i) ==> is_ws(#[trigger] s[j]),
    decreases s.len() - i,
{
    if i < s.len() && is_ws(s[i]) {
        lemma_skip_ws_bounds(s, i + 1);
    }
}

proof fn lemma_word_end_bounds(s: Seq<char>, i: int)
    requires
        0 <= i <= s.len(),
    ensures
        i <= word_end(s, i) <= s.len(),
    decreases s.len() - i,
{
    if i < s.len() && !is_ws(s[i]) {
        lemma_word_end_bounds(s, i + 1);
    }
}

fn skip_ws_exec(v: &Vec<char>, i: usize) -> (r: usize)
    requires
        i <= v.len(),
    ensures
        r as int == skip_ws_from(v@, i as int),
        i <= r <= v.len(),
{
    let mut k: usize = i;
    while k < v.len() && strips_exec(&Strip::Whitespace, v[k])
        invariant
            i <= k <= v.len(),
            skip_ws_from(v@, i as int) == skip_ws_from(v@, k as int),
        decreases v.len() - k,
    {
        k += 1;
    }
    k
}

fn word_end_exec(v: &Vec<char>, i: usize) -> (r: usize)
    requires
        i <= v.len(),
    ensures
        r as int == word_end(v@, i as int),
        i <= r <= v.len(),
{
    let mut k: usize = i;
    while k < v.len() && !strips_exec(&Strip::Whitespace, v[k])
        invariant
            i <= k <= v.len(),
            word_end(v@, i as int) == word_end(v@, k as int),
        decreases v.len() - k,
    {
        k += 1;
    }
    k
}

/// The method and target of a request line (`GET` and `/` when missing).
pub fn request_target(line: &str) -> (r: (String, String))
    ensures
        (r.0@, r.1@) == request_target_spec(line@),
{
    let v = chars_of(line);
    let a = skip_ws_exec(&v, 0);
    let e = word_end_exec(&v, a);
    let method = if a < e {
        string_of(&slice(&v, a, e))
    } else {
        "GET".to_owned()
    };
    let b = skip_ws_exec(&v, e);
    let f = word_end_exec(&v, b);
    let target = if b < f {
        string_of(&slice(&v, b, f))
    } else {
        "/".to_owned()
    };
    (method, target)
}

/// The route and query of a request target: the text before and after the
/// first `?` (an empty query when there is none).
pub open spec fn route_query_spec(target: Seq<char>) -> (Seq<char>, Seq<char>) {
    match split_once_spec(target, '?') {
        Some(p) => p,
        None => (target, Seq::empty()),
    }
}

/// Splits a request target into its route and its query.
pub fn route_and_query(target: &str) -> (r: (String, String))
    ensures
        (r.0@, r.1@) == route_query_spec(target@),
{
    let v = chars_of(target);
    match split_once_chars(&v, '?') {
        Some((route, query)) => (string_of(&route), string_of(&query)),
        None => {
            let empty: Vec<char> = Vec::new();
            assert(empty@ =~= Seq::<char>::empty());
            (target.to_owned(), string_of(&empty))
        },
    }
}

// ---------------------------------------------------------------------------
// Headers
// ---------------------------------------------------------------------------

/// What the server keeps of a request's headers.
pub struct RequestHead {
    pub content_length: usize,
    pub host: Option<String>,
    pub origin: Option<String>,
    pub fetch_site: Option<String>,
    pub local_client: bool,
}

#[verifier::ext_equal]
pub struct HeadView {
    pub content_length: usize,
    pub host: Option<Seq<char>>,
    pub origin: Option<Seq<char>>,
    pub fetch_site: Option<Seq<char>>,
    pub local_client: bool,
}

impl View for RequestHead {
    type V = HeadView;

    open spec fn view(&self) -> HeadView {
        HeadView {
            content_length: self.content_length,
            host: self.host.deep_view(),
            origin: self.origin.deep_view(),
            fetch_site: self.fetch_site.deep_view(),
            local_client: self.local_client,
        }
    }
}

/// `str::parse::<usize>(..).unwrap_or(0)`.
pub open spec fn length_value(s: Seq<char>) -> usize {
    match parse_radix(s, 10, usize::MAX as nat) {
        Some(v) => v as usize,
        None => 0,
    }
}

/// One header line applied to what has been read so far: a line `name:
/// value` whose name is one of the five the server reads (in any ASCII case)
/// records its trimmed value; any other line changes nothing.
pub open spec fn apply_header_spec(h: HeadView, line: Seq<char>) -> HeadView {
    match split_once_spec(line, ':') {
        None => h,
        Some((name, value)) => {
            let v = trim_spec(value);
            if eq_ignore_case_spec(name, "content-length"@) {
                HeadView { content_length: length_value(v), ..h }
            } else if eq_ignore_case_spec(name, "host"@) {
                HeadView { host: Some(v), ..h }
            } else if eq_ignore_case_spec(name, "origin"@) {
                HeadView { origin: Some(v), ..h }
            } else if eq_ignore_case_spec(name, "sec-fetch-site"@) {
                HeadView { fetch_site: Some(v), ..h }
            } else if eq_ignore_case_spec(name, "x-embeder-client"@) {
                HeadView { local_client: v == "1"@, ..h }
            } else {
                h
            }
        },
    }
}

/// The request may proceed: its `Host` is this server on loopback, any
/// `Origin` is `http://` and this server, and it is not a cross-site fetch.
pub open spec fn admitted_spec(h: HeadView, port: u16) -> bool {
    &&& h.host matches Some(host) && is_local_host_spec(host, port)
    &&& h.origin matches Some(o) ==> (o.len() >= 7 && o.subrange(0, 7) == "http://"@
        && is_local_host_spec(o.subrange(7, o.len() as int), port))
    &&& h.fetch_site != Some("cross-site"@)
}

/// Largest request body, in bytes.
pub const MAX_BODY_BYTES: usize = 524288;

/// Longest request line, in bytes.
pub const MAX_REQUEST_LINE_BYTES: usize = 8192;

/// Largest total size of a request's header lines, in bytes.
pub const MAX_HEADER_BYTES: usize = 32768;

/// What the server answers before it reads a body.
pub enum Admission {
    Admitted,
    Forbidden,
    TooLarge,
}

impl RequestHead {
    /// Nothing read yet.
    pub fn new() -> (r: RequestHead)
        ensures
            r@ == (HeadView {
                content_length: 0,
                host: None,
                origin: None,
                fetch_site: None,
                local_client: false,
            }),
    {
        RequestHead { content_length: 0, host: None, origin: None, fetch_site: None, local_client: false }
    }

    /// Reads one header line.
    pub fn apply(&mut self, line: &str)
        ensures
            final(self)@ == apply_header_spec(old(self)@, line@),
    {
        let v = chars_of(line);
        let (name, value) = match split_once_chars(&v, ':') {
            Some(p) => p,
            None => return ,
        };
        let value = trim(&value);
        if chars_eq_ignore_case(&name, &chars_of("content-length")) {
            let n = match parse_radix_exec(&value, 10, usize::MAX as u64) {
                Some(n) => n as usize,
                None => 0,
            };
            self.content_length = n;
        } else if chars_eq_ignore_case(&name, &chars_of("host")) {
            self.host = Some(string_of(&value));
        } else if chars_eq_ignore_case(&name, &chars_of("origin")) {
            self.origin = Some(string_of(&value));
        } else if chars_eq_ignore_case(&name, &chars_of("sec-fetch-site")) {
            self.fetch_site = Some(string_of(&value));
        } else if chars_eq_ignore_case(&name, &chars_of("x-embeder-client")) {
            self.local_client = chars_eq(&value, &chars_of("1"));
        }
        assert(self@ =~= apply_header_spec(old(self)@, line@));
    }

    /// Whether the request may proceed.
    pub fn admitted(&self, port: u16) -> (b: bool)
        ensures
            b == admitted_spec(self@, port),
    {
        let host_ok = match &self.host {
            Some(h) => crate::desktop::is_local_host(h.as_str(), port),
            None => false,
        };
        if !host_ok {
            return false;
        }
        match &self.origin {
            Some(o) => {
                let v = chars_of(o.as_str());
                let prefix = chars_of("http://");
                proof {
                    reveal_strlit("http://");
                }
                if v.len() < 7 {
                    return false;
                }
                if !chars_eq(&slice(&v, 0, 7), &prefix) {
                    return false;
                }
                let rest = string_of(&slice(&v, 7, v.len()));
                if !crate::desktop::is_local_host(rest.as_str(), port) {
                    return false;
                }
            },
            None => {},
        }
        match &self.fetch_site {
            Some(f) => !str_eq(f.as_str(), "cross-site"),
            None => true,
        }
    }

    /// The answer before the body is read: forbidden unless admitted, then
    /// too large above the body limit.
    pub fn admission(&self, port: u16) -> (r: Admission)
        ensures
            r == (if !admitted_spec(self@, port) {
                Admission::Forbidden
            } else if self.content_length > MAX_BODY_BYTES {
                Admission::TooLarge
            } else {
                Admission::Admitted
            }),
    {
        if !self.admitted(port) {
            Admission::Forbidden
        } else if self.content_length > MAX_BODY_BYTES {
            Admission::TooLarge
        } else {
            Admission::Admitted
        }
    }
}

// ---------------------------------------------------------------------------
// Routes
// ---------------------------------------------------------------------------

/// Where a request goes.
#[derive(PartialEq, Eq, Structural, Clone, Copy, Debug)]
pub enum Route {
    Project,
    Peripherals,
    RegisterMap,
    Firmware,
    Workspace,
    ReadFile,
    SaveFile,
    McpStatus,
    McpProbe,
    StartTask,
    Generate,
    TaskStatus,
    Run,
    Static,
    ClientHeaderRequired,
    NotAllowed,
}

/// The route table: a POST without the local client header is refused, the
/// API paths are matched exactly, any other GET is a static file.
pub open spec fn route_spec(method: Seq<char>, path: Seq<char>, local_client: bool) -> Route {
    let get = method == "GET"@;
    let post = method == "POST"@;
    if post && !local_client {
        Route::ClientHeaderRequired
    } else if get && path == "/api/project"@ {
        Route::Project
    } else if get && path == "/api/peripherals"@ {
        Route::Peripherals
    } else if get && path == "/api/register_map"@ {
        Route::RegisterMap
    } else if get && path == "/api/firmware"@ {
        Route::Firmware
    } else if get && path == "/api/workspace"@ {
        Route::Workspace
    } else if get && path == "/api/file"@ {
        Route::ReadFile
    } else if post && path == "/api/file"@ {
        Route::SaveFile
    } else if get && path == "/api/mcp"@ {
        Route::McpStatus
    } else if get && path == "/api/mcp_probe"@ {
        Route::McpProbe
    } else if post && path == "/api/tasks"@ {
        Route::StartTask
    } else if post && path == "/api/generate"@ {
        Route::Generate
    } else if get && path == "/api/task"@ {
        Route::TaskStatus
    } else if post && path == "/api/run"@ {
        Route::Run
    } else if get {
        Route::Static
    } else {
        Route::NotAllowed
    }
}

/// The route of a request.
pub fn route_for(method: &str, path: &str, local_client: bool) -> (r: Route)
    ensures
        r == route_spec(method@, path@, local_client),
{
    let get = str_eq(method, "GET");
    let post = str_eq(method, "POST");
    if post && !local_client {
        Route::ClientHeaderRequired
    } else if get && str_eq(path, "/api/project") {
        Route::Project
    } else if get && str_eq(path, "/api/peripherals") {
        Route::Peripherals
    } else if get && str_eq(path, "/api/register_map") {
        Route::RegisterMap
    } else if get && str_eq(path, "/api/firmware") {
        Route::Firmware
    } else if get && str_eq(path, "/api/workspace") {
        Route::Workspace
    } else if get && str_eq(path, "/api/file") {
        Route::ReadFile
    } else if post && str_eq(path, "/api/file") {
        Route::SaveFile
    } else if get && str_eq(path, "/api/mcp") {
        Route::McpStatus
    } else if get && str_eq(path, "/api/mcp_probe") {
        Route::McpProbe
    } else if post && str_eq(path, "/api/tasks") {
        Route::StartTask
    } else if post && str_eq(path, "/api/generate") {
        Route::Generate
    } else if get && str_eq(path, "/api/task") {
        Route::TaskStatus
    } else if post && str_eq(path, "/api/run") {
        Route::Run
    } else if get {
        Route::Static
    } else {
        Route::NotAllowed
    }
}

// ---------------------------------------------------------------------------
// Query parameters
// ---------------------------------------------------------------------------

/// The value of an ASCII hex digit.
pub open spec fn hex_digit(b: u8) -> Option<nat> {
    if 48 <= b <= 57 {
        Some((b - 48) as nat)
    } else if 97 <= b <= 102 {
        Some((b - 87) as nat)
    } else if 65 <= b <= 70 {
        Some((b - 55) as nat)
    } else {
        None
    }
}

/// `u8::from_str_radix(hex, 16)` on the two bytes after a `%`: two hex
/// digits, or `+` and one hex digit.
pub open spec fn escape_value(b1: u8, b2: u8) -> Option<u8> {
    if b1 == 43 {
        match hex_digit(b2) {
            Some(v) => Some(v as u8),
            None => None,
        }
    } else {
        match (hex_digit(b1), hex_digit(b2)) {
            (Some(h), Some(l)) => Some((h * 16 + l) as u8),
            _ => None,
        }
    }
}

/// The bytes that percent-decoding produces from position `i` on: `%` and a
/// valid escape give one byte, `+` gives a space, anything else itself.
pub open spec fn decode_from(b: Seq<u8>, i: int) -> Seq<u8>
    decreases b.len() - i,
{
    if i < 0 || i >= b.len() {
        Seq::empty()
    } else if b[i] == 37 && i + 2 < b.len() && escape_value(b[i + 1], b[i + 2]) is Some {
        seq![escape_value(b[i + 1], b[i + 2]).unwrap()] + decode_from(b, i + 3)
    } else {
        seq![if b[i] == 43 { 32u8 } else { b[i] }] + decode_from(b, i + 1)
    }
}

/// The percent-decoded bytes of `s`.
pub open spec fn percent_bytes(s: Seq<char>) -> Seq<u8> {
    decode_from(encode_utf8(s), 0)
}

/// Decoding reads the two characters after each `%` as one string slice, so
/// the byte three past a `%` must start a character.
pub open spec fn percent_safe(s: Seq<char>) -> bool {
    let b = encode_utf8(s);
    forall|i: int|
        0 <= i && i + 3 < b.len() && #[trigger] b[i] == 37 ==> !is_continuation_byte(b[i + 3])
}

fn escape_value_exec(b1: u8, b2: u8) -> (r: Option<u8>)
    ensures
        r == escape_value(b1, b2),
{
    let h2: u8 = if 48 <= b2 && b2 <= 57 {
        b2 - 48
    } else if 97 <= b2 && b2 <= 102 {
        b2 - 87
    } else if 65 <= b2 && b2 <= 70 {
        b2 - 55
    } else {
        return None;
    };
    if b1 == 43 {
        return Some(h2);
    }
    let h1: u8 = if 48 <= b1 && b1 <= 57 {
        b1 - 48
    } else if 97 <= b1 && b1 <= 102 {
        b1 - 87
    } else if 65 <= b1 && b1 <= 70 {
        b1 - 55
    } else {
        return None;
    };
    Some(h1 * 16 + h2)
}

/// Percent-decodes a query value: `%XX` escapes become bytes, `+` a space,
/// and the bytes are read as UTF-8 with replacement characters.
pub fn percent_decode(value: &str) -> (r: String)
    requires
        percent_safe(value@),
    ensures
        r@ == lossy_utf8(percent_bytes(value@)),
        valid_utf8(percent_bytes(value@)) ==> r@ == decode_utf8(percent_bytes(value@)),
{
    let bytes = value.as_bytes();
    let ghost b = bytes@;
    let mut out: Vec<u8> = Vec::new();
    let mut i: usize = 0;
    while i < bytes.len()
        invariant
            b == bytes@,
            i <= bytes.len(),
            out@ + decode_from(b, i as int) == decode_from(b, 0),
        decreases bytes.len() - i,
    {
        if bytes[i] == 37 && bytes.len() - i > 2 {
            match escape_value_exec(bytes[i + 1], bytes[i + 2]) {
                Some(v) => {
                    proof {
                        assert(out@.push(v) + decode_from(b, i + 3) =~= out@ + decode_from(
                            b,
                            i as int,
                        ));
                    }
                    out.push(v);
                    i += 3;
                    continue;
                },
                None => {},
            }
        }
        let c: u8 = if bytes[i] == 43 {
            32
        } else {
            bytes[i]
        };
        proof {
            assert(out@.push(c) + decode_from(b, i + 1) =~= out@ + decode_from(b, i as int));
        }
        out.push(c);
        i += 1;
    }
    assert(out@ =~= decode_from(b, 0));
    utf8_lossy(&out)
}

/// The raw value of the first `key=value` piece of the query whose key is
/// `key` (pieces without `=` are skipped).
pub open spec fn param_in(pieces: Seq<Seq<char>>, key: Seq<char>) -> Option<Seq<char>>
    decreases pieces.len(),
{
    if pieces.len() == 0 {
        None
    } else {
        match split_once_spec(pieces[0], '=') {
            Some((k, v)) => if k == key {
                Some(v)
            } else {
                param_in(pieces.drop_first(), key)
            },
            None => param_in(pieces.drop_first(), key),
        }
    }
}

/// The raw value of `key` in a query string.
pub open spec fn param_raw(query: Seq<char>, key: Seq<char>) -> Option<Seq<char>> {
    param_in(split_spec(query, '&'), key)
}

/// The raw (still encoded) value of `key` in a query string.
pub fn query_param_raw(query: &str, key: &str) -> (r: Option<String>)
    ensures
        r.deep_view() == param_raw(query@, key@),
{
    let pieces = split_chars(&chars_of(query), '&');
    let k = chars_of(key);
    let ghost ps = split_spec(query@, '&');
    let mut i: usize = 0;
    assert(ps.subrange(0, ps.len() as int) =~= ps);
    while i < pieces.len()
        invariant
            i <= pieces.len(),
            pieces@.len() == ps.len(),
            ps == split_spec(query@, '&'),
            k@ == key@,
            forall|j: int| 0 <= j < pieces@.len() ==> (#[trigger] pieces@[j])@ == ps[j],
            param_raw(query@, key@) == param_in(ps.subrange(i as int, ps.len() as int), key@),
        decreases pieces.len() - i,
    {
        let ghost rest = ps.subrange(i as int, ps.len() as int);
        assert(rest[0] == ps[i as int]);
        assert(rest.drop_first() =~= ps.subrange(i + 1, ps.len() as int));
        match split_once_chars(&pieces[i], '=') {
            Some((name, value)) => {
                if chars_eq(&name, &k) {
                    assert(split_once_spec(rest[0], '=') == Some((name@, value@)));
                    return Some(string_of(&value));
                }
            },
            None => {},
        }
        i += 1;
    }
    None
}

/// Whether decoding `value` reads every escape on character boundaries.
pub fn is_percent_safe(value: &str) -> (b: bool)
    ensures
        b == percent_safe(value@),
{
    let bytes = value.as_bytes();
    let ghost bs = bytes@;
    assert(bs == encode_utf8(value@));
    let mut i: usize = 0;
    while i < bytes.len()
        invariant
            bs == bytes@,
            bs == encode_utf8(value@),
            i <= bytes.len(),
            forall|j: int|
                0 <= j < i && j + 3 < bs.len() && #[trigger] bs[j] == 37 ==> !is_continuation_byte(
                    bs[j + 3],
                ),
        decreases bytes.len() - i,
    {
        if bytes[i] == 37 && bytes.len() - i > 3 {
            let c = bytes[i + 3];
            if 0x80 <= c && c <= 0xbf {
                assert(bs[i as int] == 37 && i + 3 < bs.len() && is_continuation_byte(bs[i + 3]));
                return false;
            }
        }
        i += 1;
    }
    true
}

/// The decoded value of `key` in a query string, if the query has it.
pub fn query_param(query: &str, key: &str) -> (r: Option<String>)
    requires
        param_raw(query@, key@) matches Some(v) ==> percent_safe(v),
    ensures
        match r {
            Some(s) => param_raw(query@, key@) matches Some(v) && s@ == lossy_utf8(
                percent_bytes(v),
            ),
            None => param_raw(query@, key@) is None,
        },
{
    match query_param_raw(query, key) {
        Some(raw) => Some(percent_decode(raw.as_str())),
        None => None,
    }
}

} // verus!
