//! HTTP requests and replies: gathering the bytes of a request, deciding what
//! it asks for, and writing the head of each reply.
use vstd::prelude::*;
use vstd::string::StringSliceAdditionalSpecFns;
use vstd::utf8::{decode_utf8, valid_utf8};

use crate::num::{all_digits, decimal, spec_parse_u64, u64_decimal};
use crate::query::{last_value, query_pairs, query_value};
use crate::store::StringMap;
use crate::text::{
    append_chars, chars_are, chars_of, copy_range, find_char, find_first, lines, split_lines,
    split_whitespace, string_of, words,
};

verus! {

// ---------------------------------------------------------------------------
// Gathering the request
// ---------------------------------------------------------------------------
/// The largest request head that is read; a request that reaches this many
/// bytes without a blank line is refused.
pub const MAX_REQUEST_BYTES: usize = 8192;

/// Whether the bytes `\r\n\r\n` stand in `s` at position `i`.
pub open spec fn header_end_at(s: Seq<u8>, i: int) -> bool {
    &&& 0 <= i
    &&& i + 4 <= s.len()
    &&& s[i] == 13u8
    &&& s[i + 1] == 10u8
    &&& s[i + 2] == 13u8
    &&& s[i + 3] == 10u8
}

/// Whether `s` holds the blank line `\r\n\r\n` that ends a request head.
pub open spec fn has_header_end(s: Seq<u8>) -> bool {
    exists|i: int| header_end_at(s, i)
}

/// What to do after a read.
#[derive(PartialEq, Eq, Structural, Clone, Copy, Debug)]
pub enum ReadStep {
    /// Read again.
    NeedMore,
    /// The request is read: the stream ended or the head is complete.
    Complete,
    /// The head is too long; answer with status 431.
    TooLarge,
}

/// The step after a read of `chunk_len` bytes that left `buffer` gathered.
/// A read of no bytes means that the stream ended.
pub open spec fn read_step(chunk_len: nat, buffer: Seq<u8>) -> ReadStep {
    if chunk_len == 0 {
        ReadStep::Complete
    } else if has_header_end(buffer) {
        ReadStep::Complete
    } else if buffer.len() >= MAX_REQUEST_BYTES {
        ReadStep::TooLarge
    } else {
        ReadStep::NeedMore
    }
}

/// A reader asks for more only while it holds less than the limit and no
/// blank line; it reports the head complete as soon as it holds a blank
/// line, and refuses the request only once the limit is reached without one.
pub proof fn law_read_step(chunk_len: nat, buffer: Seq<u8>)
    ensures
        MAX_REQUEST_BYTES == 8192,
        chunk_len == 0 ==> read_step(chunk_len, buffer) == ReadStep::Complete,
        read_step(chunk_len, buffer) == ReadStep::NeedMore ==> buffer.len() < 8192
            && !has_header_end(buffer),
        chunk_len > 0 && has_header_end(buffer) ==> read_step(chunk_len, buffer)
            == ReadStep::Complete,
        chunk_len > 0 && !has_header_end(buffer) && buffer.len() >= 8192 ==> read_step(
            chunk_len,
            buffer,
        ) == ReadStep::TooLarge,
        chunk_len > 0 && !has_header_end(buffer) && buffer.len() < 8192 ==> read_step(
            chunk_len,
            buffer,
        ) == ReadStep::NeedMore,
{
}

/// A head is complete exactly when the bytes carriage return, line feed,
/// carriage return, line feed stand somewhere in it.
pub proof fn law_header_end(buffer: Seq<u8>)
    ensures
        has_header_end(buffer) <==> exists|i: int|
            0 <= i && i + 4 <= buffer.len() && #[trigger] buffer.subrange(i, i + 4) == seq![
                13u8,
                10u8,
                13u8,
                10u8,
            ],
{
    if has_header_end(buffer) {
        let i = choose|i: int| header_end_at(buffer, i);
        assert(buffer.subrange(i, i + 4) =~= seq![13u8, 10u8, 13u8, 10u8]);
    }
    if exists|i: int|
        0 <= i && i + 4 <= buffer.len() && #[trigger] buffer.subrange(i, i + 4) == seq![
            13u8,
            10u8,
            13u8,
            10u8,
        ] {
        let i = choose|i: int|
            0 <= i && i + 4 <= buffer.len() && #[trigger] buffer.subrange(i, i + 4) == seq![
                13u8,
                10u8,
                13u8,
                10u8,
            ];
        assert(buffer.subrange(i, i + 4)[0] == buffer[i]);
        assert(buffer.subrange(i, i + 4)[1] == buffer[i + 1]);
        assert(buffer.subrange(i, i + 4)[2] == buffer[i + 2]);
        assert(buffer.subrange(i, i + 4)[3] == buffer[i + 3]);
        assert(header_end_at(buffer, i));
    }
}

/// The bytes of a request gathered so far.
pub struct RequestReader {
    bytes: Vec<u8>,
}

impl View for RequestReader {
    type V = Seq<u8>;

    closed spec fn view(&self) -> Seq<u8> {
        self.bytes@
    }
}

/// Whether `s` holds `\r\n\r\n`.
fn contains_header_end(s: &[u8]) -> (r: bool)
    ensures
        r == has_header_end(s@),
{
    let n = s.len();
    if n < 4 {
        return false;
    }
    let mut i: usize = 0;
    while i < n - 3
        invariant
            n == s@.len(),
            n >= 4,
            i <= n - 3,
            forall|j: int| 0 <= j < i ==> !header_end_at(s@, j),
        decreases n - i,
    {
        if s[i] == 13 && s[i + 1] == 10 && s[i + 2] == 13 && s[i + 3] == 10 {
            assert(header_end_at(s@, i as int));
            return true;
        }
        i += 1;
    }
    assert forall|j: int| !header_end_at(s@, j) by {
        if 0 <= j && j + 4 <= n {
            assert(j < i);
        }
    }
    false
}

impl RequestReader {
    /// A reader that holds no bytes yet.
    pub fn new() -> (r: Self)
        ensures
            r@ == Seq::<u8>::empty(),
    {
        RequestReader { bytes: Vec::new() }
    }

    /// Adds the bytes of one read (none when the stream ended) and tells
    /// what to do next.
    pub fn feed(&mut self, chunk: &[u8]) -> (r: ReadStep)
        ensures
            final(self)@ == old(self)@ + chunk@,
            r == read_step(chunk@.len(), final(self)@),
    {
        let mut i: usize = 0;
        while i < chunk.len()
            invariant
                i <= chunk@.len(),
                self@ == old(self)@ + chunk@.take(i as int),
            decreases chunk@.len() - i,
        {
            self.bytes.push(chunk[i]);
            i += 1;
            assert(self@ =~= old(self)@ + chunk@.take(i as int));
        }
        assert(chunk@.take(chunk@.len() as int) =~= chunk@);
        if chunk.len() == 0 {
            return ReadStep::Complete;
        }
        if contains_header_end(self.bytes.as_slice()) {
            ReadStep::Complete
        } else if self.bytes.len() >= MAX_REQUEST_BYTES {
            ReadStep::TooLarge
        } else {
            ReadStep::NeedMore
        }
    }

    /// The bytes gathered.
    pub fn bytes(&self) -> (r: &[u8])
        ensures
            r@ == self@,
    {
        self.bytes.as_slice()
    }
}

// ---------------------------------------------------------------------------
// Deciding what a request asks for
// ---------------------------------------------------------------------------
/// The files that are served from memory.
#[derive(PartialEq, Eq, Structural, Clone, Copy, Debug)]
pub enum StaticAsset {
    IndexHtml,
    MainCss,
    MainJs,
}

/// The key under which an asset is cached.
pub open spec fn asset_key(a: StaticAsset) -> Seq<char> {
    match a {
        StaticAsset::IndexHtml => "/index.html"@,
        StaticAsset::MainCss => "/main.css"@,
        StaticAsset::MainJs => "/main.js"@,
    }
}

/// The content type with which an asset is served.
pub open spec fn asset_content_type(a: StaticAsset) -> Seq<char> {
    match a {
        StaticAsset::IndexHtml => "text/html; charset=utf-8"@,
        StaticAsset::MainCss => "text/css; charset=utf-8"@,
        StaticAsset::MainJs => "application/javascript; charset=utf-8"@,
    }
}

impl StaticAsset {
    /// The key under which the asset is cached.
    pub fn key(&self) -> (r: &'static str)
        ensures
            r@ == asset_key(*self),
    {
        match self {
            StaticAsset::IndexHtml => "/index.html",
            StaticAsset::MainCss => "/main.css",
            StaticAsset::MainJs => "/main.js",
        }
    }

    /// The content type with which the asset is served.
    pub fn content_type(&self) -> (r: &'static str)
        ensures
            r@ == asset_content_type(*self),
    {
        match self {
            StaticAsset::IndexHtml => "text/html; charset=utf-8",
            StaticAsset::MainCss => "text/css; charset=utf-8",
            StaticAsset::MainJs => "application/javascript; charset=utf-8",
        }
    }
}

/// What a request asks for.
pub enum Route {
    /// A file served from memory.
    Static(StaticAsset),
    /// The price comparison, with the query string.
    Calculate(String),
    /// Memory and processor use.
    Metrics,
    /// A description of the host.
    SysInfo,
    /// A provider's icon, with the query string.
    Icon(String),
    /// An unknown path: status 404.
    NotFound,
    /// A method other than `GET`: status 405.
    MethodNotAllowed,
    /// Not a readable request: the connection is closed without a reply.
    Ignore,
}

/// What a request asks for, with the query strings as character sequences.
pub enum RouteView {
    Static(StaticAsset),
    Calculate(Seq<char>),
    Metrics,
    SysInfo,
    Icon(Seq<char>),
    NotFound,
    MethodNotAllowed,
    Ignore,
}

impl View for Route {
    type V = RouteView;

    open spec fn view(&self) -> RouteView {
        match self {
            Route::Static(a) => RouteView::Static(*a),
            Route::Calculate(q) => RouteView::Calculate(q@),
            Route::Metrics => RouteView::Metrics,
            Route::SysInfo => RouteView::SysInfo,
            Route::Icon(q) => RouteView::Icon(q@),
            Route::NotFound => RouteView::NotFound,
            Route::MethodNotAllowed => RouteView::MethodNotAllowed,
            Route::Ignore => RouteView::Ignore,
        }
    }
}

/// The route for a `GET` of `path` with the query string `query`.
pub open spec fn route_path(path: Seq<char>, query: Seq<char>) -> RouteView {
    if path == "/"@ || path == "/index.html"@ {
        RouteView::Static(StaticAsset::IndexHtml)
    } else if path == "/main.css"@ {
        RouteView::Static(StaticAsset::MainCss)
    } else if path == "/main.js"@ {
        RouteView::Static(StaticAsset::MainJs)
    } else if path == "/api/calculate"@ {
        RouteView::Calculate(query)
    } else if path == "/api/metrics"@ {
        RouteView::Metrics
    } else if path == "/api/sysinfo"@ {
        RouteView::SysInfo
    } else if path == "/api/icon"@ {
        RouteView::Icon(query)
    } else {
        RouteView::NotFound
    }
}

/// The served paths are distinct texts.
proof fn lemma_route_paths_distinct()
    ensures
        "/"@ != "/index.html"@,
        "/"@ != "/main.css"@,
        "/"@ != "/main.js"@,
        "/"@ != "/api/calculate"@,
        "/"@ != "/api/icon"@,
        "/"@ != "/api/metrics"@,
        "/"@ != "/api/sysinfo"@,
        "/index.html"@ != "/main.css"@,
        "/index.html"@ != "/main.js"@,
        "/index.html"@ != "/api/calculate"@,
        "/index.html"@ != "/api/icon"@,
        "/index.html"@ != "/api/metrics"@,
        "/index.html"@ != "/api/sysinfo"@,
        "/main.css"@ != "/main.js"@,
        "/main.css"@ != "/api/calculate"@,
        "/main.css"@ != "/api/icon"@,
        "/main.css"@ != "/api/metrics"@,
        "/main.css"@ != "/api/sysinfo"@,
        "/main.js"@ != "/api/calculate"@,
        "/main.js"@ != "/api/icon"@,
        "/main.js"@ != "/api/metrics"@,
        "/main.js"@ != "/api/sysinfo"@,
        "/api/calculate"@ != "/api/icon"@,
        "/api/calculate"@ != "/api/metrics"@,
        "/api/calculate"@ != "/api/sysinfo"@,
        "/api/icon"@ != "/api/metrics"@,
        "/api/icon"@ != "/api/sysinfo"@,
        "/api/metrics"@ != "/api/sysinfo"@,
{
    reveal_strlit("/");
    reveal_strlit("/index.html");
    reveal_strlit("/main.css");
    reveal_strlit("/main.js");
    reveal_strlit("/api/calculate");
    reveal_strlit("/api/icon");
    reveal_strlit("/api/metrics");
    reveal_strlit("/api/sysinfo");
    assert("/"@.len() == 1);
    assert("/index.html"@.len() == 11);
    assert("/main.css"@.len() == 9);
    assert("/main.js"@.len() == 8);
    assert("/api/calculate"@.len() == 14);
    assert("/api/icon"@.len() == 9);
    assert("/api/metrics"@.len() == 12);
    assert("/api/sysinfo"@.len() == 12);
    assert("/api/icon"@[1] != "/main.css"@[1]);
    assert("/api/metrics"@[5] != "/api/sysinfo"@[5]);
}

/// Which path gives which route: `/` and `/index.html` the page,
/// `/main.css` the stylesheet, `/main.js` the script, `/api/calculate` and
/// `/api/icon` their handlers with the query passed on unchanged,
/// `/api/metrics` and `/api/sysinfo` theirs; every other path is not found.
pub proof fn law_routes(path: Seq<char>, query: Seq<char>)
    ensures
        (path == "/"@ || path == "/index.html"@) <==> route_path(path, query) == RouteView::Static(
            StaticAsset::IndexHtml,
        ),
        path == "/main.css"@ <==> route_path(path, query) == RouteView::Static(
            StaticAsset::MainCss,
        ),
        path == "/main.js"@ <==> route_path(path, query) == RouteView::Static(StaticAsset::MainJs),
        path == "/api/calculate"@ <==> route_path(path, query) is Calculate,
        path == "/api/calculate"@ ==> route_path(path, query) == RouteView::Calculate(query),
        path == "/api/icon"@ <==> route_path(path, query) is Icon,
        path == "/api/icon"@ ==> route_path(path, query) == RouteView::Icon(query),
        path == "/api/metrics"@ <==> route_path(path, query) == RouteView::Metrics,
        path == "/api/sysinfo"@ <==> route_path(path, query) == RouteView::SysInfo,
        route_path(path, query) == RouteView::NotFound <==> !(path == "/"@ || path == "/index.html"@
            || path == "/main.css"@ || path == "/main.js"@ || path == "/api/calculate"@ || path
            == "/api/icon"@ || path == "/api/metrics"@ || path == "/api/sysinfo"@),
        route_path(path, query) != RouteView::MethodNotAllowed,
        route_path(path, query) != RouteView::Ignore,
{
    lemma_route_paths_distinct();
}

/// The cached files are kept under their paths and served with their types.
pub proof fn law_assets()
    ensures
        asset_key(StaticAsset::IndexHtml) == "/index.html"@,
        asset_key(StaticAsset::MainCss) == "/main.css"@,
        asset_key(StaticAsset::MainJs) == "/main.js"@,
        asset_content_type(StaticAsset::IndexHtml) == "text/html; charset=utf-8"@,
        asset_content_type(StaticAsset::MainCss) == "text/css; charset=utf-8"@,
        asset_content_type(StaticAsset::MainJs) == "application/javascript; charset=utf-8"@,
{
}

/// The path of a request target: the text before the first `?`.
pub open spec fn target_path(target: Seq<char>) -> Seq<char> {
    target.take(find_char(target, '?'))
}

/// The query of a request target: the text after the first `?`, or nothing.
pub open spec fn target_query(target: Seq<char>) -> Seq<char> {
    let k = find_char(target, '?');
    if k < target.len() {
        target.subrange(k + 1, target.len() as int)
    } else {
        seq![]
    }
}

/// A target is its path, then (when it has a `?`) a `?` and its query; the
/// path holds no `?`, and a target without `?` has an empty query.
pub proof fn law_target_parts(target: Seq<char>)
    ensures
        !target_path(target).contains('?'),
        target.contains('?') ==> target == target_path(target) + seq!['?'] + target_query(target),
        !target.contains('?') ==> target_path(target) == target && target_query(target).len()
            == 0,
{
    crate::text::lemma_find_char(target, '?');
    let k = find_char(target, '?');
    if target_path(target).contains('?') {
        let j = choose|j: int| 0 <= j < target_path(target).len() && target_path(target)[j] == '?';
        assert(target[j] == '?');
    }
    if target.contains('?') {
        let j = choose|j: int| 0 <= j < target.len() && target[j] == '?';
        assert(k <= j);
        assert(target =~= target_path(target) + seq!['?'] + target_query(target));
    } else {
        if k < target.len() {
            assert(target[k] == '?');
        }
        assert(target_path(target) =~= target);
    }
}

/// The route for the text of a request: its first line is split at white
/// space into a method and a target (at least two words are needed); a
/// method other than `GET` is refused, and the target's path picks the route.
pub open spec fn route_text(text: Seq<char>) -> RouteView {
    let ls = lines(text);
    if ls.len() == 0 {
        RouteView::Ignore
    } else {
        let parts = words(ls[0]);
        if parts.len() < 2 {
            RouteView::Ignore
        } else if parts[0] != "GET"@ {
            RouteView::MethodNotAllowed
        } else {
            route_path(target_path(parts[1]), target_query(parts[1]))
        }
    }
}

/// The route for the bytes of a request: bytes that are not UTF-8 are not
/// read as a request.
pub open spec fn spec_route(request: Seq<u8>) -> RouteView {
    if valid_utf8(request) {
        route_text(decode_utf8(request))
    } else {
        RouteView::Ignore
    }
}

/// What a request asks for is decided by its first line alone: the header
/// lines that follow it do not change the route.
pub proof fn law_route_ignores_headers(line: Seq<char>, headers: Seq<char>, other: Seq<char>)
    requires
        !line.contains('\n'),
    ensures
        route_text(line + seq!['\n'] + headers) == route_text(line + seq!['\n'] + other),
{
    crate::text::lemma_first_line(line, headers);
    crate::text::lemma_first_line(line, other);
}

/// A request line whose method is not `GET` is refused with status 405,
/// whatever its target.
pub proof fn law_only_get_is_served(text: Seq<char>)
    requires
        lines(text).len() > 0,
        words(lines(text)[0]).len() >= 2,
        words(lines(text)[0])[0] != "GET"@,
    ensures
        route_text(text) == RouteView::MethodNotAllowed,
{
}

/// A request line `GET TARGET VERSION` is routed by the target's path, with
/// the target's query handed on, whatever header lines follow.
pub proof fn law_get_request(target: Seq<char>, version: Seq<char>, headers: Seq<char>)
    requires
        target.len() > 0,
        version.len() > 0,
        forall|j: int| 0 <= j < target.len() ==> !crate::text::is_ws(target[j]),
        forall|j: int| 0 <= j < version.len() ==> !crate::text::is_ws(version[j]),
    ensures
        route_text("GET"@ + seq![' '] + target + seq![' '] + version + seq!['\r', '\n'] + headers)
            == route_path(target_path(target), target_query(target)),
{
    reveal_strlit("GET");
    let g = "GET"@;
    assert forall|j: int| 0 <= j < g.len() implies !crate::text::is_ws(g[j]) by {}
    let s = g + seq![' '] + target + seq![' '] + version;
    let line = s + seq!['\r'];
    assert(!line.contains('\n')) by {
        if line.contains('\n') {
            let j = choose|j: int| 0 <= j < line.len() && line[j] == '\n';
            let n1 = g.len() + 1 + target.len();
            if 4 <= j < n1 {
                assert(target[j - 4] == '\n');
            } else if n1 + 1 <= j < s.len() {
                assert(version[j - n1 - 1] == '\n');
            }
        }
    }
    crate::text::lemma_first_line(line, headers);
    assert(line.drop_last() =~= s);
    crate::text::lemma_three_words(g, target, version);
    assert(line + seq!['\n'] + headers =~= g + seq![' '] + target + seq![' '] + version + seq![
        '\r',
        '\n',
    ] + headers);
}

/// `std::str::from_utf8`: the bytes as text when they are UTF-8. The text
/// is the bytes themselves.
#[verifier::external_body]
fn utf8_text(bytes: &[u8]) -> (r: Option<&str>)
    ensures
        r is Some <==> valid_utf8(bytes@),
        r matches Some(s) ==> s.spec_bytes() == bytes@,
{
    std::str::from_utf8(bytes).ok()
}

/// The route for a `GET` of `path` with the query `query`.
fn route_for_path(path: &[char], query: &[char]) -> (r: Route)
    ensures
        r@ == route_path(path@, query@),
{
    if chars_are(path, "/") || chars_are(path, "/index.html") {
        Route::Static(StaticAsset::IndexHtml)
    } else if chars_are(path, "/main.css") {
        Route::Static(StaticAsset::MainCss)
    } else if chars_are(path, "/main.js") {
        Route::Static(StaticAsset::MainJs)
    } else if chars_are(path, "/api/calculate") {
        Route::Calculate(string_of(query))
    } else if chars_are(path, "/api/metrics") {
        Route::Metrics
    } else if chars_are(path, "/api/sysinfo") {
        Route::SysInfo
    } else if chars_are(path, "/api/icon") {
        Route::Icon(string_of(query))
    } else {
        Route::NotFound
    }
}

/// The route for the text of a request.
pub fn route_chars(text: &[char]) -> (r: Route)
    ensures
        r@ == route_text(text@),
{
    let ls = split_lines(text);
    if ls.len() == 0 {
        return Route::Ignore;
    }
    let parts = split_whitespace(ls[0].as_slice());
    if parts.len() < 2 {
        return Route::Ignore;
    }
    if !chars_are(parts[0].as_slice(), "GET") {
        return Route::MethodNotAllowed;
    }
    let target = parts[1].as_slice();
    let k = find_first(target, '?');
    proof {
        crate::text::lemma_find_char(target@, '?');
    }
    let path = copy_range(target, 0, k);
    assert(path@ =~= target_path(target@));
    let query = if k < target.len() {
        copy_range(target, k + 1, target.len())
    } else {
        Vec::new()
    };
    assert(query@ =~= target_query(target@));
    route_for_path(path.as_slice(), query.as_slice())
}

/// What the request whose bytes are `request` asks for.
pub fn route_request(request: &[u8]) -> (r: Route)
    ensures
        r@ == spec_route(request@),
{
    match utf8_text(request) {
        None => Route::Ignore,
        Some(text) => {
            proof {
                vstd::utf8::encode_utf8_decode_utf8(text@);
            }
            let cs = chars_of(text);
            route_chars(cs.as_slice())
        },
    }
}

// ---------------------------------------------------------------------------
// Heads of replies
// ---------------------------------------------------------------------------
/// The reply to a request whose head is too long.
pub open spec fn too_large_head() -> Seq<char> {
    "HTTP/1.1 431 Request Header Fields Too Large\r\n\r\n"@
}

/// The reply to a method other than `GET`.
pub open spec fn method_not_allowed_head() -> Seq<char> {
    "HTTP/1.1 405 Method Not Allowed\r\n\r\n"@
}

/// The reply to an unknown path.
pub open spec fn not_found_head() -> Seq<char> {
    "HTTP/1.1 404 Not Found\r\nContent-Length: 0\r\n\r\n"@
}

/// The reply when no icon is known for a provider.
pub open spec fn icon_not_found_head() -> Seq<char> {
    "HTTP/1.1 404 Not Found\r\nContent-Length: 0\r\nConnection: close\r\n\r\n"@
}

/// The head of a successful reply with a body of `length` bytes.
pub open spec fn ok_head(content_type: Seq<char>, length: nat) -> Seq<char> {
    "HTTP/1.1 200 OK\r\nContent-Type: "@ + content_type + "\r\nContent-Length: "@ + decimal(
        length,
    ) + "\r\nConnection: close\r\n\r\n"@
}

/// The head of a successful reply states the content type as given and a
/// `Content-Length` whose digits read back as the body length, for every
/// length.
pub proof fn law_ok_head_states_length(content_type: Seq<char>, length: u64)
    ensures
        exists|d: Seq<char>|
            #![trigger spec_parse_u64(d)]
            ok_head(content_type, length as nat) == "HTTP/1.1 200 OK\r\nContent-Type: "@
                + content_type + "\r\nContent-Length: "@ + d
                + "\r\nConnection: close\r\n\r\n"@ && d.len() > 0 && all_digits(d)
                && spec_parse_u64(d) == Some(length),
{
    crate::num::lemma_decimal_digits(length as nat);
    crate::num::law_decimal_parses_back(length);
    let d = decimal(length as nat);
    assert(spec_parse_u64(d) == Some(length));
}

/// The head of a redirect to `location`.
pub open spec fn redirect_head(location: Seq<char>) -> Seq<char> {
    "HTTP/1.1 307 Temporary Redirect\r\nLocation: "@ + location
        + "\r\nContent-Length: 0\r\nConnection: close\r\n\r\n"@
}

/// The fixed replies: status 431 for a head that is too long, 405 for a
/// method other than `GET`, 404 for an unknown path or icon.
pub proof fn law_fixed_replies()
    ensures
        too_large_head() == "HTTP/1.1 431 Request Header Fields Too Large\r\n\r\n"@,
        method_not_allowed_head() == "HTTP/1.1 405 Method Not Allowed\r\n\r\n"@,
        not_found_head() == "HTTP/1.1 404 Not Found\r\nContent-Length: 0\r\n\r\n"@,
        icon_not_found_head()
            == "HTTP/1.1 404 Not Found\r\nContent-Length: 0\r\nConnection: close\r\n\r\n"@,
{
}

/// A redirect names the given location and has no body.
pub proof fn law_redirect_head(location: Seq<char>)
    ensures
        redirect_head(location) == "HTTP/1.1 307 Temporary Redirect\r\nLocation: "@ + location
            + "\r\nContent-Length: 0\r\nConnection: close\r\n\r\n"@,
{
}

/// The reply to a request whose head is too long.
pub fn too_large_reply() -> (r: &'static str)
    ensures
        r@ == too_large_head(),
{
    "HTTP/1.1 431 Request Header Fields Too Large\r\n\r\n"
}

/// The reply to a method other than `GET`.
pub fn method_not_allowed_reply() -> (r: &'static str)
    ensures
        r@ == method_not_allowed_head(),
{
    "HTTP/1.1 405 Method Not Allowed\r\n\r\n"
}

/// The reply to an unknown path.
pub fn not_found_reply() -> (r: &'static str)
    ensures
        r@ == not_found_head(),
{
    "HTTP/1.1 404 Not Found\r\nContent-Length: 0\r\n\r\n"
}

/// The head of a successful reply of the given content type whose body
/// is `length` bytes long.
pub fn ok_header(content_type: &str, length: usize) -> (r: String)
    ensures
        r@ == ok_head(content_type@, length as nat),
{
    let mut out: Vec<char> = chars_of("HTTP/1.1 200 OK\r\nContent-Type: ");
    append_chars(&mut out, chars_of(content_type).as_slice());
    append_chars(&mut out, chars_of("\r\nContent-Length: ").as_slice());
    append_chars(&mut out, u64_decimal(length as u64).as_slice());
    append_chars(&mut out, chars_of("\r\nConnection: close\r\n\r\n").as_slice());
    string_of(out.as_slice())
}

/// The head of a redirect to `location`.
pub fn redirect_header(location: &str) -> (r: String)
    ensures
        r@ == redirect_head(location@),
{
    let mut out: Vec<char> = chars_of("HTTP/1.1 307 Temporary Redirect\r\nLocation: ");
    append_chars(&mut out, chars_of(location).as_slice());
    append_chars(&mut out, chars_of("\r\nContent-Length: 0\r\nConnection: close\r\n\r\n").as_slice());
    string_of(out.as_slice())
}

// ---------------------------------------------------------------------------
// Icons
// ---------------------------------------------------------------------------
/// The icon shown for the `grab` provider when none is known.
pub open spec fn grab_icon_fallback() -> Seq<char> {
    "https://raw.githubusercontent.com/spothq/car-logos/master/logos-logos/grab.png"@
}

/// The provider named by an icon query: the last `provider` parameter, or
/// the empty name.
pub open spec fn icon_provider(query: Seq<char>) -> Seq<char> {
    match last_value(query_pairs(query), "provider"@) {
        Some(p) => p,
        None => seq![],
    }
}

/// The reply head to an icon request: a redirect to the known icon of the
/// provider, to the fallback icon for `grab`, or status 404.
pub open spec fn icon_head(query: Seq<char>, urls: Map<Seq<char>, String>) -> Seq<char> {
    let p = icon_provider(query);
    if urls.dom().contains(p) {
        redirect_head(urls[p]@)
    } else if p == "grab"@ {
        redirect_head(grab_icon_fallback())
    } else {
        icon_not_found_head()
    }
}

/// An icon request is redirected to the icon known for its provider; with
/// none known, a `grab` request is redirected to the fallback logo, and any
/// other provider is answered 404.
pub proof fn law_icon_replies(query: Seq<char>, urls: Map<Seq<char>, String>)
    ensures
        urls.dom().contains(icon_provider(query)) ==> icon_head(query, urls)
            == "HTTP/1.1 307 Temporary Redirect\r\nLocation: "@ + urls[icon_provider(query)]@
            + "\r\nContent-Length: 0\r\nConnection: close\r\n\r\n"@,
        !urls.dom().contains(icon_provider(query)) && icon_provider(query) == "grab"@
            ==> icon_head(query, urls) == "HTTP/1.1 307 Temporary Redirect\r\nLocation: "@
            + "https://raw.githubusercontent.com/spothq/car-logos/master/logos-logos/grab.png"@
            + "\r\nContent-Length: 0\r\nConnection: close\r\n\r\n"@,
        !urls.dom().contains(icon_provider(query)) && icon_provider(query) != "grab"@
            ==> icon_head(query, urls)
            == "HTTP/1.1 404 Not Found\r\nContent-Length: 0\r\nConnection: close\r\n\r\n"@,
{
}

/// The provider of an icon request is the value of its last `provider`
/// parameter: of `provider=NAME` alone, and of any query followed by
/// `&provider=NAME`.
pub proof fn law_icon_provider(query: Seq<char>, name: Seq<char>)
    requires
        !name.contains('&'),
        !name.contains('='),
    ensures
        icon_provider("provider"@ + seq!['='] + name) == name,
        icon_provider(query + seq!['&'] + ("provider"@ + seq!['='] + name)) == name,
{
    reveal_strlit("provider");
    let k = "provider"@;
    assert(!k.contains('&') && !k.contains('=')) by {
        if k.contains('&') || k.contains('=') {
            let j = choose|j: int| 0 <= j < k.len() && (k[j] == '&' || k[j] == '=');
        }
    }
    crate::query::law_parameter_pairs(query, k, name);
    crate::query::law_last_value_wins(Seq::<(Seq<char>, Seq<char>)>::empty(), k, name);
    assert(seq![(k, name)] =~= Seq::<(Seq<char>, Seq<char>)>::empty().push((k, name)));
}

/// The reply head to an icon request with query `query`, given the icons
/// known so far by provider.
pub fn icon_reply(query: &str, urls: &StringMap<String>) -> (r: String)
    ensures
        r@ == icon_head(query@, urls@),
{
    let provider = match query_value(query, "provider") {
        Some(p) => p,
        None => String::new(),
    };
    assert(provider@ == icon_provider(query@));
    match urls.get(provider.as_str()) {
        Some(url) => redirect_header(url.as_str()),
        None => {
            let pc = chars_of(provider.as_str());
            if chars_are(pc.as_slice(), "grab") {
                redirect_header(
                    "https://raw.githubusercontent.com/spothq/car-logos/master/logos-logos/grab.png",
                )
            } else {
                String::from_str("HTTP/1.1 404 Not Found\r\nContent-Length: 0\r\nConnection: close\r\n\r\n")
            }
        },
    }
}

} // verus!
