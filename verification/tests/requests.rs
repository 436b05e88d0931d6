use lib::http::{
    icon_reply, method_not_allowed_reply, not_found_reply, ok_header, redirect_header,
    route_request, too_large_reply, ReadStep, RequestReader, Route, StaticAsset,
    MAX_REQUEST_BYTES,
};
use lib::query::{query_params, query_value};
use lib::store::StringMap;

#[test]
fn reader_waits_for_the_blank_line() {
    let mut r = RequestReader::new();
    assert_eq!(r.feed(b"GET / HTTP/1.1\r\n"), ReadStep::NeedMore);
    assert_eq!(r.feed(b"Host: x\r\n"), ReadStep::NeedMore);
    assert_eq!(r.feed(b"\r\n"), ReadStep::Complete);
    assert_eq!(r.bytes(), b"GET / HTTP/1.1\r\nHost: x\r\n\r\n");
}

#[test]
fn reader_completes_when_the_stream_ends() {
    let mut r = RequestReader::new();
    assert_eq!(r.feed(b"GET / HTTP/1.1"), ReadStep::NeedMore);
    assert_eq!(r.feed(b""), ReadStep::Complete);
    assert_eq!(r.bytes(), b"GET / HTTP/1.1");
}

#[test]
fn reader_refuses_a_head_at_the_limit() {
    let mut r = RequestReader::new();
    let chunk = vec![b'a'; 512];
    let mut steps = 0;
    loop {
        let s = r.feed(&chunk);
        steps += 1;
        if s != ReadStep::NeedMore {
            assert_eq!(s, ReadStep::TooLarge);
            break;
        }
    }
    assert_eq!(steps * 512, MAX_REQUEST_BYTES);
    assert_eq!(r.bytes().len(), MAX_REQUEST_BYTES);
}

#[test]
fn reader_prefers_a_complete_head_over_the_limit() {
    let mut r = RequestReader::new();
    let mut big = vec![b'a'; MAX_REQUEST_BYTES];
    big.extend_from_slice(b"\r\n\r\n");
    assert_eq!(r.feed(&big), ReadStep::Complete);
}

#[test]
fn routes_static_files() {
    assert!(matches!(route_request(b"GET / HTTP/1.1\r\n\r\n"), Route::Static(StaticAsset::IndexHtml)));
    assert!(matches!(route_request(b"GET /index.html?x=1 HTTP/1.1\r\n\r\n"), Route::Static(StaticAsset::IndexHtml)));
    assert!(matches!(route_request(b"GET /main.css HTTP/1.1\r\n\r\n"), Route::Static(StaticAsset::MainCss)));
    assert!(matches!(route_request(b"GET /main.js HTTP/1.1\r\n\r\n"), Route::Static(StaticAsset::MainJs)));
    assert_eq!(StaticAsset::MainCss.key(), "/main.css");
    assert_eq!(StaticAsset::MainJs.content_type(), "application/javascript; charset=utf-8");
}

#[test]
fn routes_the_api() {
    match route_request(b"GET /api/calculate?basket=300&distance=2 HTTP/1.1\r\n\r\n") {
        Route::Calculate(q) => assert_eq!(q, "basket=300&distance=2"),
        _ => panic!("expected calculate"),
    }
    match route_request(b"GET /api/icon?provider=grab?x HTTP/1.1\r\n\r\n") {
        Route::Icon(q) => assert_eq!(q, "provider=grab?x"),
        _ => panic!("expected icon"),
    }
    match route_request(b"GET /api/calculate HTTP/1.1\r\n\r\n") {
        Route::Calculate(q) => assert_eq!(q, ""),
        _ => panic!("expected calculate"),
    }
    assert!(matches!(route_request(b"GET /api/metrics HTTP/1.1\r\n\r\n"), Route::Metrics));
    assert!(matches!(route_request(b"GET /api/sysinfo\r\n\r\n"), Route::SysInfo));
}

#[test]
fn refuses_and_ignores() {
    assert!(matches!(route_request(b"POST / HTTP/1.1\r\n\r\n"), Route::MethodNotAllowed));
    assert!(matches!(route_request(b"get / HTTP/1.1\r\n\r\n"), Route::MethodNotAllowed));
    assert!(matches!(route_request(b"GET /nope HTTP/1.1\r\n\r\n"), Route::NotFound));
    assert!(matches!(route_request(b"GET\r\n\r\n"), Route::Ignore));
    assert!(matches!(route_request(b""), Route::Ignore));
    assert!(matches!(route_request(b"\r\nGET / HTTP/1.1\r\n"), Route::Ignore));
    assert!(matches!(route_request(b"GET /\xff HTTP/1.1\r\n\r\n"), Route::Ignore));
}

#[test]
fn headers_do_not_change_the_route() {
    assert!(matches!(route_request(b"GET /main.js HTTP/1.1\r\nX: /main.css\r\n\r\n"), Route::Static(StaticAsset::MainJs)));
    assert!(matches!(route_request("GET\u{a0}/api/metrics".as_bytes()), Route::Metrics));
}

#[test]
fn reply_heads() {
    assert_eq!(ok_header("text/html; charset=utf-8", 42),
        "HTTP/1.1 200 OK\r\nContent-Type: text/html; charset=utf-8\r\nContent-Length: 42\r\nConnection: close\r\n\r\n");
    assert_eq!(ok_header("x", 0),
        "HTTP/1.1 200 OK\r\nContent-Type: x\r\nContent-Length: 0\r\nConnection: close\r\n\r\n");
    assert_eq!(redirect_header("http://a/b.png"),
        "HTTP/1.1 307 Temporary Redirect\r\nLocation: http://a/b.png\r\nContent-Length: 0\r\nConnection: close\r\n\r\n");
    assert_eq!(too_large_reply(), "HTTP/1.1 431 Request Header Fields Too Large\r\n\r\n");
    assert_eq!(method_not_allowed_reply(), "HTTP/1.1 405 Method Not Allowed\r\n\r\n");
    assert_eq!(not_found_reply(), "HTTP/1.1 404 Not Found\r\nContent-Length: 0\r\n\r\n");
}

#[test]
fn query_pairs_in_order() {
    let p = query_params("basket=300&distance=2.5&x&a=b=c&=v");
    let expected = vec![
        ("basket".to_string(), "300".to_string()),
        ("distance".to_string(), "2.5".to_string()),
        ("a".to_string(), "b".to_string()),
        ("".to_string(), "v".to_string()),
    ];
    assert_eq!(p, expected);
    assert!(query_params("").is_empty());
}

#[test]
fn last_query_value_wins() {
    assert_eq!(query_value("provider=grab&provider=shopee", "provider"), Some("shopee".to_string()));
    assert_eq!(query_value("provider", "provider"), None);
    assert_eq!(query_value("x=1", "provider"), None);
}

#[test]
fn icon_replies() {
    let mut urls: StringMap<String> = StringMap::new();
    let grab = "HTTP/1.1 307 Temporary Redirect\r\nLocation: https://raw.githubusercontent.com/spothq/car-logos/master/logos-logos/grab.png\r\nContent-Length: 0\r\nConnection: close\r\n\r\n";
    let missing = "HTTP/1.1 404 Not Found\r\nContent-Length: 0\r\nConnection: close\r\n\r\n";
    assert_eq!(icon_reply("provider=grab", &urls), grab);
    assert_eq!(icon_reply("provider=shopee", &urls), missing);
    assert_eq!(icon_reply("", &urls), missing);
    urls.insert("shopee", "https://x/s.png".to_string());
    urls.insert("grab", "https://x/g.png".to_string());
    assert_eq!(icon_reply("provider=shopee", &urls), redirect_header("https://x/s.png"));
    assert_eq!(icon_reply("provider=lineman&provider=grab", &urls), redirect_header("https://x/g.png"));
}

#[test]
fn string_map_reads_what_was_written() {
    let mut m: StringMap<u32> = StringMap::new();
    assert!(!m.contains_key("GRAB60"));
    assert_eq!(m.get("GRAB60"), None);
    m.insert("GRAB60", 60);
    m.insert("RBH40", 40);
    assert!(m.contains_key("GRAB60"));
    assert_eq!(m.get("GRAB60"), Some(&60));
    m.insert("GRAB60", 61);
    assert_eq!(m.get("GRAB60"), Some(&61));
    assert_eq!(m.get("RBH40"), Some(&40));
    let mut vals: Vec<u32> = m.values().into_iter().copied().collect();
    vals.sort();
    assert_eq!(vals, vec![40, 61]);
}
