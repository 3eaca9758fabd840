use youtubei_native::dispatch::{dispatch, frame_reply, HostRequest, HostStep, HostValue};
use youtubei_native::fetch::{
    check_redirect, fetched_page, fixture_path, redirect_rule, request_headers, request_method,
    Redirects,
};
use youtubei_native::Transport;

fn some(s: &str) -> Option<String> {
    Some(s.to_string())
}

fn request(op: Option<&str>) -> HostRequest {
    HostRequest {
        op: op.map(|o| o.to_string()),
        units: Err("invalid type: null, expected a sequence".into()),
        bytes: Err("invalid type: null, expected a sequence".into()),
        fatal: None,
        ignore_bom: None,
        input: None,
        base: None,
        query: None,
        pairs: Err("invalid type: null, expected a sequence".into()),
        action: None,
        name: None,
        value: None,
        url: None,
        redirect: None,
        method: None,
        headers: Err("invalid type: null, expected a sequence".into()),
        body: None,
    }
}

fn reply(step: HostStep) -> Result<HostValue, String> {
    match step {
        HostStep::Reply(r) => r,
        HostStep::Fetch => panic!("unexpected fetch"),
    }
}

#[test]
fn missing_and_unknown_operations() {
    assert_eq!(reply(dispatch(&request(None))).err().unwrap(), "Missing string: op");
    assert_eq!(
        reply(dispatch(&request(Some("launch")))).err().unwrap(),
        "Unsupported host operation: launch"
    );
    assert!(matches!(dispatch(&request(Some("fetch"))), HostStep::Fetch));
}

#[test]
fn encode_and_decode_operations() {
    let mut r = request(Some("encode"));
    r.units = Ok(vec![0x68, 0xD83E, 0xDD80]);
    match reply(dispatch(&r)) {
        Ok(HostValue::Bytes(b)) => assert_eq!(b, "h\u{1F980}".as_bytes()),
        _ => panic!("expected bytes"),
    }
    let mut d = request(Some("decode"));
    d.bytes = Ok(b"\xEF\xBB\xBFx".to_vec());
    match reply(dispatch(&d)) {
        Ok(HostValue::Text(t)) => assert_eq!(t, "x"),
        _ => panic!("expected text"),
    }
    d.ignore_bom = Some(true);
    match reply(dispatch(&d)) {
        Ok(HostValue::Text(t)) => assert_eq!(t, "\u{FEFF}x"),
        _ => panic!("expected text"),
    }
    let e = request(Some("encode"));
    assert_eq!(reply(dispatch(&e)).err().unwrap(), "invalid type: null, expected a sequence");
}

#[test]
fn query_operations() {
    let mut q = request(Some("query_parse"));
    q.query = some("a=1&b=x+y&c=%F0%9F%A6%80");
    match reply(dispatch(&q)) {
        Ok(HostValue::Pairs(p)) => assert_eq!(
            p,
            vec![
                ("a".to_string(), "1".to_string()),
                ("b".to_string(), "x y".to_string()),
                ("c".to_string(), "\u{1F980}".to_string())
            ]
        ),
        _ => panic!("expected pairs"),
    }
    let mut s = request(Some("query_string"));
    s.pairs = Ok(vec![("a b".to_string(), "1&2".to_string())]);
    match reply(dispatch(&s)) {
        Ok(HostValue::Text(t)) => assert_eq!(t, "a+b=1%262"),
        _ => panic!("expected text"),
    }
    assert_eq!(
        reply(dispatch(&request(Some("query_parse")))).err().unwrap(),
        "Missing string: query"
    );
}

#[test]
fn query_string_parses_back() {
    let pairs: Vec<(String, String)> = vec![
        ("a".to_string(), "b c".to_string()),
        ("x".to_string(), "1&2".to_string()),
        ("".to_string(), "".to_string()),
        ("p+q%".to_string(), "\u{1F980}=~".to_string()),
    ];
    let mut s = request(Some("query_string"));
    s.pairs = Ok(pairs.clone());
    let text = match reply(dispatch(&s)) {
        Ok(HostValue::Text(t)) => t,
        _ => panic!("expected text"),
    };
    assert_eq!(text, "a=b+c&x=1%262&=&p%2Bq%25=%F0%9F%A6%80%3D%7E");
    let mut q = request(Some("query_parse"));
    q.query = Some(text);
    match reply(dispatch(&q)) {
        Ok(HostValue::Pairs(p)) => assert_eq!(p, pairs),
        _ => panic!("expected pairs"),
    }
}

#[test]
fn headers_and_url_operations() {
    let mut h = request(Some("headers"));
    h.pairs = Ok(vec![("A".to_string(), "1".to_string())]);
    h.action = some("get");
    h.name = some("a");
    match reply(dispatch(&h)) {
        Ok(HostValue::Text(t)) => assert_eq!(t, "1"),
        _ => panic!("expected text"),
    }
    h.name = some("b");
    assert!(matches!(reply(dispatch(&h)), Ok(HostValue::Null)));
    h.action = some("has");
    assert!(matches!(reply(dispatch(&h)), Ok(HostValue::Flag(false))));
    let mut u = request(Some("url"));
    u.input = some("https://www.youtube.com/watch?v=1#t");
    match reply(dispatch(&u)) {
        Ok(HostValue::Location(l)) => {
            assert_eq!(l.protocol, "https:");
            assert_eq!(l.search, "?v=1");
            assert_eq!(l.hash, "#t");
        }
        _ => panic!("expected a location"),
    }
}

#[test]
fn replies_are_framed() {
    assert_eq!(frame_reply(Ok("[1,2]".to_string())), b"{\"value\":[1,2]}".to_vec());
    assert_eq!(
        frame_reply(Err("bad \"x\"".to_string())),
        b"{\"error\":\"bad \\\"x\\\"\"}".to_vec()
    );
    assert_eq!(
        frame_reply(Err("a\u{1}\n\\".to_string())),
        b"{\"error\":\"a\\u0001\\n\\\\\"}".to_vec()
    );
}

#[test]
fn redirect_policies() {
    assert!(matches!(redirect_rule(&None), Ok((p, Redirects::Limited(10))) if p == "follow"));
    assert!(matches!(redirect_rule(&some("manual")), Ok((_, Redirects::Never))));
    assert!(matches!(redirect_rule(&some("error")), Ok((_, Redirects::Never))));
    assert_eq!(redirect_rule(&some("loop")).err().unwrap(), "Invalid redirect policy");
    assert!(check_redirect(&some("error"), 302).is_err());
    assert!(check_redirect(&some("error"), 200).is_ok());
    assert!(check_redirect(&some("manual"), 302).is_ok());
    assert!(check_redirect(&None, 399).is_ok());
}

#[test]
fn fixture_paths_only_for_youtube() {
    assert_eq!(
        fixture_path(&some("www.youtube.com"), "/youtubei/v1/browse", &some("alt=json")).unwrap(),
        "/youtubei/v1/browse?alt=json"
    );
    assert_eq!(fixture_path(&some("www.youtube.com"), "/", &None).unwrap(), "/?");
    assert_eq!(
        fixture_path(&some("example.com"), "/", &None).err().unwrap(),
        "Fixture transport only accepts www.youtube.com"
    );
}

#[test]
fn fetch_requests_are_prepared() {
    assert_eq!(request_method(&some("POST")).ok().unwrap(), reqwest::Method::POST);
    assert_eq!(request_method(&some("PATCH")).ok().unwrap(), reqwest::Method::PATCH);
    assert_eq!(request_method(&some("PURGE")).ok().unwrap().as_str(), "PURGE");
    assert_eq!(request_method(&None).err().unwrap(), "Missing string: method");
    assert_eq!(request_method(&some("GE T")).err().unwrap(), "invalid HTTP method");
    assert_eq!(request_method(&some("")).err().unwrap(), "invalid HTTP method");
    let headers = request_headers(&Ok(vec![("X-Y".into(), " 1 ".into())])).ok().unwrap();
    assert_eq!(headers.get("x-y").unwrap(), "1");
    assert_eq!(request_headers(&Err("bad".into())).err().unwrap(), "bad");
    assert_eq!(
        request_headers(&Ok(vec![("a b".into(), "1".into())])).err().unwrap(),
        "invalid HTTP header name"
    );
}

#[test]
fn fetched_pages() {
    let mut map = reqwest::header::HeaderMap::new();
    map.append("content-type", "application/json".parse().unwrap());
    let page = fetched_page(200, "https://www.youtube.com/x", "http://127.0.0.1/x", true, &map,
        b"\xEF\xBB\xBF{}".to_vec()).ok().unwrap();
    assert_eq!(page.status, 200);
    assert_eq!(page.url, "https://www.youtube.com/x");
    assert_eq!(page.body, "{}");
    assert_eq!(page.headers, vec![("content-type".to_string(), "application/json".to_string())]);
    let direct = fetched_page(301, "a", "b", false, &map, vec![]).ok().unwrap();
    assert_eq!(direct.url, "b");
    let big = vec![b'a'; 8 * 1024 * 1024 + 1];
    assert_eq!(
        fetched_page(200, "a", "b", false, &map, big).err().unwrap(),
        "Probe response exceeds 8 MiB"
    );
}

#[test]
fn transport_buffers_and_state() {
    let mut t = Transport::new();
    let text = "{\"op\":\"encode\"} \u{1F980}";
    let units: Vec<u16> = text.encode_utf16().collect();
    t.begin(units.len() as i32);
    for (i, u) in units.iter().enumerate() {
        t.write(i as i32, *u as i32);
    }
    t.write(-1, 0x41);
    t.write(units.len() as i32, 0x41);
    assert_eq!(t.input_text(), text);
    assert_eq!(t.respond(b"{\"value\":1}".to_vec()), 11);
    assert_eq!(t.output(), b"{\"value\":1}");
    t.begin(-5);
    assert_eq!(t.input_text(), "");
    t.begin(3);
    assert_eq!(t.input_text(), "\u{0}\u{0}\u{0}");
    let mut r = request(Some("encode"));
    r.units = Ok(vec![]);
    t.handle(&r);
    assert!(t.operations().is_empty());
    t.log_operations(true);
    t.handle(&r);
    t.handle(&request(None));
    t.handle(&request(Some("decode")));
    assert_eq!(t.operations(), vec!["encode".to_string(), "decode".to_string()]);
    t.fixture_origin(Some("http://127.0.0.1:1".parse().unwrap()));
    assert!(t.fixture().is_some());
    t.reset();
    assert!(t.operations().is_empty());
    assert!(t.fixture().is_none());
    assert!(t.output().is_empty());
}

#[test]
fn fetch_start_uses_fixture_and_kept_client() {
    let mut t = Transport::new();
    t.fixture_origin(Some("http://127.0.0.1:9/".parse().unwrap()));
    let mut f = request(Some("fetch"));
    f.url = some("https://www.youtube.com/youtubei/v1/browse?prettyPrint=false");
    let start = t.prepare_fetch(&f).ok().unwrap();
    assert_eq!(start.target.requested, "https://www.youtube.com/youtubei/v1/browse?prettyPrint=false");
    assert_eq!(start.target.target.as_str(), "http://127.0.0.1:9/youtubei/v1/browse?prettyPrint=false");
    assert_eq!(start.policy, "follow");
    assert!(start.client.is_none());
    t.keep_client("follow".to_string(), reqwest::blocking::Client::new());
    assert!(t.prepare_fetch(&f).ok().unwrap().client.is_some());
    f.redirect = some("manual");
    assert!(t.prepare_fetch(&f).ok().unwrap().client.is_none());
    f.url = some("https://example.com/");
    assert_eq!(
        t.prepare_fetch(&f).err().unwrap(),
        "Fixture transport only accepts www.youtube.com"
    );
    f.url = None;
    assert_eq!(t.prepare_fetch(&f).err().unwrap(), "Missing string: url");
}

#[test]
fn fetch_start_without_fixture_and_bad_policy() {
    let t = Transport::new();
    let mut f = request(Some("fetch"));
    f.url = some("https://www.youtube.com/a?b=1");
    f.redirect = some("error");
    let start = t.prepare_fetch(&f).ok().unwrap();
    assert_eq!(start.target.requested, "https://www.youtube.com/a?b=1");
    assert_eq!(start.target.target.as_str(), "https://www.youtube.com/a?b=1");
    assert!(matches!(start.redirects, Redirects::Never));
    f.redirect = some("sometimes");
    assert_eq!(t.prepare_fetch(&f).err().unwrap(), "Invalid redirect policy");
    f.url = some("no scheme");
    assert_eq!(t.prepare_fetch(&f).err().unwrap(), "relative URL without a base");
}

#[test]
fn url_resolves_against_base() {
    let mut u = request(Some("url"));
    u.input = some("watch?v=abc#t=1");
    u.base = some("https://www.youtube.com:8443/a/b");
    match reply(dispatch(&u)) {
        Ok(HostValue::Location(l)) => {
            assert_eq!(l.href, "https://www.youtube.com:8443/a/watch?v=abc#t=1");
            assert_eq!(l.origin, "https://www.youtube.com:8443");
            assert_eq!(l.hostname, "www.youtube.com");
            assert_eq!(l.host, "www.youtube.com:8443");
            assert_eq!(l.pathname, "/a/watch");
            assert_eq!(l.protocol, "https:");
            assert_eq!(l.search, "?v=abc");
            assert_eq!(l.hash, "#t=1");
        }
        _ => panic!("expected a location"),
    }
    let again = reply(dispatch(&u));
    assert!(matches!(again, Ok(HostValue::Location(ref l))
        if l.href == "https://www.youtube.com:8443/a/watch?v=abc#t=1"));
    u.query = some("x=1");
    match reply(dispatch(&u)) {
        Ok(HostValue::Location(l)) => {
            assert_eq!(l.href, "https://www.youtube.com:8443/a/watch?x=1#t=1")
        }
        _ => panic!("expected a location"),
    }
}
