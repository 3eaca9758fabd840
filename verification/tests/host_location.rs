use youtubei_native::location::{decimal_text, location, resolve_location, UrlParts};

fn some(s: &str) -> Option<String> {
    Some(s.to_string())
}

#[test]
fn decimal_numerals() {
    assert_eq!(decimal_text(0), "0");
    assert_eq!(decimal_text(8080), "8080");
    assert_eq!(decimal_text(65535), "65535");
}

#[test]
fn location_describes_parts() {
    let loc = location(UrlParts {
        href: "http://h:81/p?q#f".into(),
        origin: "http://h:81".into(),
        host: some("h"),
        port: Some(81),
        path: "/p".into(),
        scheme: "http".into(),
        query: some("q"),
        fragment: some("f"),
    });
    assert_eq!(loc.host, "h:81");
    assert_eq!(loc.hostname, "h");
    assert_eq!(loc.protocol, "http:");
    assert_eq!(loc.search, "?q");
    assert_eq!(loc.hash, "#f");
    let bare = location(UrlParts {
        href: "data:x".into(),
        origin: "null".into(),
        host: None,
        port: None,
        path: "x".into(),
        scheme: "data".into(),
        query: None,
        fragment: None,
    });
    assert_eq!(bare.host, "");
    assert_eq!(bare.search, "");
    assert_eq!(bare.hash, "");
}

#[test]
fn resolve_relative_and_replace_query() {
    let loc = resolve_location(
        &some("/youtubei/v1/browse?a=1"),
        &some("https://www.youtube.com:8443/watch"),
        &some("prettyPrint=false"),
    )
    .unwrap();
    assert_eq!(loc.href, "https://www.youtube.com:8443/youtubei/v1/browse?prettyPrint=false");
    assert_eq!(loc.origin, "https://www.youtube.com:8443");
    assert_eq!(loc.host, "www.youtube.com:8443");
    assert_eq!(loc.pathname, "/youtubei/v1/browse");
    assert_eq!(loc.search, "?prettyPrint=false");
    let cleared = resolve_location(&some("https://a.b/c?d#e"), &None, &some("")).unwrap();
    assert_eq!(cleared.href, "https://a.b/c#e");
    assert_eq!(cleared.search, "");
    assert_eq!(cleared.hash, "#e");
}

#[test]
fn resolve_errors() {
    assert_eq!(resolve_location(&None, &None, &None).err().unwrap(), "Missing string: input");
    assert_eq!(
        resolve_location(&some("no scheme"), &None, &None).err().unwrap(),
        "relative URL without a base"
    );
}
