use youtubei_native::headers::{header_operation, header_pairs, HeaderOutcome};

fn pairs(list: &[(&str, &str)]) -> Vec<(String, String)> {
    list.iter().map(|(a, b)| (a.to_string(), b.to_string())).collect()
}

fn some(s: &str) -> Option<String> {
    Some(s.to_string())
}

fn listed(o: Result<HeaderOutcome, String>) -> Vec<(String, String)> {
    match o {
        Ok(HeaderOutcome::Pairs(p)) => p,
        Ok(_) => panic!("expected pairs"),
        Err(e) => panic!("unexpected error {e}"),
    }
}

#[test]
fn normalize_lowercases_names_and_trims_values() {
    let p = pairs(&[("Content-Type", " application/json "), ("X-A", "1"), ("x-a", "2")]);
    let out = listed(header_operation(&p, &some("normalize"), &None, &None));
    assert_eq!(
        out,
        pairs(&[("content-type", "application/json"), ("x-a", "1"), ("x-a", "2")])
    );
}

#[test]
fn has_and_get_join_values() {
    let p = pairs(&[("X-A", "1"), ("x-a", "2")]);
    match header_operation(&p, &some("has"), &some("X-a"), &None) {
        Ok(HeaderOutcome::Present(b)) => assert!(b),
        _ => panic!("expected presence"),
    }
    match header_operation(&p, &some("has"), &some("x-b"), &None) {
        Ok(HeaderOutcome::Present(b)) => assert!(!b),
        _ => panic!("expected presence"),
    }
    match header_operation(&p, &some("get"), &some("x-a"), &None) {
        Ok(HeaderOutcome::Joined(Some(t))) => assert_eq!(t, "1, 2"),
        _ => panic!("expected joined values"),
    }
    match header_operation(&p, &some("get"), &some("x-b"), &None) {
        Ok(HeaderOutcome::Joined(None)) => {}
        _ => panic!("expected nothing"),
    }
}

#[test]
fn set_append_delete() {
    let p = pairs(&[("a", "1"), ("b", "2"), ("a", "3"), ("c", "4")]);
    let set = listed(header_operation(&p, &some("set"), &some("A"), &some(" 9 ")));
    assert_eq!(set, pairs(&[("a", "9"), ("b", "2"), ("c", "4")]));
    let appended = listed(header_operation(&p, &some("append"), &some("b"), &some("5")));
    assert_eq!(
        appended,
        pairs(&[("a", "1"), ("a", "3"), ("b", "2"), ("b", "5"), ("c", "4")])
    );
    let deleted = listed(header_operation(&p, &some("delete"), &some("a"), &None));
    assert_eq!(deleted, pairs(&[("c", "4"), ("b", "2")]));
}

#[test]
fn header_errors() {
    let p = pairs(&[("a", "1")]);
    assert_eq!(header_operation(&p, &None, &None, &None).err().unwrap(), "Missing string: action");
    assert_eq!(
        header_operation(&p, &some("get"), &None, &None).err().unwrap(),
        "Missing string: name"
    );
    assert_eq!(
        header_operation(&p, &some("get"), &some("bad name"), &None).err().unwrap(),
        "invalid HTTP header name"
    );
    assert_eq!(
        header_operation(&p, &some("set"), &some("a"), &None).err().unwrap(),
        "Missing string: value"
    );
    assert_eq!(
        header_operation(&p, &some("set"), &some("a"), &some("x\ny")).err().unwrap(),
        "failed to parse header value"
    );
    assert_eq!(
        header_operation(&p, &some("sort"), &some("a"), &None).err().unwrap(),
        "Unsupported header operation: sort"
    );
    let bad = pairs(&[("", "1")]);
    assert_eq!(
        header_operation(&bad, &some("normalize"), &None, &None).err().unwrap(),
        "invalid HTTP header name"
    );
    let bad_value = pairs(&[("a", "\u{7f}")]);
    assert_eq!(
        header_operation(&bad_value, &some("normalize"), &None, &None).err().unwrap(),
        "failed to parse header value"
    );
}

#[test]
fn response_headers_are_listed_in_order() {
    let mut map = reqwest::header::HeaderMap::new();
    map.append("b", "1".parse().unwrap());
    map.append("a", "2".parse().unwrap());
    map.append("b", "3".parse().unwrap());
    assert_eq!(header_pairs(&map), pairs(&[("b", "1"), ("b", "3"), ("a", "2")]));
}

#[test]
fn set_then_get_on_reported_pairs() {
    let p = pairs(&[("Accept", "*/*"), ("X-Client", "1"), ("x-client", "2")]);
    let after = listed(header_operation(&p, &some("set"), &some("X-CLIENT"), &some("  WEB  ")));
    match header_operation(&after, &some("get"), &some("x-client"), &None) {
        Ok(HeaderOutcome::Joined(Some(t))) => assert_eq!(t, "WEB"),
        _ => panic!("expected the set value"),
    }
}

#[test]
fn append_then_get_on_reported_pairs() {
    let p = pairs(&[("X-A", "1")]);
    let after = listed(header_operation(&p, &some("append"), &some("x-a"), &some("2")));
    match header_operation(&after, &some("get"), &some("X-A"), &None) {
        Ok(HeaderOutcome::Joined(Some(t))) => assert_eq!(t, "1, 2"),
        _ => panic!("expected both values"),
    }
    let fresh = listed(header_operation(&p, &some("append"), &some("x-b"), &some("3")));
    match header_operation(&fresh, &some("get"), &some("x-b"), &None) {
        Ok(HeaderOutcome::Joined(Some(t))) => assert_eq!(t, "3"),
        _ => panic!("expected the appended value"),
    }
}

#[test]
fn delete_then_has_on_reported_pairs() {
    let p = pairs(&[("a", "1"), ("b", "2"), ("a", "3")]);
    let after = listed(header_operation(&p, &some("delete"), &some("A"), &None));
    match header_operation(&after, &some("has"), &some("a"), &None) {
        Ok(HeaderOutcome::Present(b)) => assert!(!b),
        _ => panic!("expected absence"),
    }
    match header_operation(&after, &some("has"), &some("b"), &None) {
        Ok(HeaderOutcome::Present(b)) => assert!(b),
        _ => panic!("expected presence"),
    }
}

#[test]
fn reported_pairs_rebuild_unchanged() {
    let p = pairs(&[("B", " x "), ("a", "1"), ("b", "y")]);
    let once = listed(header_operation(&p, &some("normalize"), &None, &None));
    let twice = listed(header_operation(&once, &some("normalize"), &None, &None));
    assert_eq!(once, twice);
}

#[test]
fn many_values_under_few_names_fit() {
    let list: Vec<(String, String)> =
        (0..7000).map(|i| ("x-many".to_string(), format!("v{}", i % 3))).collect();
    let out = listed(header_operation(&list, &some("normalize"), &None, &None));
    assert_eq!(out.len(), 7000);
    assert_eq!(out[6999], ("x-many".to_string(), "v0".to_string()));
}

#[test]
fn a_map_that_cannot_grow_is_reported() {
    let list: Vec<(String, String)> =
        (0..24577).map(|i| (format!("x-h{}", i), "v".to_string())).collect();
    assert_eq!(
        header_operation(&list, &some("normalize"), &None, &None).err().unwrap(),
        "Rust host operation panicked"
    );
}

fn sorted(mut v: Vec<(String, String)>) -> Vec<(String, String)> {
    v.sort();
    v
}

#[test]
fn edits_against_normalize_as_multisets() {
    let list = pairs(&[("A", "1"), ("B", "2"), ("a", "3")]);
    let normalized = sorted(listed(header_operation(&list, &some("normalize"), &None, &None)));
    assert_eq!(normalized, sorted(pairs(&[("a", "1"), ("a", "3"), ("b", "2")])));
    let deleted = sorted(listed(header_operation(&list, &some("delete"), &some("A"), &None)));
    assert_eq!(deleted, sorted(pairs(&[("b", "2")])));
    let set = sorted(listed(header_operation(&list, &some("set"), &some("A"), &some(" 9 "))));
    assert_eq!(set, sorted(pairs(&[("b", "2"), ("a", "9")])));
    let appended =
        sorted(listed(header_operation(&list, &some("append"), &some("A"), &some("9"))));
    assert_eq!(appended, sorted(pairs(&[("a", "1"), ("a", "3"), ("b", "2"), ("a", "9")])));
}
