use crate::args::{is_text, missing_text, overflow_message, overflow_text, required, text_view};
use crate::text::{lossy_text, trim, trim_is_idempotent, trimmed, utf8_lossy_string};
use vstd::prelude::*;
use vstd::utf8::{decode_utf8, encode_utf8};

verus! {

/// Declares `reqwest::header::HeaderMap`, the multimap of HTTP headers.
#[verifier::external_type_specification]
#[verifier::external_body]
#[verifier::reject_recursive_types(T)]
pub struct ExHeaderMap<T>(reqwest::header::HeaderMap<T>);

/// Declares `reqwest::header::HeaderName`.
#[verifier::external_type_specification]
#[verifier::external_body]
pub struct ExHeaderName(reqwest::header::HeaderName);

/// Declares `reqwest::header::HeaderValue`.
#[verifier::external_type_specification]
#[verifier::external_body]
pub struct ExHeaderValue(reqwest::header::HeaderValue);

/// Declares `reqwest::header::InvalidHeaderName`.
#[verifier::external_type_specification]
#[verifier::external_body]
pub struct ExInvalidHeaderName(reqwest::header::InvalidHeaderName);

/// Declares `reqwest::header::InvalidHeaderValue`.
#[verifier::external_type_specification]
#[verifier::external_body]
pub struct ExInvalidHeaderValue(reqwest::header::InvalidHeaderValue);

/// Declares `reqwest::header::MaxSizeReached`, the error of a map that cannot grow.
#[verifier::external_type_specification]
#[verifier::external_body]
pub struct ExMaxSizeReached(reqwest::header::MaxSizeReached);

/// The entries of a header map: each distinct name (lower-case bytes) with its
/// values in the order they were added.
pub type Entries = Seq<(Seq<u8>, Seq<Seq<u8>>)>;

/// What a `HeaderMap` holds, entry by entry, in the order its iterator visits them.
pub uninterp spec fn header_entries(map: reqwest::header::HeaderMap) -> Entries;

/// The bytes of a header name (`HeaderName::as_str`).
pub uninterp spec fn header_name_bytes(name: reqwest::header::HeaderName) -> Seq<u8>;

/// The bytes of a header value (`HeaderValue::as_bytes`).
pub uninterp spec fn header_value_bytes(value: reqwest::header::HeaderValue) -> Seq<u8>;

/// The fewest distinct names a map holds when an insertion into it can fail:
/// from this many on, its table may need to grow past its hard limit.
pub const MAP_ROOM: usize = 6554;

/// [`MAP_ROOM`] as a number.
pub open spec fn map_room() -> nat {
    MAP_ROOM as nat
}

/// The bytes HTTP allows in a token (`tchar`).
pub open spec fn is_token_byte(b: u8) -> bool {
    ||| b == 33
    ||| 35 <= b <= 39
    ||| b == 42
    ||| b == 43
    ||| b == 45
    ||| b == 46
    ||| 48 <= b <= 57
    ||| 65 <= b <= 90
    ||| 94 <= b <= 122
    ||| b == 124
    ||| b == 126
}

/// A byte with ASCII upper-case letters mapped to lower case.
pub open spec fn lower_byte(b: u8) -> u8 {
    if 65 <= b <= 90 {
        (b + 32) as u8
    } else {
        b
    }
}

/// The bytes with ASCII upper-case letters mapped to lower case.
pub open spec fn lower(bytes: Seq<u8>) -> Seq<u8> {
    bytes.map_values(|b: u8| lower_byte(b))
}

/// The bytes `HeaderName::from_bytes` accepts: 1 to 65535 token bytes.
pub open spec fn valid_header_name(bytes: Seq<u8>) -> bool {
    &&& 1 <= bytes.len() <= 65535
    &&& forall|i: int| 0 <= i < bytes.len() ==> is_token_byte(#[trigger] bytes[i])
}

/// The bytes a header value may hold: visible ASCII, tab, and bytes from 128 up.
pub open spec fn is_value_byte(b: u8) -> bool {
    (b >= 32 && b != 127) || b == 9
}

/// The bytes `HeaderValue::from_str` accepts.
pub open spec fn valid_header_value(bytes: Seq<u8>) -> bool {
    forall|i: int| 0 <= i < bytes.len() ==> is_value_byte(#[trigger] bytes[i])
}

/// Text of `InvalidHeaderName`.
pub open spec fn invalid_name_text() -> Seq<char> {
    "invalid HTTP header name"@
}

/// Text of `InvalidHeaderValue`.
pub open spec fn invalid_value_text() -> Seq<char> {
    "failed to parse header value"@
}

/// No name occurs in two entries.
pub open spec fn distinct_names(e: Entries) -> bool {
    forall|i: int, j: int| 0 <= i < j < e.len() ==> e[i].0 != e[j].0
}

/// Some entry holds `name`.
pub open spec fn has_name(e: Entries, name: Seq<u8>) -> bool {
    exists|i: int| 0 <= i < e.len() && #[trigger] e[i].0 == name
}

/// The position of the entry that holds `name` (meaningful when there is one).
pub open spec fn name_index(e: Entries, name: Seq<u8>) -> int {
    choose|i: int| 0 <= i < e.len() && #[trigger] e[i].0 == name
}

/// The values stored under `name`, in order; none when there is no such entry.
pub open spec fn values_of(e: Entries, name: Seq<u8>) -> Seq<Seq<u8>> {
    if has_name(e, name) {
        e[name_index(e, name)].1
    } else {
        seq![]
    }
}

/// `append`: the value joins the end of its name's values, or a new entry is
/// added at the end.
pub open spec fn appended(e: Entries, name: Seq<u8>, value: Seq<u8>) -> Entries {
    if has_name(e, name) {
        let i: int = name_index(e, name);
        e.update(i, (e[i].0, e[i].1.push(value)))
    } else {
        e.push((name, seq![value]))
    }
}

/// `insert`: the value replaces all of its name's values in place, or a new
/// entry is added at the end.
pub open spec fn inserted(e: Entries, name: Seq<u8>, value: Seq<u8>) -> Entries {
    if has_name(e, name) {
        let i: int = name_index(e, name);
        e.update(i, (e[i].0, seq![value]))
    } else {
        e.push((name, seq![value]))
    }
}

/// The entries with entry `i` taken out and the last entry moved into its place.
pub open spec fn swap_removed(e: Entries, i: int) -> Entries {
    if i == e.len() - 1 {
        e.drop_last()
    } else {
        e.drop_last().update(i, e.last())
    }
}

/// `remove`: the name's entry goes, and the last entry takes its place.
pub open spec fn removed(e: Entries, name: Seq<u8>) -> Entries {
    if has_name(e, name) {
        swap_removed(e, name_index(e, name))
    } else {
        e
    }
}

/// Every (name, value) pair in the order the map's iterator yields them.
pub open spec fn items(e: Entries) -> Seq<(Seq<u8>, Seq<u8>)>
    decreases e.len(),
{
    if e.len() == 0 {
        seq![]
    } else {
        let last = e.last();
        items(e.drop_last()) + last.1.map_values(|v: Seq<u8>| (last.0, v))
    }
}

/// The pairs the host reports for a map: names as text, values decoded with
/// replacement.
pub open spec fn pairs_of(e: Entries) -> Seq<(Seq<char>, Seq<char>)> {
    items(e).map_values(|it: (Seq<u8>, Seq<u8>)| (decode_utf8(it.0), lossy_text(it.1)))
}

/// Text pairs as plain character sequences.
pub open spec fn pair_views(p: Seq<(String, String)>) -> Seq<(Seq<char>, Seq<char>)> {
    p.map_values(|q: (String, String)| (q.0@, q.1@))
}

/// `HeaderMap::new`: an empty map.
#[verifier::external_body]
fn new_headers() -> (r: reqwest::header::HeaderMap)
    ensures
        header_entries(r) == Seq::<(Seq<u8>, Seq<Seq<u8>>)>::empty(),
{
    reqwest::header::HeaderMap::new()
}

/// `HeaderName::from_bytes`: accepts 1 to 65535 token bytes and keeps them in lower case.
#[verifier::external_body]
fn parse_header_name(bytes: &[u8]) -> (r: Result<
    reqwest::header::HeaderName,
    reqwest::header::InvalidHeaderName,
>)
    ensures
        r is Ok <==> valid_header_name(bytes@),
        r matches Ok(n) ==> header_name_bytes(n) == lower(bytes@),
{
    reqwest::header::HeaderName::from_bytes(bytes)
}

/// `InvalidHeaderName::to_string`.
#[verifier::external_body]
fn invalid_name_message(e: &reqwest::header::InvalidHeaderName) -> (r: String)
    ensures
        r@ == invalid_name_text(),
{
    e.to_string()
}

/// `HeaderValue::from_str`: accepts text whose bytes are all allowed in a value and keeps them.
#[verifier::external_body]
fn parse_header_value(text: &str) -> (r: Result<
    reqwest::header::HeaderValue,
    reqwest::header::InvalidHeaderValue,
>)
    ensures
        r is Ok <==> valid_header_value(encode_utf8(text@)),
        r matches Ok(v) ==> header_value_bytes(v) == encode_utf8(text@),
{
    reqwest::header::HeaderValue::from_str(text)
}

/// `InvalidHeaderValue::to_string`.
#[verifier::external_body]
fn invalid_value_message(e: &reqwest::header::InvalidHeaderValue) -> (r: String)
    ensures
        r@ == invalid_value_text(),
{
    e.to_string()
}

/// `HeaderMap::try_append`: adds a value after the name's existing values, or
/// adds a new entry at the end, and tells whether the name was there already.
/// It fails, leaving the entries as they were, only when the table cannot grow,
/// which needs at least [`MAP_ROOM`] entries.
#[verifier::external_body]
fn headers_append(
    map: &mut reqwest::header::HeaderMap,
    name: reqwest::header::HeaderName,
    value: reqwest::header::HeaderValue,
) -> (r: Result<bool, reqwest::header::MaxSizeReached>)
    ensures
        r matches Ok(b) ==> b == has_name(header_entries(*old(map)), header_name_bytes(name))
            && header_entries(*final(map)) == appended(
            header_entries(*old(map)),
            header_name_bytes(name),
            header_value_bytes(value),
        ),
        r is Err ==> header_entries(*final(map)) == header_entries(*old(map)) && header_entries(
            *old(map),
        ).len() >= map_room(),
{
    map.try_append(name, value)
}

/// `HeaderMap::try_insert`: replaces all of the name's values with `value` in
/// place, or adds a new entry at the end, and hands back the first value it
/// replaced. It fails, leaving the entries as they were, only when the table
/// cannot grow, which needs at least [`MAP_ROOM`] entries.
#[verifier::external_body]
fn headers_insert(
    map: &mut reqwest::header::HeaderMap,
    name: reqwest::header::HeaderName,
    value: reqwest::header::HeaderValue,
) -> (r: Result<Option<reqwest::header::HeaderValue>, reqwest::header::MaxSizeReached>)
    ensures
        r matches Ok(o) ==> (o is Some == has_name(
            header_entries(*old(map)),
            header_name_bytes(name),
        )) && header_entries(*final(map)) == inserted(
            header_entries(*old(map)),
            header_name_bytes(name),
            header_value_bytes(value),
        ),
        r is Err ==> header_entries(*final(map)) == header_entries(*old(map)) && header_entries(
            *old(map),
        ).len() >= map_room(),
{
    map.try_insert(name, value)
}

/// `HeaderMap::remove`: drops the name's entry, moving the last entry into its
/// place; hands back the first value it dropped.
#[verifier::external_body]
fn headers_remove(
    map: &mut reqwest::header::HeaderMap,
    name: reqwest::header::HeaderName,
) -> (r: Option<reqwest::header::HeaderValue>)
    ensures
        r is Some == has_name(header_entries(*old(map)), header_name_bytes(name)),
        header_entries(*final(map)) == removed(
            header_entries(*old(map)),
            header_name_bytes(name),
        ),
{
    map.remove(name)
}

/// `HeaderMap::contains_key`.
#[verifier::external_body]
fn headers_contain(map: &reqwest::header::HeaderMap, name: &reqwest::header::HeaderName) -> (r:
    bool)
    ensures
        r == has_name(header_entries(*map), header_name_bytes(*name)),
{
    map.contains_key(name)
}

/// `HeaderMap::get_all`, with each value handed out as its bytes.
#[verifier::external_body]
fn headers_get_all(map: &reqwest::header::HeaderMap, name: &reqwest::header::HeaderName) -> (r:
    Vec<Vec<u8>>)
    ensures
        r@.map_values(|v: Vec<u8>| v@) == values_of(header_entries(*map), header_name_bytes(*name)),
{
    map.get_all(name).iter().map(|v| v.as_bytes().to_vec()).collect()
}

/// `HeaderMap::iter`, with each name handed out as text and each value as its bytes.
#[verifier::external_body]
fn headers_iter(map: &reqwest::header::HeaderMap) -> (r: Vec<(String, Vec<u8>)>)
    ensures
        r@.len() == items(header_entries(*map)).len(),
        forall|k: int|
            0 <= k < r@.len() ==> encode_utf8((#[trigger] r@[k]).0@) == items(
                header_entries(*map),
            )[k].0 && r@[k].1@ == items(header_entries(*map))[k].1,
{
    map.iter().map(|(n, v)| (n.as_str().to_owned(), v.as_bytes().to_vec())).collect()
}


/// The pairs a host `headers` request gives, folded into a map in order: each
/// name must be a valid header name, each value (trimmed) a valid header value.
pub open spec fn built(p: Seq<(Seq<char>, Seq<char>)>) -> Result<Entries, Seq<char>>
    decreases p.len(),
{
    if p.len() == 0 {
        Ok(seq![])
    } else {
        match built(p.drop_last()) {
            Err(m) => Err(m),
            Ok(e) => {
                let name = encode_utf8(p.last().0);
                let value = encode_utf8(trimmed(p.last().1));
                if !valid_header_name(name) {
                    Err(invalid_name_text())
                } else if !valid_header_value(value) {
                    Err(invalid_value_text())
                } else {
                    Ok(appended(e, lower(name), value))
                }
            },
        }
    }
}

/// Once a prefix of the pairs fails, the whole sequence fails the same way.
proof fn built_failure_sticks(p: Seq<(Seq<char>, Seq<char>)>, k: int)
    requires
        0 <= k <= p.len(),
        built(p.subrange(0, k)) is Err,
    ensures
        built(p) == built(p.subrange(0, k)),
    decreases p.len() - k,
{
    if k < p.len() {
        let q = p.subrange(0, k + 1);
        assert(q.drop_last() =~= p.subrange(0, k));
        built_failure_sticks(p, k + 1);
    } else {
        assert(p.subrange(0, k) =~= p);
    }
}

/// Some prefix of the pairs puts at least [`MAP_ROOM`] names into the map, so
/// that a later insertion may find the table unable to grow.
pub open spec fn fills_map(p: Seq<(Seq<char>, Seq<char>)>) -> bool {
    exists|k: int|
        0 <= k <= p.len() && (#[trigger] built(p.subrange(0, k)) matches Ok(e) && e.len()
            >= map_room())
}

/// Values joined with a separator, as `join` on a vector of strings.
pub open spec fn joined(parts: Seq<Seq<char>>, sep: Seq<char>) -> Seq<char>
    decreases parts.len(),
{
    if parts.len() == 0 {
        seq![]
    } else if parts.len() == 1 {
        parts[0]
    } else {
        joined(parts.drop_last(), sep) + sep + parts.last()
    }
}

/// What the host answers to a `headers` request.
pub enum HeaderOutcome {
    /// The resulting headers as (name, value) pairs.
    Pairs(Vec<(String, String)>),
    /// Whether the name is present.
    Present(bool),
    /// The name's values joined with ", ", or nothing when it is absent.
    Joined(Option<String>),
}

/// The values stored under a name, decoded and joined as `get` reports them.
pub open spec fn joined_values(e: Entries, name: Seq<u8>) -> Seq<char> {
    joined(values_of(e, name).map_values(|v: Seq<u8>| lossy_text(v)), ", "@)
}

/// The answer to a `headers` request on `p` with the given action, name and
/// value, when the map has room for every name.
pub open spec fn exact_outcome(
    p: Seq<(Seq<char>, Seq<char>)>,
    action: Option<Seq<char>>,
    name: Option<Seq<char>>,
    value: Option<Seq<char>>,
    r: Result<HeaderOutcome, String>,
) -> bool {
    match built(p) {
        Err(m) => r matches Err(s) && s@ == m,
        Ok(e) => match action {
            None => r matches Err(s) && s@ == missing_text("action"@),
            Some(a) => if a == "normalize"@ {
                r matches Ok(HeaderOutcome::Pairs(v)) && pair_views(v@) == pairs_of(e)
            } else {
                match name {
                    None => r matches Err(s) && s@ == missing_text("name"@),
                    Some(n) => if !valid_header_name(encode_utf8(n)) {
                        r matches Err(s) && s@ == invalid_name_text()
                    } else {
                        let k = lower(encode_utf8(n));
                        if a == "has"@ {
                            r matches Ok(HeaderOutcome::Present(b)) && b == has_name(e, k)
                        } else if a == "get"@ {
                            r matches Ok(HeaderOutcome::Joined(j)) && if has_name(e, k) {
                                j matches Some(t) && t@ == joined_values(e, k)
                            } else {
                                j is None
                            }
                        } else if a == "delete"@ {
                            r matches Ok(HeaderOutcome::Pairs(v)) && pair_views(v@) == pairs_of(
                                removed(e, k),
                            )
                        } else if a == "set"@ || a == "append"@ {
                            match value {
                                None => r matches Err(s) && s@ == missing_text("value"@),
                                Some(v) => {
                                    let bytes = encode_utf8(trimmed(v));
                                    if !valid_header_value(bytes) {
                                        r matches Err(s) && s@ == invalid_value_text()
                                    } else if a == "set"@ {
                                        r matches Ok(HeaderOutcome::Pairs(x)) && pair_views(x@)
                                            == pairs_of(inserted(e, k, bytes))
                                    } else {
                                        r matches Ok(HeaderOutcome::Pairs(x)) && pair_views(x@)
                                            == pairs_of(appended(e, k, bytes))
                                    }
                                },
                            }
                        } else {
                            r matches Err(s) && s@ == "Unsupported header operation: "@ + a
                        }
                    },
                }
            },
        },
    }
}

/// The answer to a `headers` request: the exact one, or, only where the pairs
/// fill the map, the answer that the map could not grow.
pub open spec fn header_outcome(
    p: Seq<(Seq<char>, Seq<char>)>,
    action: Option<Seq<char>>,
    name: Option<Seq<char>>,
    value: Option<Seq<char>>,
    r: Result<HeaderOutcome, String>,
) -> bool {
    ||| exact_outcome(p, action, name, value, r)
    ||| fills_map(p) && (r matches Err(s) && s@ == overflow_text())
}

/// Two answers to a `headers` request that read the same.
pub open spec fn same_outcome(a: Result<HeaderOutcome, String>, b: Result<HeaderOutcome, String>) -> bool {
    match a {
        Err(m) => b matches Err(n) && m@ == n@,
        Ok(HeaderOutcome::Pairs(x)) => b matches Ok(HeaderOutcome::Pairs(y)) && pair_views(x@)
            == pair_views(y@),
        Ok(HeaderOutcome::Present(x)) => b matches Ok(HeaderOutcome::Present(y)) && x == y,
        Ok(HeaderOutcome::Joined(x)) => b matches Ok(HeaderOutcome::Joined(y)) && text_view(x)
            == text_view(y),
    }
}

/// A `headers` request has one answer, unless its pairs fill the map.
pub proof fn one_header_answer(
    p: Seq<(Seq<char>, Seq<char>)>,
    action: Option<Seq<char>>,
    name: Option<Seq<char>>,
    value: Option<Seq<char>>,
    a: Result<HeaderOutcome, String>,
    b: Result<HeaderOutcome, String>,
)
    requires
        header_outcome(p, action, name, value, a),
        header_outcome(p, action, name, value, b),
        !fills_map(p),
    ensures
        same_outcome(a, b),
{
}

/// The headers of a map as (name, value) text pairs, in iteration order.
pub fn header_pairs(map: &reqwest::header::HeaderMap) -> (r: Vec<(String, String)>)
    ensures
        pair_views(r@) == pairs_of(header_entries(*map)),
{
    let listed = headers_iter(map);
    let ghost all = items(header_entries(*map));
    let mut out: Vec<(String, String)> = Vec::new();
    let mut k: usize = 0;
    while k < listed.len()
        invariant
            k <= listed@.len(),
            listed@.len() == all.len(),
            all == items(header_entries(*map)),
            forall|j: int|
                0 <= j < listed@.len() ==> encode_utf8((#[trigger] listed@[j]).0@) == all[j].0
                    && listed@[j].1@ == all[j].1,
            out@.len() == k,
            forall|j: int|
                0 <= j < k ==> (#[trigger] out@[j]).0@ == decode_utf8(all[j].0) && out@[j].1@
                    == lossy_text(all[j].1),
        decreases listed@.len() - k,
    {
        let pair = &listed[k];
        proof {
            vstd::utf8::encode_utf8_decode_utf8(pair.0@);
        }
        let name = pair.0.clone();
        let value = utf8_lossy_string(pair.1.as_slice());
        out.push((name, value));
        k = k + 1;
    }
    assert(pair_views(out@) =~= pairs_of(header_entries(*map)));
    out
}

/// A host request's pairs folded into a map (the names checked, the values
/// trimmed and checked).
pub(crate) fn build_headers(pairs: &Vec<(String, String)>) -> (r: Result<reqwest::header::HeaderMap, String>)
    ensures
        match r {
            Ok(m) => built(pair_views(pairs@)) == Ok::<Entries, Seq<char>>(header_entries(m))
                && header_entries(m).len() <= pairs@.len(),
            Err(s) => built(pair_views(pairs@)) == Err::<Entries, Seq<char>>(s@) || (fills_map(
                pair_views(pairs@),
            ) && s@ == overflow_text()),
        },
{
    let ghost p = pair_views(pairs@);
    let mut map = new_headers();
    let mut i: usize = 0;
    assert(p.subrange(0, 0) =~= Seq::<(Seq<char>, Seq<char>)>::empty());
    while i < pairs.len()
        invariant
            p == pair_views(pairs@),
            i <= pairs@.len(),
            built(p.subrange(0, i as int)) == Ok::<Entries, Seq<char>>(header_entries(map)),
            header_entries(map).len() <= i,
        decreases pairs@.len() - i,
    {
        let pair = &pairs[i];
        let ghost q = p.subrange(0, i as int + 1);
        assert(q.drop_last() =~= p.subrange(0, i as int));
        assert(q.last() == (pair.0@, pair.1@));
        let name = match parse_header_name(pair.0.as_str().as_bytes()) {
            Ok(n) => n,
            Err(e) => {
                proof {
                    built_failure_sticks(p, i as int + 1);
                }
                return Err(invalid_name_message(&e));
            },
        };
        let value = match parse_header_value(trim(pair.1.as_str())) {
            Ok(v) => v,
            Err(e) => {
                proof {
                    built_failure_sticks(p, i as int + 1);
                }
                return Err(invalid_value_message(&e));
            },
        };
        match headers_append(&mut map, name, value) {
            Ok(_) => {},
            Err(_) => {
                assert(fills_map(p));
                return Err(overflow_message());
            },
        }
        i = i + 1;
    }
    assert(p.subrange(0, i as int) =~= p);
    Ok(map)
}

/// The values joined with ", " after decoding each with replacement.
fn join_values(values: &Vec<Vec<u8>>) -> (r: String)
    ensures
        r@ == joined(values@.map_values(|v: Vec<u8>| lossy_text(v@)), ", "@),
{
    let ghost parts = values@.map_values(|v: Vec<u8>| lossy_text(v@));
    let mut out = String::new();
    let mut i: usize = 0;
    assert(parts.subrange(0, 0) =~= Seq::<Seq<char>>::empty());
    while i < values.len()
        invariant
            parts == values@.map_values(|v: Vec<u8>| lossy_text(v@)),
            i <= values@.len(),
            out@ == joined(parts.subrange(0, i as int), ", "@),
        decreases values@.len() - i,
    {
        let text = utf8_lossy_string(values[i].as_slice());
        assert(parts.subrange(0, i as int + 1).drop_last() =~= parts.subrange(0, i as int));
        if i > 0 {
            out.append(", ");
        }
        out.append(text.as_str());
        i = i + 1;
    }
    assert(parts.subrange(0, i as int) =~= parts);
    out
}

/// The host's `headers` operation: builds a map from `pairs`, then applies
/// `action` (normalize, has, get, delete, set or append) for `name` and `value`.
pub fn header_operation(
    pairs: &Vec<(String, String)>,
    action: &Option<String>,
    name: &Option<String>,
    value: &Option<String>,
) -> (r: Result<HeaderOutcome, String>)
    ensures
        header_outcome(
            pair_views(pairs@),
            match action {
                Some(a) => Some(a@),
                None => None,
            },
            match name {
                Some(n) => Some(n@),
                None => None,
            },
            match value {
                Some(v) => Some(v@),
                None => None,
            },
            r,
        ),
{
    let mut map = build_headers(pairs)?;
    let act = required(action, "action")?;
    if is_text(action, "normalize") {
        return Ok(HeaderOutcome::Pairs(header_pairs(&map)));
    }
    let text = required(name, "name")?;
    let key = match parse_header_name(text.as_bytes()) {
        Ok(k) => k,
        Err(e) => {
            return Err(invalid_name_message(&e));
        },
    };
    if is_text(action, "has") {
        return Ok(HeaderOutcome::Present(headers_contain(&map, &key)));
    }
    if is_text(action, "get") {
        if !headers_contain(&map, &key) {
            return Ok(HeaderOutcome::Joined(None));
        }
        let values = headers_get_all(&map, &key);
        assert(values@.map_values(|v: Vec<u8>| lossy_text(v@)) =~= values_of(
            header_entries(map),
            header_name_bytes(key),
        ).map_values(|v: Seq<u8>| lossy_text(v)));
        return Ok(HeaderOutcome::Joined(Some(join_values(&values))));
    }
    if is_text(action, "delete") {
        headers_remove(&mut map, key);
        return Ok(HeaderOutcome::Pairs(header_pairs(&map)));
    }
    let set = is_text(action, "set");
    if set || is_text(action, "append") {
        let given = required(value, "value")?;
        let parsed = match parse_header_value(trim(given)) {
            Ok(v) => v,
            Err(e) => {
                return Err(invalid_value_message(&e));
            },
        };
        let grown = if set {
            headers_insert(&mut map, key, parsed).is_ok()
        } else {
            headers_append(&mut map, key, parsed).is_ok()
        };
        if !grown {
            assert(pair_views(pairs@).subrange(0, pairs@.len() as int) =~= pair_views(pairs@));
            assert(fills_map(pair_views(pairs@)));
            return Err(overflow_message());
        }
        return Ok(HeaderOutcome::Pairs(header_pairs(&map)));
    }
    let mut m = String::from_str("Unsupported header operation: ");
    m.append(act);
    Err(m)
}


/// In a map with distinct names, the entry holding a name is the one found for it.
proof fn found_at(e: Entries, k: Seq<u8>, j: int)
    requires
        distinct_names(e),
        0 <= j < e.len(),
        e[j].0 == k,
    ensures
        has_name(e, k),
        name_index(e, k) == j,
        values_of(e, k) == e[j].1,
{
    assert(has_name(e, k));
    let i: int = name_index(e, k);
    if i != j {
        if i < j {
            assert(e[i].0 != e[j].0);
        } else {
            assert(e[j].0 != e[i].0);
        }
    }
}

/// `set` leaves the name with exactly the new value, keeps the names distinct,
/// and leaves every other name's values as they were.
pub proof fn set_replaces_values(e: Entries, k: Seq<u8>, v: Seq<u8>)
    requires
        distinct_names(e),
    ensures
        distinct_names(inserted(e, k, v)),
        has_name(inserted(e, k, v), k),
        values_of(inserted(e, k, v), k) == seq![v],
        forall|k2: Seq<u8>|
            k2 != k ==> #[trigger] values_of(inserted(e, k, v), k2) == values_of(e, k2),
{
    let f = inserted(e, k, v);
    if has_name(e, k) {
        let i: int = name_index(e, k);
        assert(f.len() == e.len());
        assert forall|a: int, b: int| 0 <= a < b < f.len() implies f[a].0 != f[b].0 by {
            assert(f[a].0 == e[a].0);
            assert(f[b].0 == e[b].0);
        }
        found_at(f, k, i);
        assert forall|k2: Seq<u8>| k2 != k implies #[trigger] values_of(f, k2) == values_of(e, k2) by {
            if has_name(e, k2) {
                let j: int = name_index(e, k2);
                assert(j != i);
                found_at(f, k2, j);
            } else {
                if has_name(f, k2) {
                    let j: int = name_index(f, k2);
                    assert(f[j].0 == e[j].0);
                }
            }
        }
    } else {
        assert forall|a: int, b: int| 0 <= a < b < f.len() implies f[a].0 != f[b].0 by {
            if b == e.len() {
                assert(f[a].0 == e[a].0);
            }
        }
        found_at(f, k, e.len() as int);
        assert forall|k2: Seq<u8>| k2 != k implies #[trigger] values_of(f, k2) == values_of(e, k2) by {
            if has_name(e, k2) {
                let j: int = name_index(e, k2);
                found_at(f, k2, j);
            } else {
                if has_name(f, k2) {
                    let j: int = name_index(f, k2);
                    assert(f[j].0 == e[j].0);
                }
            }
        }
    }
}

/// `append` adds the value after the name's earlier values, keeps the names
/// distinct, and leaves every other name's values as they were.
pub proof fn append_adds_last(e: Entries, k: Seq<u8>, v: Seq<u8>)
    requires
        distinct_names(e),
    ensures
        distinct_names(appended(e, k, v)),
        values_of(appended(e, k, v), k) == values_of(e, k).push(v),
        forall|k2: Seq<u8>|
            k2 != k ==> #[trigger] values_of(appended(e, k, v), k2) == values_of(e, k2),
{
    let f = appended(e, k, v);
    if has_name(e, k) {
        let i: int = name_index(e, k);
        assert forall|a: int, b: int| 0 <= a < b < f.len() implies f[a].0 != f[b].0 by {
            assert(f[a].0 == e[a].0);
            assert(f[b].0 == e[b].0);
        }
        found_at(f, k, i);
        assert forall|k2: Seq<u8>| k2 != k implies #[trigger] values_of(f, k2) == values_of(e, k2) by {
            if has_name(e, k2) {
                let j: int = name_index(e, k2);
                found_at(f, k2, j);
            } else {
                if has_name(f, k2) {
                    let j: int = name_index(f, k2);
                    assert(f[j].0 == e[j].0);
                }
            }
        }
    } else {
        assert forall|a: int, b: int| 0 <= a < b < f.len() implies f[a].0 != f[b].0 by {
            if b == e.len() {
                assert(f[a].0 == e[a].0);
            }
        }
        found_at(f, k, e.len() as int);
        assert(seq![v] =~= Seq::<Seq<u8>>::empty().push(v));
        assert forall|k2: Seq<u8>| k2 != k implies #[trigger] values_of(f, k2) == values_of(e, k2) by {
            if has_name(e, k2) {
                let j: int = name_index(e, k2);
                found_at(f, k2, j);
            } else {
                if has_name(f, k2) {
                    let j: int = name_index(f, k2);
                    assert(f[j].0 == e[j].0);
                }
            }
        }
    }
}

/// `delete` leaves the name absent, keeps the names distinct, and leaves every
/// other name's values as they were.
pub proof fn delete_removes_name(e: Entries, k: Seq<u8>)
    requires
        distinct_names(e),
    ensures
        distinct_names(removed(e, k)),
        !has_name(removed(e, k), k),
        forall|k2: Seq<u8>| k2 != k ==> #[trigger] values_of(removed(e, k), k2) == values_of(e, k2),
{
    let f = removed(e, k);
    if has_name(e, k) {
        let i: int = name_index(e, k);
        let n: int = e.len() - 1;
        // every entry of f is an entry of e other than entry i
        assert forall|a: int| 0 <= a < f.len() implies #[trigger] f[a] == e[if a == i { n } else {
            a
        }] && (if a == i {
            n
        } else {
            a
        }) != i by {}
        assert forall|a: int, b: int| 0 <= a < b < f.len() implies f[a].0 != f[b].0 by {
            let sa: int = if a == i {
                n
            } else {
                a
            };
            let sb: int = if b == i {
                n
            } else {
                b
            };
            assert(f[a] == e[sa]);
            assert(f[b] == e[sb]);
            if sa < sb {
                assert(e[sa].0 != e[sb].0);
            } else {
                assert(e[sb].0 != e[sa].0);
            }
        }
        if has_name(f, k) {
            let j: int = name_index(f, k);
            let sj: int = if j == i {
                n
            } else {
                j
            };
            assert(f[j] == e[sj]);
            if sj < i {
                assert(e[sj].0 != e[i].0);
            } else {
                assert(e[i].0 != e[sj].0);
            }
        }
        assert forall|k2: Seq<u8>| k2 != k implies #[trigger] values_of(f, k2) == values_of(e, k2) by {
            if has_name(e, k2) {
                let j: int = name_index(e, k2);
                assert(j != i);
                let fj: int = if j == n {
                    i
                } else {
                    j
                };
                assert(f[fj] == e[j]);
                found_at(f, k2, fj);
            } else {
                if has_name(f, k2) {
                    let j: int = name_index(f, k2);
                    let sj: int = if j == i {
                        n
                    } else {
                        j
                    };
                    assert(f[j] == e[sj]);
                }
            }
        }
    }
}

/// Folding pairs into a map never puts a name in two entries.
pub proof fn built_names_distinct(p: Seq<(Seq<char>, Seq<char>)>)
    ensures
        built(p) matches Ok(e) ==> distinct_names(e),
    decreases p.len(),
{
    if p.len() > 0 {
        built_names_distinct(p.drop_last());
        if let Ok(e) = built(p.drop_last()) {
            let name = encode_utf8(p.last().0);
            let value = encode_utf8(trimmed(p.last().1));
            append_adds_last(e, lower(name), value);
        }
    }
}

/// A name as a map keeps it: a valid header name, in lower case.
pub open spec fn well_formed_name(n: Seq<u8>) -> bool {
    valid_header_name(n) && lower(n) == n
}

/// A value as the host stores it: allowed header bytes, valid UTF-8, and no
/// white space at either end.
pub open spec fn well_formed_value(v: Seq<u8>) -> bool {
    &&& valid_header_value(v)
    &&& vstd::utf8::valid_utf8(v)
    &&& trimmed(decode_utf8(v)) == decode_utf8(v)
}

/// A map as the host builds it: distinct well-formed names, each with at least
/// one well-formed value.
pub open spec fn well_formed(e: Entries) -> bool {
    &&& distinct_names(e)
    &&& forall|i: int|
        0 <= i < e.len() ==> well_formed_name((#[trigger] e[i]).0) && e[i].1.len() > 0
    &&& forall|i: int, j: int|
        0 <= i < e.len() && 0 <= j < e[i].1.len() ==> well_formed_value(#[trigger] e[i].1[j])
}

proof fn token_bytes_are_utf8(n: Seq<u8>)
    requires
        forall|i: int| 0 <= i < n.len() ==> is_token_byte(#[trigger] n[i]),
    ensures
        vstd::utf8::valid_utf8(n),
    decreases n.len(),
{
    if n.len() > 0 {
        let rest = n.subrange(1, n.len() as int);
        assert(vstd::utf8::pop_first_scalar(n) == rest);
        assert forall|i: int| 0 <= i < rest.len() implies is_token_byte(#[trigger] rest[i]) by {
            assert(rest[i] == n[i + 1]);
        }
        token_bytes_are_utf8(rest);
    }
}

proof fn lowered_name_is_well_formed(n: Seq<u8>)
    requires
        valid_header_name(n),
    ensures
        well_formed_name(lower(n)),
{
    let l = lower(n);
    assert forall|i: int| 0 <= i < l.len() implies is_token_byte(#[trigger] l[i]) by {
        assert(is_token_byte(n[i]));
    }
    assert(lower(l) =~= l);
}

proof fn stored_value_is_well_formed(v: Seq<char>)
    requires
        valid_header_value(encode_utf8(trimmed(v))),
    ensures
        well_formed_value(encode_utf8(trimmed(v))),
{
    vstd::utf8::encode_utf8_valid_utf8(trimmed(v));
    vstd::utf8::encode_utf8_decode_utf8(trimmed(v));
    trim_is_idempotent(v);
}

proof fn appended_well_formed(e: Entries, k: Seq<u8>, value: Seq<u8>)
    requires
        well_formed(e),
        well_formed_name(k),
        well_formed_value(value),
    ensures
        well_formed(appended(e, k, value)),
{
    append_adds_last(e, k, value);
    let f = appended(e, k, value);
    if has_name(e, k) {
        let i: int = name_index(e, k);
        assert forall|a: int| 0 <= a < f.len() implies well_formed_name((#[trigger] f[a]).0)
            && f[a].1.len() > 0 by {
            assert(f[a].0 == e[a].0);
        }
        assert forall|a: int, b: int|
            0 <= a < f.len() && 0 <= b < f[a].1.len() implies well_formed_value(
            #[trigger] f[a].1[b],
        ) by {
            if a == i && b == e[i].1.len() {
            } else {
                assert(f[a].1[b] == e[a].1[b]);
            }
        }
    } else {
        assert forall|a: int| 0 <= a < f.len() implies well_formed_name((#[trigger] f[a]).0)
            && f[a].1.len() > 0 by {
            if a < e.len() {
                assert(f[a] == e[a]);
            }
        }
        assert forall|a: int, b: int|
            0 <= a < f.len() && 0 <= b < f[a].1.len() implies well_formed_value(
            #[trigger] f[a].1[b],
        ) by {
            if a < e.len() {
                assert(f[a] == e[a]);
            }
        }
    }
}

proof fn inserted_well_formed(e: Entries, k: Seq<u8>, value: Seq<u8>)
    requires
        well_formed(e),
        well_formed_name(k),
        well_formed_value(value),
    ensures
        well_formed(inserted(e, k, value)),
{
    set_replaces_values(e, k, value);
    let f = inserted(e, k, value);
    if has_name(e, k) {
        let i: int = name_index(e, k);
        assert forall|a: int| 0 <= a < f.len() implies well_formed_name((#[trigger] f[a]).0)
            && f[a].1.len() > 0 by {
            assert(f[a].0 == e[a].0);
        }
        assert forall|a: int, b: int|
            0 <= a < f.len() && 0 <= b < f[a].1.len() implies well_formed_value(
            #[trigger] f[a].1[b],
        ) by {
            if a != i {
                assert(f[a] == e[a]);
            }
        }
    } else {
        assert forall|a: int| 0 <= a < f.len() implies well_formed_name((#[trigger] f[a]).0)
            && f[a].1.len() > 0 by {
            if a < e.len() {
                assert(f[a] == e[a]);
            }
        }
        assert forall|a: int, b: int|
            0 <= a < f.len() && 0 <= b < f[a].1.len() implies well_formed_value(
            #[trigger] f[a].1[b],
        ) by {
            if a < e.len() {
                assert(f[a] == e[a]);
            }
        }
    }
}

proof fn removed_well_formed(e: Entries, k: Seq<u8>)
    requires
        well_formed(e),
    ensures
        well_formed(removed(e, k)),
{
    delete_removes_name(e, k);
    let f = removed(e, k);
    if has_name(e, k) {
        let i: int = name_index(e, k);
        let n: int = e.len() - 1;
        assert forall|a: int| 0 <= a < f.len() implies well_formed_name((#[trigger] f[a]).0)
            && f[a].1.len() > 0 by {
            if a == i {
                assert(f[a] == e[n]);
            } else {
                assert(f[a] == e[a]);
            }
        }
        assert forall|a: int, b: int|
            0 <= a < f.len() && 0 <= b < f[a].1.len() implies well_formed_value(
            #[trigger] f[a].1[b],
        ) by {
            if a == i {
                assert(f[a] == e[n]);
            } else {
                assert(f[a] == e[a]);
            }
        }
    }
}

/// Folding pairs into a map always gives a well-formed map.
pub proof fn built_is_well_formed(p: Seq<(Seq<char>, Seq<char>)>)
    ensures
        built(p) matches Ok(e) ==> well_formed(e),
    decreases p.len(),
{
    if p.len() > 0 {
        built_is_well_formed(p.drop_last());
        if let Ok(e) = built(p.drop_last()) {
            let name = encode_utf8(p.last().0);
            let value = encode_utf8(trimmed(p.last().1));
            if valid_header_name(name) && valid_header_value(value) {
                lowered_name_is_well_formed(name);
                stored_value_is_well_formed(p.last().1);
                appended_well_formed(e, lower(name), value);
            }
        }
    }
}

/// The pair the host reports for one stored value.
pub open spec fn reported(name: Seq<u8>, v: Seq<u8>) -> (Seq<char>, Seq<char>) {
    (decode_utf8(name), lossy_text(v))
}

proof fn reported_pair_is_stored_as_is(name: Seq<u8>, v: Seq<u8>)
    requires
        well_formed_name(name),
        well_formed_value(v),
    ensures
        encode_utf8(reported(name, v).0) == name,
        encode_utf8(trimmed(reported(name, v).1)) == v,
{
    token_bytes_are_utf8(name);
    vstd::utf8::decode_utf8_encode_utf8(name);
    vstd::utf8::decode_utf8_encode_utf8(v);
}

proof fn well_formed_prefix(e: Entries)
    requires
        well_formed(e),
        e.len() > 0,
    ensures
        well_formed(e.drop_last()),
        !has_name(e.drop_last(), e.last().0),
{
    let d = e.drop_last();
    assert forall|i: int| 0 <= i < d.len() implies well_formed_name((#[trigger] d[i]).0) && d[i].1.len()
        > 0 by {
        assert(d[i] == e[i]);
    }
    assert forall|i: int, j: int| 0 <= i < d.len() && 0 <= j < d[i].1.len() implies well_formed_value(
        #[trigger] d[i].1[j],
    ) by {
        assert(d[i] == e[i]);
    }
    if has_name(d, e.last().0) {
        let i: int = name_index(d, e.last().0);
        assert(d[i] == e[i]);
        assert(e[i].0 != e[e.len() - 1].0);
    }
}

proof fn rebuild_last_values(e: Entries, j: nat)
    requires
        well_formed(e),
        e.len() > 0,
        1 <= j <= e.last().1.len(),
        built(pairs_of(e.drop_last())) == Ok::<Entries, Seq<char>>(e.drop_last()),
    ensures
        built(pairs_of(e.drop_last()) + e.last().1.take(j as int).map_values(
            |v: Seq<u8>| reported(e.last().0, v),
        )) == Ok::<Entries, Seq<char>>(e.drop_last().push((e.last().0, e.last().1.take(j as int)))),
    decreases j,
{
    let d = e.drop_last();
    let name = e.last().0;
    let vals = e.last().1;
    let f = |v: Seq<u8>| reported(name, v);
    let before = pairs_of(d) + vals.take(j as int - 1).map_values(f);
    let now = pairs_of(d) + vals.take(j as int).map_values(f);
    assert(now.drop_last() =~= before);
    assert(now.last() == reported(name, vals[j as int - 1]));
    well_formed_prefix(e);
    assert(well_formed_name(e[e.len() - 1].0));
    assert(well_formed_value(e[e.len() - 1].1[j as int - 1]));
    reported_pair_is_stored_as_is(name, vals[j as int - 1]);
    let v: Seq<u8> = vals[j as int - 1];
    if j == 1 {
        assert(vals.take(0).map_values(f) =~= Seq::<(Seq<char>, Seq<char>)>::empty());
        assert(before =~= pairs_of(d));
        assert(appended(d, name, v) == d.push((name, seq![v])));
        assert(vals.take(1) =~= seq![v]);
    } else {
        rebuild_last_values(e, (j - 1) as nat);
        let prev = d.push((name, vals.take(j as int - 1)));
        assert(distinct_names(prev)) by {
            assert forall|a: int, b: int| 0 <= a < b < prev.len() implies prev[a].0 != prev[b].0 by {
                if b == d.len() {
                    assert(prev[a] == d[a]);
                    assert(!has_name(d, name));
                    assert(d[a].0 != name);
                } else {
                    assert(prev[a] == e[a]);
                    assert(prev[b] == e[b]);
                }
            }
        }
        found_at(prev, name, d.len() as int);
        assert(vals.take(j as int - 1).push(v) =~= vals.take(j as int));
        assert(appended(prev, name, v) =~= d.push((name, vals.take(j as int))));
    }
}

/// The pairs the host reports for a map it built can be handed back as they
/// are: folding them again gives the very same map.
pub proof fn reported_pairs_rebuild(e: Entries)
    requires
        well_formed(e),
    ensures
        built(pairs_of(e)) == Ok::<Entries, Seq<char>>(e),
    decreases e.len(),
{
    if e.len() == 0 {
        assert(pairs_of(e) =~= Seq::<(Seq<char>, Seq<char>)>::empty());
        assert(e =~= Seq::<(Seq<u8>, Seq<Seq<u8>>)>::empty());
    } else {
        let d = e.drop_last();
        let name = e.last().0;
        let vals = e.last().1;
        well_formed_prefix(e);
        reported_pairs_rebuild(d);
        assert(e[e.len() - 1].1.len() > 0);
        rebuild_last_values(e, vals.len());
        let lhs = pairs_of(d) + vals.take(vals.len() as int).map_values(
            |v: Seq<u8>| reported(e.last().0, v),
        );
        assert(vals.take(vals.len() as int) =~= vals);
        assert(d.push((name, vals)) =~= e);
        let g = |it: (Seq<u8>, Seq<u8>)| (decode_utf8(it.0), lossy_text(it.1));
        assert(items(e) == items(d) + vals.map_values(|v: Seq<u8>| (name, v)));
        assert(pairs_of(e) == items(e).map_values(g));
        assert(pairs_of(d) == items(d).map_values(g));
        assert(items(e).map_values(g) =~= items(d).map_values(g) + vals.map_values(
            |v: Seq<u8>| (name, v),
        ).map_values(g));
        assert(lhs =~= pairs_of(e));
    }
}

proof fn action_names_differ()
    ensures
        "set"@ != "normalize"@,
        "set"@ != "has"@,
        "set"@ != "get"@,
        "set"@ != "delete"@,
        "append"@ != "normalize"@,
        "append"@ != "has"@,
        "append"@ != "get"@,
        "append"@ != "delete"@,
        "append"@ != "set"@,
        "delete"@ != "normalize"@,
        "delete"@ != "has"@,
        "delete"@ != "get"@,
        "get"@ != "normalize"@,
        "get"@ != "has"@,
        "has"@ != "normalize"@,
{
    reveal_strlit("set");
    reveal_strlit("normalize");
    reveal_strlit("has");
    reveal_strlit("get");
    reveal_strlit("delete");
    reveal_strlit("append");
    assert("set"@[0] != "normalize"@[0]);
    assert("set"@[0] != "has"@[0]);
    assert("set"@[0] != "get"@[0]);
    assert("set"@[0] != "delete"@[0]);
    assert("append"@.len() != "normalize"@.len());
    assert("append"@[0] != "has"@[0]);
    assert("append"@[0] != "get"@[0]);
    assert("append"@[0] != "delete"@[0]);
    assert("append"@[0] != "set"@[0]);
    assert("delete"@[0] != "normalize"@[0]);
    assert("delete"@[0] != "has"@[0]);
    assert("delete"@[0] != "get"@[0]);
    assert("get"@[0] != "normalize"@[0]);
    assert("get"@[0] != "has"@[0]);
    assert("has"@[0] != "normalize"@[0]);
}

/// A header set with `set` is read back by `get`, on the pairs `set` reported,
/// as exactly its trimmed value (unless those pairs fill the map).
pub proof fn set_then_get(
    p: Seq<(Seq<char>, Seq<char>)>,
    n: Seq<char>,
    v: Seq<char>,
    set: Result<HeaderOutcome, String>,
    get: Result<HeaderOutcome, String>,
)
    requires
        header_outcome(p, Some("set"@), Some(n), Some(v), set),
        set matches Ok(HeaderOutcome::Pairs(x)) && !fills_map(pair_views(x@)) && header_outcome(
            pair_views(x@),
            Some("get"@),
            Some(n),
            None,
            get,
        ),
    ensures
        get matches Ok(HeaderOutcome::Joined(Some(t))) && t@ == trimmed(v),
{
    action_names_differ();
    built_is_well_formed(p);
    let e = built(p)->Ok_0;
    let k = lower(encode_utf8(n));
    let bytes = encode_utf8(trimmed(v));
    lowered_name_is_well_formed(encode_utf8(n));
    stored_value_is_well_formed(v);
    let f = inserted(e, k, bytes);
    inserted_well_formed(e, k, bytes);
    set_replaces_values(e, k, bytes);
    reported_pairs_rebuild(f);
    vstd::utf8::encode_utf8_decode_utf8(trimmed(v));
    vstd::utf8::encode_utf8_valid_utf8(trimmed(v));
    assert(values_of(f, k).map_values(|b: Seq<u8>| lossy_text(b)) =~= seq![trimmed(v)]);
}

/// A header appended with `append` is read back by `get`, on the pairs `append`
/// reported, after the values the name already had (unless those pairs fill the
/// map).
pub proof fn append_then_get(
    p: Seq<(Seq<char>, Seq<char>)>,
    n: Seq<char>,
    v: Seq<char>,
    append: Result<HeaderOutcome, String>,
    get: Result<HeaderOutcome, String>,
)
    requires
        header_outcome(p, Some("append"@), Some(n), Some(v), append),
        append matches Ok(HeaderOutcome::Pairs(x)) && !fills_map(pair_views(x@)) && header_outcome(
            pair_views(x@),
            Some("get"@),
            Some(n),
            None,
            get,
        ),
    ensures
        get matches Ok(HeaderOutcome::Joined(Some(t))) && t@ == joined(
            values_of(built(p)->Ok_0, lower(encode_utf8(n))).map_values(
                |b: Seq<u8>| lossy_text(b),
            ).push(trimmed(v)),
            ", "@,
        ),
{
    action_names_differ();
    built_is_well_formed(p);
    let e = built(p)->Ok_0;
    let k = lower(encode_utf8(n));
    let bytes = encode_utf8(trimmed(v));
    lowered_name_is_well_formed(encode_utf8(n));
    stored_value_is_well_formed(v);
    let f = appended(e, k, bytes);
    appended_well_formed(e, k, bytes);
    append_adds_last(e, k, bytes);
    reported_pairs_rebuild(f);
    vstd::utf8::encode_utf8_decode_utf8(trimmed(v));
    vstd::utf8::encode_utf8_valid_utf8(trimmed(v));
    assert(has_name(f, k)) by {
        if has_name(e, k) {
            let i: int = name_index(e, k);
            assert(f[i].0 == k);
        } else {
            assert(f[e.len() as int].0 == k);
        }
    }
    assert(values_of(f, k).map_values(|b: Seq<u8>| lossy_text(b)) =~= values_of(e, k).map_values(
        |b: Seq<u8>| lossy_text(b),
    ).push(trimmed(v)));
}

/// After `delete`, `has` on the pairs `delete` reported finds the name absent
/// (unless those pairs fill the map).
pub proof fn delete_then_has(
    p: Seq<(Seq<char>, Seq<char>)>,
    n: Seq<char>,
    delete: Result<HeaderOutcome, String>,
    has: Result<HeaderOutcome, String>,
)
    requires
        header_outcome(p, Some("delete"@), Some(n), None, delete),
        delete matches Ok(HeaderOutcome::Pairs(x)) && !fills_map(pair_views(x@)) && header_outcome(
            pair_views(x@),
            Some("has"@),
            Some(n),
            None,
            has,
        ),
    ensures
        has matches Ok(HeaderOutcome::Present(b)) && !b,
{
    action_names_differ();
    built_is_well_formed(p);
    let e = built(p)->Ok_0;
    let k = lower(encode_utf8(n));
    let f = removed(e, k);
    removed_well_formed(e, k);
    delete_removes_name(e, k);
    reported_pairs_rebuild(f);
}

/// How many times `q` occurs among the pairs.
pub open spec fn occurrences(pairs: Seq<(Seq<char>, Seq<char>)>, q: (Seq<char>, Seq<char>)) -> nat {
    pairs.to_multiset().count(q)
}

/// The pairs one entry contributes occur once per value that reads as `q`'s
/// value, and only under the entry's own name.
proof fn entry_occurrences(name: Seq<u8>, vals: Seq<Seq<u8>>, q: (Seq<char>, Seq<char>))
    ensures
        occurrences(vals.map_values(|v: Seq<u8>| reported(name, v)), q) == (if q.0 == decode_utf8(
            name,
        ) {
            vals.map_values(|v: Seq<u8>| lossy_text(v)).to_multiset().count(q.1)
        } else {
            0
        }),
    decreases vals.len(),
{
    broadcast use vstd::seq_lib::group_to_multiset_ensures;
    broadcast use vstd::multiset::group_multiset_axioms;

    let f = |v: Seq<u8>| reported(name, v);
    let g = |v: Seq<u8>| lossy_text(v);
    if vals.len() == 0 {
        assert(vals.map_values(f) =~= Seq::<(Seq<char>, Seq<char>)>::empty());
        assert(vals.map_values(g) =~= Seq::<Seq<char>>::empty());
    } else {
        let d = vals.drop_last();
        entry_occurrences(name, d, q);
        assert(vals.map_values(f) =~= d.map_values(f).push(f(vals.last())));
        assert(vals.map_values(g) =~= d.map_values(g).push(g(vals.last())));
    }
}

/// In a map as the host builds it, a pair occurs among the reported pairs as
/// often as its value occurs among the decoded values of the name it reads as.
proof fn pair_occurrences(e: Entries, q: (Seq<char>, Seq<char>))
    requires
        well_formed(e),
    ensures
        occurrences(pairs_of(e), q) == values_of(e, encode_utf8(q.0)).map_values(
            |v: Seq<u8>| lossy_text(v),
        ).to_multiset().count(q.1),
    decreases e.len(),
{
    broadcast use vstd::seq_lib::group_to_multiset_ensures;
    broadcast use vstd::multiset::group_multiset_axioms;

    let key = encode_utf8(q.0);
    let g = |v: Seq<u8>| lossy_text(v);
    vstd::utf8::encode_utf8_decode_utf8(q.0);
    if e.len() == 0 {
        assert(pairs_of(e) =~= Seq::<(Seq<char>, Seq<char>)>::empty());
        assert(values_of(e, key).map_values(g) =~= Seq::<Seq<char>>::empty());
    } else {
        let d = e.drop_last();
        let name = e.last().0;
        let vals = e.last().1;
        well_formed_prefix(e);
        pair_occurrences(d, q);
        let h = |it: (Seq<u8>, Seq<u8>)| (decode_utf8(it.0), lossy_text(it.1));
        assert(items(e) == items(d) + vals.map_values(|v: Seq<u8>| (name, v)));
        assert(pairs_of(e) =~= pairs_of(d) + vals.map_values(|v: Seq<u8>| reported(name, v))) by {
            assert(items(e).map_values(h) =~= items(d).map_values(h) + vals.map_values(
                |v: Seq<u8>| (name, v),
            ).map_values(h));
        }
        vstd::seq_lib::lemma_multiset_commutative(
            pairs_of(d),
            vals.map_values(|v: Seq<u8>| reported(name, v)),
        );
        entry_occurrences(name, vals, q);
        assert(well_formed_name(e[e.len() - 1].0));
        token_bytes_are_utf8(name);
        vstd::utf8::decode_utf8_encode_utf8(name);
        if name == key {
            found_at(e, key, e.len() - 1);
            assert(!has_name(d, key));
            assert(values_of(d, key).map_values(g) =~= Seq::<Seq<char>>::empty());
        } else {
            assert(decode_utf8(name) != q.0);
            if has_name(d, key) {
                let j: int = name_index(d, key);
                assert(e[j] == d[j]);
                found_at(e, key, j);
            } else {
                if has_name(e, key) {
                    let j: int = name_index(e, key);
                    assert(j != e.len() - 1);
                    assert(d[j] == e[j]);
                }
            }
        }
    }
}

/// The name `n` as the map keeps it: its UTF-8 bytes in lower case.
pub open spec fn stored_name(n: Seq<char>) -> Seq<u8> {
    lower(encode_utf8(n))
}

/// Against the pairs `normalize` reports for a map, `delete` drops every pair
/// under the name and keeps the rest (counting each pair as often as it
/// occurs, whatever the order).
pub proof fn delete_against_normalize(e: Entries, k: Seq<u8>, q: (Seq<char>, Seq<char>))
    requires
        well_formed(e),
        well_formed_name(k),
    ensures
        occurrences(pairs_of(removed(e, k)), q) == (if q.0 == decode_utf8(k) {
            0
        } else {
            occurrences(pairs_of(e), q)
        }),
{
    broadcast use vstd::seq_lib::group_to_multiset_ensures;
    broadcast use vstd::multiset::group_multiset_axioms;

    let key = encode_utf8(q.0);
    let g = |b: Seq<u8>| lossy_text(b);
    vstd::utf8::encode_utf8_decode_utf8(q.0);
    token_bytes_are_utf8(k);
    vstd::utf8::decode_utf8_encode_utf8(k);
    removed_well_formed(e, k);
    delete_removes_name(e, k);
    pair_occurrences(e, q);
    pair_occurrences(removed(e, k), q);
    if key == k {
        assert(values_of(removed(e, k), k).map_values(g) =~= Seq::<Seq<char>>::empty());
    } else {
        assert(values_of(removed(e, k), key) == values_of(e, key));
    }
}

/// Against the pairs `normalize` reports for a map, `set` drops every pair
/// under the name, keeps the rest and adds the one new pair, and `append` keeps
/// every pair and adds the new one (counting each pair as often as it occurs,
/// whatever the order).
pub proof fn edits_against_normalize(e: Entries, k: Seq<u8>, v: Seq<u8>, q: (Seq<char>, Seq<char>))
    requires
        well_formed(e),
        well_formed_name(k),
        well_formed_value(v),
    ensures
        occurrences(pairs_of(inserted(e, k, v)), q) == (if q.0 == decode_utf8(k) {
            0
        } else {
            occurrences(pairs_of(e), q)
        }) + (if q == reported(k, v) {
            1nat
        } else {
            0nat
        }),
        occurrences(pairs_of(appended(e, k, v)), q) == occurrences(pairs_of(e), q) + (if q
            == reported(k, v) {
            1nat
        } else {
            0nat
        }),
{
    broadcast use vstd::seq_lib::group_to_multiset_ensures;
    broadcast use vstd::multiset::group_multiset_axioms;

    let key = encode_utf8(q.0);
    let g = |b: Seq<u8>| lossy_text(b);
    vstd::utf8::encode_utf8_decode_utf8(q.0);
    token_bytes_are_utf8(k);
    vstd::utf8::decode_utf8_encode_utf8(k);
    assert((key == k) == (q.0 == decode_utf8(k)));
    inserted_well_formed(e, k, v);
    appended_well_formed(e, k, v);
    set_replaces_values(e, k, v);
    append_adds_last(e, k, v);
    pair_occurrences(e, q);
    pair_occurrences(inserted(e, k, v), q);
    pair_occurrences(appended(e, k, v), q);
    if key == k {
        assert(values_of(inserted(e, k, v), k).map_values(g) =~= Seq::<Seq<char>>::empty().push(
            lossy_text(v),
        ));
        assert(values_of(appended(e, k, v), k).map_values(g) =~= values_of(e, k).map_values(
            g,
        ).push(lossy_text(v)));
    } else {
        assert(values_of(inserted(e, k, v), key) == values_of(e, key));
        assert(values_of(appended(e, k, v), key) == values_of(e, key));
    }
}

/// What `delete`, `set` and `append` answer for a request, counted against
/// what `normalize` answers for the same pairs: with `m` the name as stored (in
/// lower case), `delete` leaves every pair not named `m`, `set` leaves those and
/// adds `(m, trimmed value)`, and `append` keeps every pair and adds that one.
pub proof fn answers_against_normalize(
    p: Seq<(Seq<char>, Seq<char>)>,
    n: Seq<char>,
    v: Seq<char>,
    action: Seq<char>,
    norm: Result<HeaderOutcome, String>,
    edit: Result<HeaderOutcome, String>,
    q: (Seq<char>, Seq<char>),
)
    requires
        norm matches Ok(HeaderOutcome::Pairs(x)) && header_outcome(
            p,
            Some("normalize"@),
            None,
            None,
            norm,
        ),
        edit matches Ok(HeaderOutcome::Pairs(y)) && header_outcome(
            p,
            Some(action),
            Some(n),
            Some(v),
            edit,
        ),
    ensures
        ({
            let x = norm->Ok_0->Pairs_0;
            let y = edit->Ok_0->Pairs_0;
            let m = decode_utf8(stored_name(n));
            let added: nat = if q == (m, trimmed(v)) {
                1
            } else {
                0
            };
            let kept: nat = if q.0 == m {
                0
            } else {
                occurrences(pair_views(x@), q)
            };
            &&& action == "delete"@ ==> occurrences(pair_views(y@), q) == kept
            &&& action == "set"@ ==> occurrences(pair_views(y@), q) == kept + added
            &&& action == "append"@ ==> occurrences(pair_views(y@), q) == occurrences(
                pair_views(x@),
                q,
            ) + added
        }),
{
    action_names_differ();
    built_is_well_formed(p);
    let e = built(p)->Ok_0;
    let k = stored_name(n);
    let bytes = encode_utf8(trimmed(v));
    if action == "delete"@ || action == "set"@ || action == "append"@ {
        lowered_name_is_well_formed(encode_utf8(n));
        if action != "delete"@ {
            stored_value_is_well_formed(v);
            vstd::utf8::encode_utf8_decode_utf8(trimmed(v));
            vstd::utf8::encode_utf8_valid_utf8(trimmed(v));
            assert(reported(k, bytes) == (decode_utf8(k), trimmed(v)));
            edits_against_normalize(e, k, bytes, q);
        } else {
            delete_against_normalize(e, k, q);
        }
    }
}

/// A `set` or `append` answer holds the name, in lower case, together with the
/// value given, trimmed.
pub proof fn edit_holds_new_pair(
    p: Seq<(Seq<char>, Seq<char>)>,
    action: Seq<char>,
    n: Seq<char>,
    v: Seq<char>,
    o: Result<HeaderOutcome, String>,
)
    requires
        action == "set"@ || action == "append"@,
        built(p) is Ok,
        !fills_map(p),
        valid_header_name(encode_utf8(n)),
        valid_header_value(encode_utf8(trimmed(v))),
        header_outcome(p, Some(action), Some(n), Some(v), o),
    ensures
        o matches Ok(HeaderOutcome::Pairs(x)) && pair_views(x@).contains(
            (decode_utf8(lower(encode_utf8(n))), trimmed(v)),
        ),
{
    broadcast use vstd::seq_lib::group_to_multiset_ensures;

    action_names_differ();
    built_is_well_formed(p);
    let e = built(p)->Ok_0;
    let k = lower(encode_utf8(n));
    let bytes = encode_utf8(trimmed(v));
    let q = (decode_utf8(k), trimmed(v));
    lowered_name_is_well_formed(encode_utf8(n));
    stored_value_is_well_formed(v);
    vstd::utf8::encode_utf8_decode_utf8(trimmed(v));
    vstd::utf8::encode_utf8_valid_utf8(trimmed(v));
    assert(reported(k, bytes) == q);
    edits_against_normalize(e, k, bytes, q);
    let x = o->Ok_0->Pairs_0;
    if action == "set"@ {
        assert(pair_views(x@) == pairs_of(inserted(e, k, bytes)));
        assert(occurrences(pairs_of(inserted(e, k, bytes)), q) > 0);
    } else {
        assert(pair_views(x@) == pairs_of(appended(e, k, bytes)));
        assert(occurrences(pairs_of(appended(e, k, bytes)), q) > 0);
    }
}

/// One more pair under a name makes `get` answer what it answered before,
/// then ", ", then the new value (trimmed); for a name that was absent, just
/// the new value.
pub proof fn get_after_adding_a_value(
    p: Seq<(Seq<char>, Seq<char>)>,
    n: Seq<char>,
    v: Seq<char>,
    before: Result<HeaderOutcome, String>,
    after: Result<HeaderOutcome, String>,
)
    requires
        built(p.push((n, v))) is Ok,
        !fills_map(p),
        !fills_map(p.push((n, v))),
        header_outcome(p, Some("get"@), Some(n), None, before),
        header_outcome(p.push((n, v)), Some("get"@), Some(n), None, after),
    ensures
        before matches Ok(HeaderOutcome::Joined(Some(t))) ==> (after matches Ok(
            HeaderOutcome::Joined(Some(u)),
        ) && u@ == t@ + ", "@ + trimmed(v)),
        before matches Ok(HeaderOutcome::Joined(None)) ==> (after matches Ok(
            HeaderOutcome::Joined(Some(u)),
        ) && u@ == trimmed(v)),
{
    action_names_differ();
    let q = p.push((n, v));
    assert(q.drop_last() =~= p);
    assert(q.last() == (n, v));
    built_is_well_formed(p);
    let e = built(p)->Ok_0;
    let k = lower(encode_utf8(n));
    let bytes = encode_utf8(trimmed(v));
    assert(built(q) == Ok::<Entries, Seq<char>>(appended(e, k, bytes)));
    lowered_name_is_well_formed(encode_utf8(n));
    stored_value_is_well_formed(v);
    vstd::utf8::encode_utf8_decode_utf8(trimmed(v));
    vstd::utf8::encode_utf8_valid_utf8(trimmed(v));
    let f = appended(e, k, bytes);
    append_adds_last(e, k, bytes);
    assert(has_name(f, k)) by {
        if has_name(e, k) {
            let i: int = name_index(e, k);
            assert(f[i].0 == k);
        } else {
            assert(f[e.len() as int].0 == k);
        }
    }
    let g = |b: Seq<u8>| lossy_text(b);
    let prev = values_of(e, k).map_values(g);
    let parts = values_of(f, k).map_values(g);
    assert(parts =~= prev.push(trimmed(v)));
    if has_name(e, k) {
        let i: int = name_index(e, k);
        assert(e[i].1.len() > 0);
        assert(prev.len() > 0);
        assert(parts.drop_last() =~= prev);
        assert(joined(parts, ", "@) == joined(prev, ", "@) + ", "@ + trimmed(v));
    } else {
        assert(parts =~= seq![trimmed(v)]);
    }
}

proof fn has_iff_values(e: Entries, k: Seq<u8>)
    requires
        well_formed(e),
    ensures
        has_name(e, k) == (values_of(e, k).len() > 0),
{
    if has_name(e, k) {
        let i: int = name_index(e, k);
        assert(e[i].1.len() > 0);
    }
}

/// What folding pairs into a map keeps of each pair: its name is valid, and
/// its trimmed value is among the values under the name in lower case.
proof fn built_keeps_pair(p: Seq<(Seq<char>, Seq<char>)>, i: int)
    requires
        built(p) is Ok,
        0 <= i < p.len(),
    ensures
        valid_header_name(encode_utf8(p[i].0)),
        values_of(built(p)->Ok_0, lower(encode_utf8(p[i].0))).contains(
            encode_utf8(trimmed(p[i].1)),
        ),
    decreases p.len(),
{
    let d = p.drop_last();
    let e = built(d)->Ok_0;
    let a = lower(encode_utf8(p.last().0));
    let v = encode_utf8(trimmed(p.last().1));
    let k = lower(encode_utf8(p[i].0));
    built_names_distinct(d);
    append_adds_last(e, a, v);
    if i == p.len() - 1 {
        assert(values_of(appended(e, a, v), a).last() == v);
    } else {
        assert(d[i] == p[i]);
        built_keeps_pair(d, i);
        let j = choose|j: int| 0 <= j < values_of(e, k).len() && values_of(e, k)[j] == encode_utf8(
            trimmed(p[i].1),
        );
        if k == a {
            assert(values_of(appended(e, a, v), k)[j] == values_of(e, k)[j]);
        }
    }
}

/// The names a map built from pairs holds are exactly the pairs' names, in
/// lower case.
proof fn built_names(p: Seq<(Seq<char>, Seq<char>)>, k: Seq<u8>)
    requires
        built(p) is Ok,
    ensures
        has_name(built(p)->Ok_0, k) <==> exists|i: int|
            0 <= i < p.len() && #[trigger] lower(encode_utf8(p[i].0)) == k,
    decreases p.len(),
{
    built_is_well_formed(p);
    let f = built(p)->Ok_0;
    has_iff_values(f, k);
    if p.len() == 0 {
        assert(!has_name(f, k));
    } else {
        let d = p.drop_last();
        let e = built(d)->Ok_0;
        let a = lower(encode_utf8(p.last().0));
        let v = encode_utf8(trimmed(p.last().1));
        built_is_well_formed(d);
        has_iff_values(e, k);
        append_adds_last(e, a, v);
        built_names(d, k);
        if has_name(f, k) && k != a {
            let i = choose|i: int| 0 <= i < d.len() && #[trigger] lower(encode_utf8(d[i].0)) == k;
            assert(p[i] == d[i]);
        }
        if exists|i: int| 0 <= i < p.len() && #[trigger] lower(encode_utf8(p[i].0)) == k {
            let i = choose|i: int| 0 <= i < p.len() && #[trigger] lower(encode_utf8(p[i].0)) == k;
            if i < p.len() - 1 {
                assert(p[i] == d[i]);
                assert(lower(encode_utf8(d[i].0)) == k);
            }
        }
    }
}

/// `has` finds a name exactly when some pair was given under it, in any case
/// of its letters.
pub proof fn has_finds_any_pair_named(
    p: Seq<(Seq<char>, Seq<char>)>,
    n: Seq<char>,
    r: Result<HeaderOutcome, String>,
)
    requires
        built(p) is Ok,
        !fills_map(p),
        valid_header_name(encode_utf8(n)),
        header_outcome(p, Some("has"@), Some(n), None, r),
    ensures
        r matches Ok(HeaderOutcome::Present(b)) && (b <==> exists|i: int|
            0 <= i < p.len() && #[trigger] lower(encode_utf8(p[i].0)) == lower(encode_utf8(n))),
{
    action_names_differ();
    built_names(p, lower(encode_utf8(n)));
}

/// Every pair given comes back from `normalize`, its name in lower case and
/// its value trimmed.
pub proof fn normalize_keeps_every_pair(
    p: Seq<(Seq<char>, Seq<char>)>,
    r: Result<HeaderOutcome, String>,
    i: int,
)
    requires
        built(p) is Ok,
        !fills_map(p),
        header_outcome(p, Some("normalize"@), None, None, r),
        0 <= i < p.len(),
    ensures
        r matches Ok(HeaderOutcome::Pairs(x)) && pair_views(x@).contains(
            (decode_utf8(lower(encode_utf8(p[i].0))), trimmed(p[i].1)),
        ),
{
    broadcast use vstd::seq_lib::group_to_multiset_ensures;

    built_is_well_formed(p);
    let e = built(p)->Ok_0;
    built_keeps_pair(p, i);
    let k = lower(encode_utf8(p[i].0));
    let v = encode_utf8(trimmed(p[i].1));
    let q = (decode_utf8(k), trimmed(p[i].1));
    lowered_name_is_well_formed(encode_utf8(p[i].0));
    token_bytes_are_utf8(k);
    vstd::utf8::decode_utf8_encode_utf8(k);
    vstd::utf8::encode_utf8_decode_utf8(trimmed(p[i].1));
    vstd::utf8::encode_utf8_valid_utf8(trimmed(p[i].1));
    pair_occurrences(e, q);
    let vals = values_of(e, k).map_values(|b: Seq<u8>| lossy_text(b));
    let j = choose|j: int| 0 <= j < values_of(e, k).len() && values_of(e, k)[j] == v;
    assert(vals[j] == trimmed(p[i].1));
    assert(vals.contains(trimmed(p[i].1)));
    assert(occurrences(pairs_of(e), q) > 0);
}

} // verus!
