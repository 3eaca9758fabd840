use crate::args::{is_text, missing_text, required, text_view};
use crate::headers::{
    built, edit_holds_new_pair, fills_map, header_operation, header_outcome, lower,
    one_header_answer, pair_views, valid_header_name, valid_header_value, HeaderOutcome,
};
use crate::location::{
    location_outcome, one_location_outcome, resolve_location, same_location, Location,
};
use crate::query::{form_decoded, form_encoded, form_pairs, form_round_trip, form_string};
use crate::text::{
    decode_bytes, decoded, encode_units, encode_utf16, lossy_text, trimmed, utf16_lossy,
    utf16_round_trip, utf8_error_message, without_bom,
};
use crate::youtube::{json_quoted, json_string};
use crate::fetch::FetchedPage;
use vstd::prelude::*;
use vstd::utf8::{decode_utf8, encode_utf8, valid_utf8};

verus! {

/// A host request as the logic reads it: the operation name and, for each
/// argument, what reading it from the request's JSON gave (a string, a flag, or
/// a typed list together with the error reading it produced).
pub struct HostRequest {
    pub op: Option<String>,
    pub units: Result<Vec<u16>, String>,
    pub bytes: Result<Vec<u8>, String>,
    pub fatal: Option<bool>,
    pub ignore_bom: Option<bool>,
    pub input: Option<String>,
    pub base: Option<String>,
    pub query: Option<String>,
    pub pairs: Result<Vec<(String, String)>, String>,
    pub action: Option<String>,
    pub name: Option<String>,
    pub value: Option<String>,
    pub url: Option<String>,
    pub redirect: Option<String>,
    pub method: Option<String>,
    pub headers: Result<Vec<(String, String)>, String>,
    pub body: Option<String>,
}

/// What a host operation hands back to the page.
pub enum HostValue {
    /// A byte array.
    Bytes(Vec<u8>),
    /// A string.
    Text(String),
    /// A URL description.
    Location(Location),
    /// A list of (name, value) pairs.
    Pairs(Vec<(String, String)>),
    /// A boolean.
    Flag(bool),
    /// JSON `null`.
    Null,
    /// A fetched page.
    Page(FetchedPage),
}

/// What the host does next with a request.
pub enum HostStep {
    /// The request is answered.
    Reply(Result<HostValue, String>),
    /// The request is a fetch, which goes out to the network.
    Fetch,
}

/// The request names operation `name`.
pub open spec fn op_is(request: HostRequest, name: Seq<char>) -> bool {
    request.op matches Some(o) && o@ == name
}

/// A flag that counts as false when absent.
pub open spec fn flag(f: Option<bool>) -> bool {
    match f {
        Some(b) => b,
        None => false,
    }
}

/// How a `headers` outcome is handed back.
pub open spec fn header_reply(o: Result<HeaderOutcome, String>) -> Result<HostValue, String> {
    match o {
        Err(m) => Err(m),
        Ok(HeaderOutcome::Pairs(p)) => Ok(HostValue::Pairs(p)),
        Ok(HeaderOutcome::Present(b)) => Ok(HostValue::Flag(b)),
        Ok(HeaderOutcome::Joined(None)) => Ok(HostValue::Null),
        Ok(HeaderOutcome::Joined(Some(t))) => Ok(HostValue::Text(t)),
    }
}

/// How a `url` outcome is handed back.
pub open spec fn location_reply(o: Result<Location, String>) -> Result<HostValue, String> {
    match o {
        Ok(l) => Ok(HostValue::Location(l)),
        Err(m) => Err(m),
    }
}

/// The answer to every operation other than `fetch`.
pub open spec fn dispatched(request: HostRequest, r: HostStep) -> bool {
    if request.op is None {
        r matches HostStep::Reply(Err(m)) && m@ == missing_text("op"@)
    } else if op_is(request, "encode"@) {
        match request.units {
            Ok(u) => r matches HostStep::Reply(Ok(HostValue::Bytes(b))) && b@ == encode_utf8(
                utf16_lossy(u@),
            ),
            Err(e) => r matches HostStep::Reply(Err(m)) && m@ == e@,
        }
    } else if op_is(request, "decode"@) {
        match request.bytes {
            Err(e) => r matches HostStep::Reply(Err(m)) && m@ == e@,
            Ok(b) => if flag(request.fatal) && !valid_utf8(b@) {
                r matches HostStep::Reply(Err(m)) && m@ == utf8_error_message(b@)
            } else {
                r matches HostStep::Reply(Ok(HostValue::Text(t))) && t@ == decoded(
                    b@,
                    flag(request.fatal),
                    flag(request.ignore_bom),
                )
            },
        }
    } else if op_is(request, "url"@) {
        exists|o: Result<Location, String>|
            #[trigger] location_outcome(
                text_view(request.input),
                text_view(request.base),
                text_view(request.query),
                o,
            ) && r == HostStep::Reply(location_reply(o))
    } else if op_is(request, "query_parse"@) {
        match request.query {
            None => r matches HostStep::Reply(Err(m)) && m@ == missing_text("query"@),
            Some(q) => r matches HostStep::Reply(Ok(HostValue::Pairs(p))) && pair_views(p@)
                == form_decoded(encode_utf8(q@)),
        }
    } else if op_is(request, "query_string"@) {
        match request.pairs {
            Err(e) => r matches HostStep::Reply(Err(m)) && m@ == e@,
            Ok(p) => r matches HostStep::Reply(Ok(HostValue::Text(t))) && encode_utf8(t@)
                == form_encoded(pair_views(p@)),
        }
    } else if op_is(request, "headers"@) {
        match request.pairs {
            Err(e) => r matches HostStep::Reply(Err(m)) && m@ == e@,
            Ok(p) => exists|o: Result<HeaderOutcome, String>|
                #[trigger] header_outcome(
                    pair_views(p@),
                    text_view(request.action),
                    text_view(request.name),
                    text_view(request.value),
                    o,
                ) && r == HostStep::Reply(header_reply(o)),
        }
    } else if op_is(request, "fetch"@) {
        r is Fetch
    } else {
        r matches HostStep::Reply(Err(m)) && m@ == "Unsupported host operation: "@
            + request.op->0@
    }
}

/// Two host values that read the same.
pub open spec fn same_value(a: HostValue, b: HostValue) -> bool {
    match a {
        HostValue::Bytes(x) => b matches HostValue::Bytes(y) && x@ == y@,
        HostValue::Text(x) => b matches HostValue::Text(y) && x@ == y@,
        HostValue::Location(x) => b matches HostValue::Location(y) && same_location(x, y),
        HostValue::Pairs(x) => b matches HostValue::Pairs(y) && pair_views(x@) == pair_views(y@),
        HostValue::Flag(x) => b matches HostValue::Flag(y) && x == y,
        HostValue::Null => b is Null,
        HostValue::Page(x) => b matches HostValue::Page(y) && x.status == y.status && x.url@
            == y.url@ && pair_views(x.headers@) == pair_views(y.headers@) && x.body@ == y.body@,
    }
}

/// Two steps that read the same: both hand a fetch on, or both answer alike.
pub open spec fn same_step(a: HostStep, b: HostStep) -> bool {
    match a {
        HostStep::Fetch => b is Fetch,
        HostStep::Reply(Ok(x)) => b matches HostStep::Reply(Ok(y)) && same_value(x, y),
        HostStep::Reply(Err(m)) => b matches HostStep::Reply(Err(n)) && m@ == n@,
    }
}

proof fn op_names_differ()
    ensures
        "url"@ != "encode"@,
        "url"@ != "decode"@,
        "decode"@ != "encode"@,
        "headers"@ != "encode"@,
        "headers"@ != "decode"@,
        "headers"@ != "url"@,
        "headers"@ != "query_parse"@,
        "headers"@ != "query_string"@,
        "query_parse"@ != "encode"@,
        "query_parse"@ != "decode"@,
        "query_parse"@ != "url"@,
        "query_string"@ != "encode"@,
        "query_string"@ != "decode"@,
        "query_string"@ != "url"@,
        "query_string"@ != "query_parse"@,
{
    reveal_strlit("url");
    reveal_strlit("encode");
    reveal_strlit("decode");
    reveal_strlit("headers");
    reveal_strlit("query_parse");
    reveal_strlit("query_string");
    assert("url"@[0] != "encode"@[0]);
    assert("decode"@[0] != "encode"@[0]);
    assert("url"@[0] != "decode"@[0]);
    assert("headers"@[0] != "encode"@[0]);
    assert("headers"@[0] != "decode"@[0]);
    assert("headers"@[0] != "url"@[0]);
    assert("headers"@[0] != "query_parse"@[0]);
    assert("headers"@[0] != "query_string"@[0]);
    assert("query_parse"@[0] != "encode"@[0]);
    assert("query_parse"@[0] != "decode"@[0]);
    assert("query_parse"@[0] != "url"@[0]);
    assert("query_string"@[0] != "encode"@[0]);
    assert("query_string"@[0] != "decode"@[0]);
    assert("query_string"@[0] != "url"@[0]);
    assert("query_string"@[6] != "query_parse"@[6]);
}

/// The text `query_string` makes of some pairs, handed to `query_parse`, gives
/// back those pairs in the same order.
pub proof fn query_string_then_parse(a: HostRequest, ra: HostStep, b: HostRequest, rb: HostStep)
    requires
        op_is(a, "query_string"@),
        a.pairs is Ok,
        dispatched(a, ra),
        op_is(b, "query_parse"@),
        dispatched(b, rb),
        ra matches HostStep::Reply(Ok(HostValue::Text(t))) && (b.query matches Some(q) && q@
            == t@),
    ensures
        rb matches HostStep::Reply(Ok(HostValue::Pairs(x))) && pair_views(x@) == pair_views(
            a.pairs->Ok_0@,
        ),
{
    op_names_differ();
    form_round_trip(pair_views(a.pairs->Ok_0@));
}

/// The same request is answered the same way every time (for `headers`, as
/// long as its pairs do not fill the map).
pub proof fn one_reply(request: HostRequest, a: HostStep, b: HostStep)
    requires
        dispatched(request, a),
        dispatched(request, b),
        !(op_is(request, "headers"@) && (request.pairs matches Ok(p) && fills_map(
            pair_views(p@),
        ))),
    ensures
        same_step(a, b),
{
    op_names_differ();
    if let (HostStep::Reply(Ok(HostValue::Text(x))), HostStep::Reply(Ok(HostValue::Text(y)))) = (
        a,
        b,
    ) {
        vstd::utf8::encode_utf8_decode_utf8(x@);
        vstd::utf8::encode_utf8_decode_utf8(y@);
    }
    if op_is(request, "url"@) && request.op is Some {
        let oa = choose|o: Result<Location, String>|
            #[trigger] location_outcome(
                text_view(request.input),
                text_view(request.base),
                text_view(request.query),
                o,
            ) && a == HostStep::Reply(location_reply(o));
        let ob = choose|o: Result<Location, String>|
            #[trigger] location_outcome(
                text_view(request.input),
                text_view(request.base),
                text_view(request.query),
                o,
            ) && b == HostStep::Reply(location_reply(o));
        one_location_outcome(
            text_view(request.input),
            text_view(request.base),
            text_view(request.query),
            oa,
            ob,
        );
    }
    if op_is(request, "headers"@) && request.pairs is Ok {
        let p = request.pairs->Ok_0;
        let oa = choose|o: Result<HeaderOutcome, String>|
            #[trigger] header_outcome(
                pair_views(p@),
                text_view(request.action),
                text_view(request.name),
                text_view(request.value),
                o,
            ) && a == HostStep::Reply(header_reply(o));
        let ob = choose|o: Result<HeaderOutcome, String>|
            #[trigger] header_outcome(
                pair_views(p@),
                text_view(request.action),
                text_view(request.name),
                text_view(request.value),
                o,
            ) && b == HostStep::Reply(header_reply(o));
        one_header_answer(
            pair_views(p@),
            text_view(request.action),
            text_view(request.name),
            text_view(request.value),
            oa,
            ob,
        );
    }
}

/// The host's operation dispatch: answers `encode`, `decode`, `url`,
/// `query_parse`, `query_string` and `headers`, and hands `fetch` on.
pub fn dispatch(request: &HostRequest) -> (r: HostStep)
    ensures
        dispatched(*request, r),
{
    let op = match required(&request.op, "op") {
        Ok(o) => o,
        Err(m) => {
            return HostStep::Reply(Err(m));
        },
    };
    if is_text(&request.op, "encode") {
        return match &request.units {
            Ok(u) => HostStep::Reply(Ok(HostValue::Bytes(encode_units(u.as_slice())))),
            Err(e) => HostStep::Reply(Err(e.clone())),
        };
    }
    if is_text(&request.op, "decode") {
        let fatal = match request.fatal {
            Some(b) => b,
            None => false,
        };
        let ignore_bom = match request.ignore_bom {
            Some(b) => b,
            None => false,
        };
        return match &request.bytes {
            Err(e) => HostStep::Reply(Err(e.clone())),
            Ok(b) => match decode_bytes(b.clone(), fatal, ignore_bom) {
                Ok(t) => HostStep::Reply(Ok(HostValue::Text(t))),
                Err(m) => HostStep::Reply(Err(m)),
            },
        };
    }
    if is_text(&request.op, "url") {
        let o = resolve_location(&request.input, &request.base, &request.query);
        let ghost kept = o;
        let reply = match o {
            Ok(l) => Ok(HostValue::Location(l)),
            Err(m) => Err(m),
        };
        assert(reply == location_reply(kept));
        return HostStep::Reply(reply);
    }
    if is_text(&request.op, "query_parse") {
        return match required(&request.query, "query") {
            Ok(q) => HostStep::Reply(Ok(HostValue::Pairs(form_pairs(q)))),
            Err(m) => HostStep::Reply(Err(m)),
        };
    }
    if is_text(&request.op, "query_string") {
        return match &request.pairs {
            Ok(p) => HostStep::Reply(Ok(HostValue::Text(form_string(p)))),
            Err(e) => HostStep::Reply(Err(e.clone())),
        };
    }
    if is_text(&request.op, "headers") {
        return match &request.pairs {
            Err(e) => HostStep::Reply(Err(e.clone())),
            Ok(p) => {
                let o = header_operation(p, &request.action, &request.name, &request.value);
                let ghost kept = o;
                let reply = match o {
                    Err(m) => Err(m),
                    Ok(HeaderOutcome::Pairs(x)) => Ok(HostValue::Pairs(x)),
                    Ok(HeaderOutcome::Present(b)) => Ok(HostValue::Flag(b)),
                    Ok(HeaderOutcome::Joined(None)) => Ok(HostValue::Null),
                    Ok(HeaderOutcome::Joined(Some(t))) => Ok(HostValue::Text(t)),
                };
                assert(reply == header_reply(kept));
                HostStep::Reply(reply)
            },
        };
    }
    if is_text(&request.op, "fetch") {
        return HostStep::Fetch;
    }
    let mut m = String::from_str("Unsupported host operation: ");
    m.append(op);
    HostStep::Reply(Err(m))
}

/// The JSON text of a reply: `{"value":…}` around the value's JSON, or
/// `{"error":…}` around the quoted message.
pub open spec fn framed(outcome: Result<Seq<char>, Seq<char>>) -> Seq<char> {
    match outcome {
        Ok(value) => "{\"value\":"@ + value + "}"@,
        Err(message) => "{\"error\":"@ + json_quoted(message) + "}"@,
    }
}

/// The reply the page receives, as UTF-8 bytes; `outcome` holds either the
/// JSON text of the value or the error message.
pub fn frame_reply(outcome: Result<String, String>) -> (r: Vec<u8>)
    ensures
        r@ == encode_utf8(framed(match outcome {
            Ok(v) => Ok(v@),
            Err(m) => Err(m@),
        })),
{
    let text = match outcome {
        Ok(v) => {
            let mut t = String::from_str("{\"value\":");
            t.append(v.as_str());
            t.append("}");
            t
        },
        Err(m) => {
            let mut t = String::from_str("{\"error\":");
            let quoted = json_string(m.as_str());
            t.append(quoted.as_str());
            t.append("}");
            t
        },
    };
    vstd::slice::slice_to_vec(text.as_str().as_bytes())
}

/// A `headers` request that sets or appends a value under a valid name answers
/// with pairs that hold that name, in lower case, with the request's value,
/// trimmed.
pub proof fn headers_edit_stores_the_value(request: HostRequest, r: HostStep)
    requires
        op_is(request, "headers"@),
        request.pairs matches Ok(p) && built(pair_views(p@)) is Ok && !fills_map(
            pair_views(p@),
        ),
        request.action matches Some(a) && (a@ == "set"@ || a@ == "append"@),
        request.name matches Some(n) && valid_header_name(encode_utf8(n@)),
        request.value matches Some(v) && valid_header_value(encode_utf8(trimmed(v@))),
        dispatched(request, r),
    ensures
        r matches HostStep::Reply(Ok(HostValue::Pairs(x))) && pair_views(x@).contains(
            (
                decode_utf8(lower(encode_utf8(request.name->0@))),
                trimmed(request.value->0@),
            ),
        ),
{
    op_names_differ();
    let p = request.pairs->Ok_0;
    let o = choose|o: Result<HeaderOutcome, String>|
        #[trigger] header_outcome(
            pair_views(p@),
            text_view(request.action),
            text_view(request.name),
            text_view(request.value),
            o,
        ) && r == HostStep::Reply(header_reply(o));
    edit_holds_new_pair(
        pair_views(p@),
        request.action->0@,
        request.name->0@,
        request.value->0@,
        o,
    );
}

/// `decode` fails exactly when the request's `fatal` is true and its bytes are
/// not UTF-8; otherwise it answers the bytes decoded with replacement, a
/// leading byte-order mark dropped unless `ignoreBOM` is true.
pub proof fn decode_fails_only_when_fatal(request: HostRequest, r: HostStep)
    requires
        op_is(request, "decode"@),
        request.bytes is Ok,
        dispatched(request, r),
    ensures
        (r matches HostStep::Reply(Err(_))) <==> (request.fatal == Some(true) && !valid_utf8(
            request.bytes->Ok_0@,
        )),
        request.fatal != Some(true) ==> (r matches HostStep::Reply(Ok(HostValue::Text(t)))
            && t@ == (if request.ignore_bom == Some(true) {
            lossy_text(request.bytes->Ok_0@)
        } else {
            without_bom(lossy_text(request.bytes->Ok_0@))
        })),
        valid_utf8(request.bytes->Ok_0@) ==> (r matches HostStep::Reply(Ok(HostValue::Text(t)))
            && t@ == (if request.ignore_bom == Some(true) {
            decode_utf8(request.bytes->Ok_0@)
        } else {
            without_bom(decode_utf8(request.bytes->Ok_0@))
        })),
{
    op_names_differ();
}

/// What `encode` makes of a text's UTF-16 units, handed to `decode` that keeps
/// a byte-order mark, gives back the text, whether or not `fatal` is set.
pub proof fn encode_then_decode(
    text: Seq<char>,
    a: HostRequest,
    ra: HostStep,
    b: HostRequest,
    rb: HostStep,
)
    requires
        op_is(a, "encode"@),
        a.units matches Ok(u) && u@ == encode_utf16(text),
        dispatched(a, ra),
        op_is(b, "decode"@),
        ra matches HostStep::Reply(Ok(HostValue::Bytes(x))) && (b.bytes matches Ok(y) && y@
            == x@),
        b.ignore_bom == Some(true),
        dispatched(b, rb),
    ensures
        rb matches HostStep::Reply(Ok(HostValue::Text(t))) && t@ == text,
{
    op_names_differ();
    utf16_round_trip(text);
    vstd::utf8::encode_utf8_valid_utf8(text);
    vstd::utf8::encode_utf8_decode_utf8(text);
}

/// Two `decode` requests that differ only in `ignoreBOM` both fail or both
/// succeed.
pub proof fn ignore_bom_never_decides_failure(
    a: HostRequest,
    ra: HostStep,
    b: HostRequest,
    rb: HostStep,
)
    requires
        op_is(a, "decode"@),
        op_is(b, "decode"@),
        a.bytes == b.bytes,
        a.fatal == b.fatal,
        dispatched(a, ra),
        dispatched(b, rb),
    ensures
        (ra matches HostStep::Reply(Err(_))) == (rb matches HostStep::Reply(Err(_))),
{
    op_names_differ();
}

} // verus!
