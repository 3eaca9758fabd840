use crate::args::{is_text, missing_text, overflow_text, required, same_text, text_view};
use crate::headers::{
    build_headers, built, fills_map, header_entries, header_pairs, is_token_byte, pair_views,
    pairs_of,
};
use crate::location::{
    href_view, url_host, url_host_of, url_href, url_join, url_joined, url_parse, url_parsed, url_path,
    url_path_of, url_query, url_query_of, url_text,
};
use crate::text::{lossy_text, strip_bom, utf8_lossy_string, without_bom};
use vstd::prelude::*;
use vstd::utf8::encode_utf8;

verus! {

/// Declares `reqwest::Method`.
#[verifier::external_type_specification]
#[verifier::external_body]
pub struct ExMethod(reqwest::Method);

/// The largest response body, in bytes, the host passes on (8 MiB).
pub const MAX_BODY: usize = 8388608;

/// Text of the error for a response body over [`MAX_BODY`].
pub open spec fn body_too_large_text() -> Seq<char> {
    "Probe response exceeds 8 MiB"@
}

/// Text of the error for an unknown redirect policy.
pub open spec fn invalid_redirect_text() -> Seq<char> {
    "Invalid redirect policy"@
}

/// Text of the error for a redirect when redirects were to be refused.
pub open spec fn unexpected_redirect_text() -> Seq<char> {
    "Unexpected HTTP redirect"@
}

/// Text of the error for a request away from YouTube while a fixture server stands in.
pub open spec fn fixture_only_text() -> Seq<char> {
    "Fixture transport only accepts www.youtube.com"@
}

/// Text of `InvalidMethod`.
pub open spec fn invalid_method_text() -> Seq<char> {
    "invalid HTTP method"@
}

/// The names `Method::from_str` accepts: one or more token bytes.
pub open spec fn valid_method(bytes: Seq<u8>) -> bool {
    &&& bytes.len() >= 1
    &&& forall|i: int| 0 <= i < bytes.len() ==> is_token_byte(#[trigger] bytes[i])
}

/// The name of a method, as bytes (`Method::as_str`).
pub uninterp spec fn method_bytes(method: reqwest::Method) -> Seq<u8>;

/// `Method::from_str`, its error given as its text: accepts one or more token
/// bytes and keeps them as the method's name.
#[verifier::external_body]
fn parse_method(text: &str) -> (r: Result<reqwest::Method, String>)
    ensures
        r is Ok <==> valid_method(encode_utf8(text@)),
        r matches Ok(m) ==> method_bytes(m) == encode_utf8(text@),
        r matches Err(m) ==> m@ == invalid_method_text(),
{
    text.parse::<reqwest::Method>().map_err(|e| e.to_string())
}

/// How a client treats redirects.
pub enum Redirects {
    /// Follow at most this many redirects.
    Limited(usize),
    /// Hand every redirect back as the response.
    Never,
}

/// The redirect policy a request names; `follow` when it names none.
pub open spec fn policy_name(redirect: Option<String>) -> Seq<char> {
    match redirect {
        Some(s) => s@,
        None => "follow"@,
    }
}

/// What a client does about redirects under the policy named `name`, if that
/// is a policy at all.
pub open spec fn redirects_for(name: Seq<char>) -> Option<Redirects> {
    if name == "follow"@ {
        Some(Redirects::Limited(10))
    } else if name == "manual"@ || name == "error"@ {
        Some(Redirects::Never)
    } else {
        None
    }
}

/// The redirect policy name of a request, and what the client does about redirects.
pub fn redirect_rule(redirect: &Option<String>) -> (r: Result<(String, Redirects), String>)
    ensures
        match redirects_for(policy_name(*redirect)) {
            Some(x) => r matches Ok(p) && p.0@ == policy_name(*redirect) && p.1 == x,
            None => r matches Err(m) && m@ == invalid_redirect_text(),
        },
        r matches Ok(p) ==> p.0@ == policy_name(*redirect),
        policy_name(*redirect) == "follow"@ ==> (r matches Ok(p) && p.1 == Redirects::Limited(
            10,
        )),
        (policy_name(*redirect) == "manual"@ || policy_name(*redirect) == "error"@) ==> (
        r matches Ok(p) && p.1 == Redirects::Never),
        !(policy_name(*redirect) == "follow"@ || policy_name(*redirect) == "manual"@
            || policy_name(*redirect) == "error"@) ==> (r matches Err(m) && m@
            == invalid_redirect_text()),
{
    proof {
        reveal_strlit("follow");
        reveal_strlit("manual");
        reveal_strlit("error");
        assert("manual"@[0] != "follow"@[0]);
        assert("error"@.len() != "follow"@.len());
    }
    let name = match redirect {
        Some(s) => s.clone(),
        None => String::from_str("follow"),
    };
    if same_text(name.as_str(), "follow") {
        Ok((name, Redirects::Limited(10)))
    } else if same_text(name.as_str(), "manual") || same_text(name.as_str(), "error") {
        Ok((name, Redirects::Never))
    } else {
        Err(String::from_str("Invalid redirect policy"))
    }
}

/// The path and query a request to YouTube is sent with to a fixture server: the
/// request must be for `www.youtube.com`.
pub fn fixture_path(host: &Option<String>, path: &str, query: &Option<String>) -> (r: Result<
    String,
    String,
>)
    ensures
        (host matches Some(h) && h@ == "www.youtube.com"@) ==> (r matches Ok(t) && t@ == path@
            + "?"@ + or_nothing(text_view(*query))),
        !(host matches Some(h) && h@ == "www.youtube.com"@) ==> (r matches Err(m) && m@
            == fixture_only_text()),
{
    if !is_text(host, "www.youtube.com") {
        return Err(String::from_str("Fixture transport only accepts www.youtube.com"));
    }
    let mut t = String::from_str(path);
    t.append("?");
    match query {
        Some(q) => t.append(q.as_str()),
        None => {},
    }
    Ok(t)
}

/// Where a fetch goes: the serialised URL the page asked for, and the URL the
/// request is sent to.
pub struct FetchTarget {
    pub requested: String,
    pub target: url::Url,
}

/// Text that is empty when absent.
pub open spec fn or_nothing(t: Option<Seq<char>>) -> Seq<char> {
    match t {
        Some(s) => s,
        None => seq![],
    }
}

/// Where a fetch for `url` goes, given the fixture origin (serialised) when one
/// stands in: the URL asked for and the URL the request is sent to, both
/// serialised, or the error.
pub open spec fn fetch_route(url: Seq<char>, fixture: Option<Seq<char>>) -> Result<
    (Seq<char>, Seq<char>),
    Seq<char>,
> {
    match url_parsed(url) {
        Err(m) => Err(m),
        Ok(h) => match fixture {
            None => Ok((h, h)),
            Some(o) => if url_host_of(h) == Some("www.youtube.com"@) {
                match url_joined(o, url_path_of(h) + "?"@ + or_nothing(url_query_of(h))) {
                    Ok(t) => Ok((h, t)),
                    Err(m) => Err(m),
                }
            } else {
                Err(fixture_only_text())
            },
        },
    }
}

/// The outcome of resolving a fetch's target.
pub open spec fn target_outcome(
    url: Option<Seq<char>>,
    fixture: Option<Seq<char>>,
    r: Result<FetchTarget, String>,
) -> bool {
    match url {
        None => r matches Err(m) && m@ == missing_text("url"@),
        Some(u) => match fetch_route(u, fixture) {
            Ok((q, t)) => r matches Ok(ft) && ft.requested@ == q && url_text(ft.target) == t,
            Err(m) => r matches Err(e) && e@ == m,
        },
    }
}

/// Resolves a fetch's URL; with a fixture origin, a request for YouTube is sent
/// to the same path and query on the fixture server instead.
pub fn fetch_target(url: &Option<String>, fixture: &Option<url::Url>) -> (r: Result<
    FetchTarget,
    String,
>)
    ensures
        target_outcome(text_view(*url), href_view(*fixture), r),
{
    let text = required(url, "url")?;
    let requested = url_parse(text)?;
    let href = url_href(&requested);
    match fixture {
        Some(origin) => {
            let host = url_host(&requested);
            let path = url_path(&requested);
            let query = url_query(&requested);
            let path = fixture_path(&host, path.as_str(), &query)?;
            let target = url_join(origin, path.as_str())?;
            Ok(FetchTarget { requested: href, target })
        },
        None => Ok(FetchTarget { requested: href, target: requested }),
    }
}

/// The method a fetch is sent with.
pub fn request_method(method: &Option<String>) -> (r: Result<reqwest::Method, String>)
    ensures
        match method {
            None => r matches Err(m) && m@ == missing_text("method"@),
            Some(m) => if valid_method(encode_utf8(m@)) {
                r matches Ok(x) && method_bytes(x) == encode_utf8(m@)
            } else {
                r matches Err(e) && e@ == invalid_method_text()
            },
        },
{
    let name = required(method, "method")?;
    parse_method(name)
}

/// The headers a fetch is sent with; `headers` is the outcome of reading the
/// request's header pairs.
pub fn request_headers(headers: &Result<Vec<(String, String)>, String>) -> (r: Result<
    reqwest::header::HeaderMap,
    String,
>)
    ensures
        match headers {
            Err(e) => r matches Err(t) && t@ == e@,
            Ok(h) => {
                ||| fills_map(pair_views(h@)) && (r matches Err(t) && t@ == overflow_text())
                ||| match built(pair_views(h@)) {
                    Err(e) => r matches Err(t) && t@ == e,
                    Ok(e) => r matches Ok(m) && header_entries(m) == e,
                }
            },
        },
{
    match headers {
        Ok(h) => build_headers(h),
        Err(e) => Err(e.clone()),
    }
}

/// Whether a response must be refused: redirects were to be treated as errors
/// and the status is a redirection (300 to 399).
pub fn check_redirect(redirect: &Option<String>, status: u16) -> (r: Result<(), String>)
    ensures
        r is Err <==> ((redirect matches Some(s) && s@ == "error"@) && 300 <= status < 400),
        r matches Err(m) ==> m@ == unexpected_redirect_text(),
{
    if is_text(redirect, "error") && 300 <= status && status < 400 {
        Err(String::from_str("Unexpected HTTP redirect"))
    } else {
        Ok(())
    }
}

/// What a fetch hands back to the page.
pub struct FetchedPage {
    pub status: u16,
    pub url: String,
    pub headers: Vec<(String, String)>,
    pub body: String,
}

/// The page for a response: its status, the URL to report (the one asked for
/// when a fixture server stood in, the response's own otherwise), its headers,
/// and its body as text without a leading byte-order mark. Bodies over
/// [`MAX_BODY`] are refused.
pub fn fetched_page(
    status: u16,
    requested: &str,
    response_url: &str,
    fixture: bool,
    headers: &reqwest::header::HeaderMap,
    body: Vec<u8>,
) -> (r: Result<FetchedPage, String>)
    ensures
        body@.len() > MAX_BODY ==> (r matches Err(m) && m@ == body_too_large_text()),
        body@.len() <= MAX_BODY ==> (r matches Ok(p) && p.status == status && p.url@ == (if fixture {
            requested@
        } else {
            response_url@
        }) && pair_views(p.headers@) == pairs_of(header_entries(*headers)) && p.body@
            == without_bom(lossy_text(body@))),
{
    let url = if fixture {
        String::from_str(requested)
    } else {
        String::from_str(response_url)
    };
    let pairs = header_pairs(headers);
    if body.len() > MAX_BODY {
        return Err(String::from_str("Probe response exceeds 8 MiB"));
    }
    let text = utf8_lossy_string(body.as_slice());
    let kept = String::from_str(strip_bom(text.as_str()));
    Ok(FetchedPage { status, url, headers: pairs, body: kept })
}

} // verus!
