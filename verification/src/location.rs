use crate::args::{missing_text, overflow_message, overflow_text, required, text_view};
use vstd::prelude::*;
use vstd::utf8::encode_utf8;

verus! {

/// Declares `url::Url`.
#[verifier::external_type_specification]
#[verifier::external_body]
pub struct ExUrl(url::Url);

/// The serialised form of a URL (`Url::as_str`), which determines the URL.
pub uninterp spec fn url_text(url: url::Url) -> Seq<char>;

/// What `Url::parse` makes of a text: the serialised URL, or the text of its
/// error.
pub uninterp spec fn url_parsed(input: Seq<char>) -> Result<Seq<char>, Seq<char>>;

/// What `Url::join` makes of `input` against the URL serialised as `base`: the
/// serialised URL, or the text of its error.
pub uninterp spec fn url_joined(base: Seq<char>, input: Seq<char>) -> Result<Seq<char>, Seq<char>>;

/// The serialised URL that `Url::set_query` leaves, for the URL serialised as
/// `href` and the new query (`None` removes it).
pub uninterp spec fn url_requeried(href: Seq<char>, query: Option<Seq<char>>) -> Seq<char>;

/// `Url::origin`, serialised as ASCII, of the URL serialised as `href`.
pub uninterp spec fn url_origin_of(href: Seq<char>) -> Seq<char>;

/// `Url::host_str` of the URL serialised as `href`.
pub uninterp spec fn url_host_of(href: Seq<char>) -> Option<Seq<char>>;

/// `Url::port` of the URL serialised as `href`.
pub uninterp spec fn url_port_of(href: Seq<char>) -> Option<u16>;

/// `Url::path` of the URL serialised as `href`.
pub uninterp spec fn url_path_of(href: Seq<char>) -> Seq<char>;

/// `Url::scheme` of the URL serialised as `href`.
pub uninterp spec fn url_scheme_of(href: Seq<char>) -> Seq<char>;

/// `Url::query` of the URL serialised as `href`.
pub uninterp spec fn url_query_of(href: Seq<char>) -> Option<Seq<char>>;

/// `Url::fragment` of the URL serialised as `href`.
pub uninterp spec fn url_fragment_of(href: Seq<char>) -> Option<Seq<char>>;

/// An optional URL by its serialisation.
pub open spec fn href_view(u: Option<url::Url>) -> Option<Seq<char>> {
    match u {
        Some(x) => Some(url_text(x)),
        None => None,
    }
}

/// `Url::parse`, its error given as its text.
#[verifier::external_body]
pub(crate) fn url_parse(input: &str) -> (r: Result<url::Url, String>)
    ensures
        match r {
            Ok(u) => url_parsed(input@) == Ok::<Seq<char>, Seq<char>>(url_text(u)),
            Err(m) => url_parsed(input@) == Err::<Seq<char>, Seq<char>>(m@),
        },
{
    url::Url::parse(input).map_err(|e| e.to_string())
}

/// `Url::join`: `input` resolved against `base`, its error given as its text.
#[verifier::external_body]
pub(crate) fn url_join(base: &url::Url, input: &str) -> (r: Result<url::Url, String>)
    ensures
        match r {
            Ok(u) => url_joined(url_text(*base), input@) == Ok::<Seq<char>, Seq<char>>(url_text(u)),
            Err(m) => url_joined(url_text(*base), input@) == Err::<Seq<char>, Seq<char>>(m@),
        },
{
    base.join(input).map_err(|e| e.to_string())
}

/// The query a URL may be given without `Url::set_query` panicking: the crate
/// records positions in the serialisation as `u32`, so the URL must be below
/// 2^32 bytes and, with a fragment, so must the new serialisation (the query
/// taking at most three bytes per byte).
pub open spec fn query_fits(href: Seq<char>, query: Seq<char>) -> bool {
    &&& encode_utf8(href).len() <= 4294967295
    &&& (url_fragment_of(href) is None || encode_utf8(href).len() + 1 + 3 * encode_utf8(query).len()
        <= 4294967295)
}

/// `Url::set_query`: replaces the query, or removes it for `None`.
#[verifier::external_body]
fn url_set_query(url: &mut url::Url, query: Option<&str>)
    requires
        query matches Some(q) ==> query_fits(url_text(*old(url)), q@),
    ensures
        url_text(*final(url)) == url_requeried(
            url_text(*old(url)),
            match query {
                Some(q) => Some(q@),
                None => None,
            },
        ),
{
    url.set_query(query)
}

/// `Url::as_str`: the serialised URL.
#[verifier::external_body]
pub(crate) fn url_href(url: &url::Url) -> (r: String)
    ensures
        r@ == url_text(*url),
{
    url.as_str().to_owned()
}

/// `Url::origin`, serialised with `Origin::ascii_serialization`.
#[verifier::external_body]
fn url_origin(url: &url::Url) -> (r: String)
    ensures
        r@ == url_origin_of(url_text(*url)),
{
    url.origin().ascii_serialization()
}

/// `Url::host_str`.
#[verifier::external_body]
pub(crate) fn url_host(url: &url::Url) -> (r: Option<String>)
    ensures
        text_view(r) == url_host_of(url_text(*url)),
{
    url.host_str().map(|h| h.to_owned())
}

/// `Url::port`: the explicit port, if any.
#[verifier::external_body]
fn url_port(url: &url::Url) -> (r: Option<u16>)
    ensures
        r == url_port_of(url_text(*url)),
{
    url.port()
}

/// `Url::path`.
#[verifier::external_body]
pub(crate) fn url_path(url: &url::Url) -> (r: String)
    ensures
        r@ == url_path_of(url_text(*url)),
{
    url.path().to_owned()
}

/// `Url::scheme`.
#[verifier::external_body]
fn url_scheme(url: &url::Url) -> (r: String)
    ensures
        r@ == url_scheme_of(url_text(*url)),
{
    url.scheme().to_owned()
}

/// `Url::query`.
#[verifier::external_body]
pub(crate) fn url_query(url: &url::Url) -> (r: Option<String>)
    ensures
        text_view(r) == url_query_of(url_text(*url)),
{
    url.query().map(|q| q.to_owned())
}

/// `Url::fragment`.
#[verifier::external_body]
fn url_fragment(url: &url::Url) -> (r: Option<String>)
    ensures
        text_view(r) == url_fragment_of(url_text(*url)),
{
    url.fragment().map(|f| f.to_owned())
}

/// The components of a parsed URL, as plain text.
pub struct UrlParts {
    pub href: String,
    pub origin: String,
    pub host: Option<String>,
    pub port: Option<u16>,
    pub path: String,
    pub scheme: String,
    pub query: Option<String>,
    pub fragment: Option<String>,
}

/// A URL described the way the JavaScript `URL` object describes it.
pub struct Location {
    pub href: String,
    pub origin: String,
    pub hostname: String,
    pub host: String,
    pub pathname: String,
    pub protocol: String,
    pub search: String,
    pub hash: String,
}

/// The decimal digit for `d` (below 10).
pub open spec fn digit(d: nat) -> char {
    (('0' as u32) + d) as char
}

/// The decimal numeral for `n`, without leading zeros.
pub open spec fn decimal(n: nat) -> Seq<char>
    decreases n,
{
    if n < 10 {
        seq![digit(n)]
    } else {
        decimal(n / 10) + seq![digit(n % 10)]
    }
}

fn digit_text(d: u16) -> (r: &'static str)
    requires
        d < 10,
    ensures
        r@ == seq![digit(d as nat)],
{
    if d == 0 {
        proof { reveal_strlit("0"); }
        "0"
    } else if d == 1 {
        proof { reveal_strlit("1"); }
        "1"
    } else if d == 2 {
        proof { reveal_strlit("2"); }
        "2"
    } else if d == 3 {
        proof { reveal_strlit("3"); }
        "3"
    } else if d == 4 {
        proof { reveal_strlit("4"); }
        "4"
    } else if d == 5 {
        proof { reveal_strlit("5"); }
        "5"
    } else if d == 6 {
        proof { reveal_strlit("6"); }
        "6"
    } else if d == 7 {
        proof { reveal_strlit("7"); }
        "7"
    } else if d == 8 {
        proof { reveal_strlit("8"); }
        "8"
    } else {
        proof { reveal_strlit("9"); }
        "9"
    }
}

/// The number a numeral stands for, read digit by digit from the left.
pub open spec fn numeral_value(s: Seq<char>) -> int
    decreases s.len(),
{
    if s.len() == 0 {
        0
    } else {
        10 * numeral_value(s.drop_last()) + ((s.last() as int) - ('0' as int))
    }
}

proof fn digit_value(d: nat)
    requires
        d < 10,
    ensures
        (digit(d) as int) - ('0' as int) == d,
        '0' <= digit(d) <= '9',
{
    assert(('0' as u32) == 48);
    assert((((48 + d) as u32) as char) as int == 48 + d);
}

/// The decimal numeral of `n` is made of the digits `0` to `9` and reads back
/// as `n`.
pub proof fn decimal_reads_back(n: nat)
    ensures
        decimal(n).len() >= 1,
        forall|i: int| 0 <= i < decimal(n).len() ==> '0' <= #[trigger] decimal(n)[i] <= '9',
        numeral_value(decimal(n)) == n,
    decreases n,
{
    if n < 10 {
        digit_value(n);
        assert(decimal(n) =~= seq![digit(n)]);
        assert(decimal(n).drop_last() =~= Seq::<char>::empty());
        assert(numeral_value(decimal(n).drop_last()) == 0);
        assert(numeral_value(decimal(n)) == 10 * numeral_value(decimal(n).drop_last()) + ((
        decimal(n).last() as int) - ('0' as int)));
    } else {
        decimal_reads_back(n / 10);
        let s = decimal(n);
        assert(s.drop_last() =~= decimal(n / 10));
        assert(s.last() == digit(n % 10));
        digit_value(n % 10);
        assert(n == 10 * (n / 10) + n % 10);
        assert(numeral_value(s) == 10 * numeral_value(s.drop_last()) + ((s.last() as int) - (
        '0' as int)));
        assert forall|i: int| 0 <= i < s.len() implies '0' <= #[trigger] s[i] <= '9' by {
            if i < s.len() - 1 {
                assert(s[i] == decimal(n / 10)[i]);
            }
        }
    }
}

/// The decimal numeral of a port number, as `Display` writes it.
pub fn decimal_text(n: u16) -> (r: String)
    ensures
        r@ == decimal(n as nat),
    decreases n,
{
    if n < 10 {
        String::from_str(digit_text(n))
    } else {
        let mut s = decimal_text(n / 10);
        s.append(digit_text(n % 10));
        s
    }
}

/// Text that is empty when absent.
pub open spec fn or_empty(t: Option<String>) -> Seq<char> {
    match t {
        Some(s) => s@,
        None => seq![],
    }
}

/// Text with a prefix when present, empty when absent.
pub open spec fn prefixed(prefix: Seq<char>, t: Option<String>) -> Seq<char> {
    match t {
        Some(s) => prefix + s@,
        None => seq![],
    }
}

/// `loc` describes the URL whose components are `parts`.
pub open spec fn describes(loc: Location, parts: UrlParts) -> bool {
    &&& loc.href@ == parts.href@
    &&& loc.origin@ == parts.origin@
    &&& loc.hostname@ == or_empty(parts.host)
    &&& loc.host@ == (match parts.port {
        Some(p) => or_empty(parts.host) + ":"@ + decimal(p as nat),
        None => or_empty(parts.host),
    })
    &&& loc.pathname@ == parts.path@
    &&& loc.protocol@ == parts.scheme@ + ":"@
    &&& loc.search@ == prefixed("?"@, parts.query)
    &&& loc.hash@ == prefixed("#"@, parts.fragment)
}

fn text_or_empty(t: Option<String>) -> (r: String)
    ensures
        r@ == or_empty(t),
{
    match t {
        Some(s) => s,
        None => String::new(),
    }
}

fn text_prefixed(prefix: &str, t: Option<String>) -> (r: String)
    ensures
        r@ == prefixed(prefix@, t),
{
    match t {
        Some(s) => {
            let mut r = String::from_str(prefix);
            r.append(s.as_str());
            r
        },
        None => String::new(),
    }
}

/// The JavaScript-style description of a URL's components.
pub fn location(parts: UrlParts) -> (r: Location)
    ensures
        describes(r, parts),
{
    let ghost whole = parts;
    let hostname = text_or_empty(parts.host);
    let host = match parts.port {
        Some(p) => {
            let mut h = hostname.clone();
            h.append(":");
            let digits = decimal_text(p);
            h.append(digits.as_str());
            h
        },
        None => hostname.clone(),
    };
    let mut protocol = parts.scheme;
    protocol.append(":");
    let search = text_prefixed("?", parts.query);
    let hash = text_prefixed("#", parts.fragment);
    Location {
        href: parts.href,
        origin: parts.origin,
        hostname,
        host,
        pathname: parts.path,
        protocol,
        search,
        hash,
    }
}

/// `parts` are the components of the URL serialised as `href`.
pub open spec fn parts_of(parts: UrlParts, href: Seq<char>) -> bool {
    &&& parts.href@ == href
    &&& parts.origin@ == url_origin_of(href)
    &&& text_view(parts.host) == url_host_of(href)
    &&& parts.port == url_port_of(href)
    &&& parts.path@ == url_path_of(href)
    &&& parts.scheme@ == url_scheme_of(href)
    &&& text_view(parts.query) == url_query_of(href)
    &&& text_view(parts.fragment) == url_fragment_of(href)
}

/// `loc` describes the URL serialised as `href`.
pub open spec fn locates(loc: Location, href: Seq<char>) -> bool {
    exists|parts: UrlParts| #[trigger] parts_of(parts, href) && describes(loc, parts)
}

/// Two descriptions with the same text in every field.
pub open spec fn same_location(a: Location, b: Location) -> bool {
    &&& a.href@ == b.href@
    &&& a.origin@ == b.origin@
    &&& a.hostname@ == b.hostname@
    &&& a.host@ == b.host@
    &&& a.pathname@ == b.pathname@
    &&& a.protocol@ == b.protocol@
    &&& a.search@ == b.search@
    &&& a.hash@ == b.hash@
}

/// A URL has one description: any two that describe it agree.
pub proof fn one_location(a: Location, b: Location, href: Seq<char>)
    requires
        locates(a, href),
        locates(b, href),
    ensures
        same_location(a, b),
{
    let pa = choose|parts: UrlParts| #[trigger] parts_of(parts, href) && describes(a, parts);
    let pb = choose|parts: UrlParts| #[trigger] parts_of(parts, href) && describes(b, parts);
    assert(or_empty(pa.host) == or_empty(pb.host)) by {
        match pa.host {
            Some(x) => {},
            None => {},
        }
    }
}

/// The components of a parsed URL, read through its accessors.
fn url_parts(url: &url::Url) -> (r: UrlParts)
    ensures
        parts_of(r, url_text(*url)),
{
    UrlParts {
        href: url_href(url),
        origin: url_origin(url),
        host: url_host(url),
        port: url_port(url),
        path: url_path(url),
        scheme: url_scheme(url),
        query: url_query(url),
        fragment: url_fragment(url),
    }
}

/// The URL `input` names, parsed on its own or against `base`: its
/// serialisation, or the text of the error.
pub open spec fn resolved(input: Seq<char>, base: Option<Seq<char>>) -> Result<Seq<char>, Seq<char>> {
    match base {
        None => url_parsed(input),
        Some(b) => match url_parsed(b) {
            Ok(h) => url_joined(h, input),
            Err(m) => Err(m),
        },
    }
}

/// The answer to the host's `url` operation.
pub open spec fn location_outcome(
    input: Option<Seq<char>>,
    base: Option<Seq<char>>,
    query: Option<Seq<char>>,
    r: Result<Location, String>,
) -> bool {
    match input {
        None => r matches Err(m) && m@ == missing_text("input"@),
        Some(i) => match resolved(i, base) {
            Err(m) => r matches Err(e) && e@ == m,
            Ok(h) => match query {
                None => r matches Ok(loc) && locates(loc, h),
                Some(q) => if q.len() == 0 {
                    r matches Ok(loc) && locates(loc, url_requeried(h, None))
                } else if query_fits(h, q) {
                    r matches Ok(loc) && locates(loc, url_requeried(h, Some(q)))
                } else {
                    r matches Err(e) && e@ == overflow_text()
                },
            },
        },
    }
}

/// A `url` request has one answer: any two outcomes for it read the same.
pub proof fn one_location_outcome(
    input: Option<Seq<char>>,
    base: Option<Seq<char>>,
    query: Option<Seq<char>>,
    a: Result<Location, String>,
    b: Result<Location, String>,
)
    requires
        location_outcome(input, base, query, a),
        location_outcome(input, base, query, b),
    ensures
        a matches Ok(x) ==> b matches Ok(y) && same_location(x, y),
        a matches Err(m) ==> b matches Err(n) && m@ == n@,
{
    if let Some(i) = input {
        if let Ok(h) = resolved(i, base) {
            let href = match query {
                None => h,
                Some(q) => if q.len() == 0 {
                    url_requeried(h, None)
                } else {
                    url_requeried(h, Some(q))
                },
            };
            if let (Ok(x), Ok(y)) = (a, b) {
                one_location(x, y, href);
            }
        }
    }
}

/// Whether a query may be set on a URL without running into the crate's limit.
fn query_fits_url(url: &url::Url, query: &str) -> (r: bool)
    ensures
        r == query_fits(url_text(*url), query@),
{
    let href = url_href(url);
    let h: usize = href.as_str().as_bytes().len();
    if h > 4294967295 {
        return false;
    }
    if url_fragment(url).is_none() {
        return true;
    }
    let q: usize = query.as_bytes().len();
    if h > 4294967294 || q > 4294967295 {
        return false;
    }
    let total: u64 = h as u64 + 1 + 3 * (q as u64);
    total <= 4294967295
}

/// The host's `url` operation: parses `input` (against `base` when given),
/// replaces the query when one is given (an empty one removes it), and describes
/// the result.
pub fn resolve_location(
    input: &Option<String>,
    base: &Option<String>,
    query: &Option<String>,
) -> (r: Result<Location, String>)
    ensures
        location_outcome(text_view(*input), text_view(*base), text_view(*query), r),
{
    let text = required(input, "input")?;
    let parsed = match base {
        Some(b) => match url_parse(b.as_str()) {
            Ok(u) => url_join(&u, text),
            Err(e) => Err(e),
        },
        None => url_parse(text),
    };
    let mut url = match parsed {
        Ok(u) => u,
        Err(e) => {
            return Err(e);
        },
    };
    match query {
        Some(q) => {
            if q.as_str().is_empty() {
                url_set_query(&mut url, None);
            } else if query_fits_url(&url, q.as_str()) {
                url_set_query(&mut url, Some(q.as_str()));
            } else {
                return Err(overflow_message());
            }
        },
        None => {},
    }
    let parts = url_parts(&url);
    let ghost kept = parts;
    let loc = location(parts);
    assert(parts_of(kept, url_text(url)) && describes(loc, kept));
    Ok(loc)
}

/// A URL's description reads like the URL: the serialised form as `href`, the
/// scheme followed by `:` as `protocol`, the host followed by `:` and a numeral
/// that reads back as the port (when there is one) as `host`, and the query
/// and fragment behind `?` and `#`, empty when absent.
pub proof fn location_reads_like_url(loc: Location, href: Seq<char>)
    requires
        locates(loc, href),
    ensures
        loc.href@ == href,
        loc.origin@ == url_origin_of(href),
        loc.pathname@ == url_path_of(href),
        loc.protocol@ == url_scheme_of(href) + ":"@,
        url_host_of(href) matches Some(h) ==> loc.hostname@ == h,
        url_host_of(href) is None ==> loc.hostname@.len() == 0,
        url_port_of(href) is None ==> loc.host@ == loc.hostname@,
        url_port_of(href) matches Some(port) ==> (exists|digits: Seq<char>|
            loc.host@ == loc.hostname@ + ":"@ + digits && #[trigger] numeral_value(digits)
                == port),
        url_query_of(href) matches Some(q) ==> loc.search@ == "?"@ + q,
        url_query_of(href) is None ==> loc.search@.len() == 0,
        url_fragment_of(href) matches Some(f) ==> loc.hash@ == "#"@ + f,
        url_fragment_of(href) is None ==> loc.hash@.len() == 0,
{
    let parts = choose|parts: UrlParts| #[trigger] parts_of(parts, href) && describes(loc, parts);
    if let Some(port) = url_port_of(href) {
        decimal_reads_back(port as nat);
        assert(numeral_value(decimal(port as nat)) == port);
    }
}

} // verus!
