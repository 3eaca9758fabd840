use crate::args::{missing_text, same_text, text_view};
use crate::dispatch::{dispatch, dispatched, op_is, HostRequest, HostStep};
use crate::fetch::{
    fetch_route, fetch_target, invalid_redirect_text, policy_name, redirect_rule, redirects_for,
    FetchTarget, Redirects,
};
use crate::location::{href_view, url_text};
use crate::text::{encode_utf16, utf16_lossy, utf16_lossy_string, utf16_round_trip};
use vstd::prelude::*;

verus! {

/// Declares `reqwest::blocking::Client`.
#[verifier::external_type_specification]
#[verifier::external_body]
pub struct ExClient(reqwest::blocking::Client);

/// `Client::clone`: another handle on the same client.
#[verifier::external_body]
fn client_clone(client: &reqwest::blocking::Client) -> reqwest::blocking::Client {
    client.clone()
}

/// The request units after `unit` (its low 16 bits) is written at `index`;
/// a write outside the request changes nothing.
pub open spec fn after_write(units: Seq<u16>, index: i32, unit: i32) -> Seq<u16> {
    if 0 <= index < units.len() {
        units.update(index as int, unit as u16)
    } else {
        units
    }
}

/// The request units after `w[k]`, `w[k + 1]`, ... are written at positions
/// `k`, `k + 1`, ...
pub open spec fn write_from(units: Seq<u16>, w: Seq<u16>, k: nat) -> Seq<u16>
    decreases w.len() - k,
{
    if k >= w.len() {
        units
    } else {
        write_from(after_write(units, k as i32, w[k as int] as i32), w, k + 1)
    }
}

/// The zero units a request of `n` units starts as.
pub open spec fn zeros(n: nat) -> Seq<u16> {
    Seq::new(n, |i: int| 0u16)
}

proof fn write_from_completes(units: Seq<u16>, w: Seq<u16>, k: nat)
    requires
        w.len() <= i32::MAX,
        units.len() == w.len(),
        k <= w.len(),
        units.subrange(0, k as int) == w.subrange(0, k as int),
    ensures
        write_from(units, w, k) == w,
    decreases w.len() - k,
{
    if k >= w.len() {
        assert(units =~= units.subrange(0, k as int));
        assert(w =~= w.subrange(0, k as int));
    } else {
        let x: u16 = w[k as int];
        assert(((x as i32) as u16) == x) by (bit_vector);
        let next = after_write(units, k as i32, x as i32);
        assert(next == units.update(k as int, x));
        assert forall|i: int| 0 <= i < k as int + 1 implies #[trigger] next[i] == w[i] by {
            if i < k {
                assert(units.subrange(0, k as int)[i] == w.subrange(0, k as int)[i]);
                assert(next[i] == units[i]);
                assert(units[i] == units.subrange(0, k as int)[i]);
                assert(w[i] == w.subrange(0, k as int)[i]);
            } else {
                assert(i == k as int);
                assert(next[i] == x);
            }
        }
        assert(next.subrange(0, k as int + 1) =~= w.subrange(0, k as int + 1));
        write_from_completes(next, w, k + 1);
    }
}

/// A request the native side writes unit by unit, in order, into a buffer begun
/// with its length arrives exactly as written.
pub proof fn written_request_arrives(w: Seq<u16>)
    requires
        w.len() <= i32::MAX,
    ensures
        write_from(zeros(w.len()), w, 0) == w,
{
    assert(zeros(w.len()).subrange(0, 0) =~= w.subrange(0, 0));
    write_from_completes(zeros(w.len()), w, 0);
}

/// Text the native side sends as its UTF-16 units, written in order into a
/// buffer begun with their number, is received as exactly that text.
pub proof fn sent_text_is_received(text: Seq<char>)
    requires
        encode_utf16(text).len() <= i32::MAX,
    ensures
        utf16_lossy(write_from(zeros(encode_utf16(text).len()), encode_utf16(text), 0)) == text,
{
    written_request_arrives(encode_utf16(text));
    utf16_round_trip(text);
}

/// The start of a fetch: where it goes, the redirect policy it names and what
/// that policy means, and the kept client when it was built for that policy.
pub struct FetchStart {
    pub target: FetchTarget,
    pub policy: String,
    pub redirects: Redirects,
    pub client: Option<reqwest::blocking::Client>,
}

/// The host side's state between native calls: the request being received
/// (UTF-16 units), the last response (UTF-8 bytes), the fixture origin that
/// stands in for YouTube, the HTTP client kept for one redirect policy, and,
/// while logging is on, the operations handled.
pub struct Transport {
    input: Vec<u16>,
    output: Vec<u8>,
    fixture: Option<url::Url>,
    client: Option<(String, reqwest::blocking::Client)>,
    logging: bool,
    operations: Vec<String>,
}

impl Transport {
    /// The request units received so far.
    pub closed spec fn input_units(self) -> Seq<u16> {
        self.input@
    }

    /// The bytes of the last response.
    pub closed spec fn output_bytes(self) -> Seq<u8> {
        self.output@
    }

    /// The fixture origin that stands in for YouTube, serialised, if one is set.
    pub closed spec fn fixture_href(self) -> Option<Seq<char>> {
        href_view(self.fixture)
    }

    /// Whether a fixture origin stands in for YouTube.
    pub open spec fn has_fixture(self) -> bool {
        self.fixture_href() is Some
    }

    /// The redirect policy the kept client was built for, if one is kept.
    pub closed spec fn client_policy(self) -> Option<Seq<char>> {
        match self.client {
            Some(c) => Some(c.0@),
            None => None,
        }
    }

    /// Whether handled operations are logged.
    pub closed spec fn logs_operations(self) -> bool {
        self.logging
    }

    /// The names of the operations logged so far, in order.
    pub closed spec fn operation_names(self) -> Seq<Seq<char>> {
        self.operations@.map_values(|o: String| o@)
    }

    /// Nothing received, nothing to send, no fixture, no client, no operations.
    pub open spec fn is_empty(self) -> bool {
        &&& self.input_units() == Seq::<u16>::empty()
        &&& self.output_bytes() == Seq::<u8>::empty()
        &&& !self.has_fixture()
        &&& self.client_policy() is None
        &&& !self.logs_operations()
        &&& self.operation_names() == Seq::<Seq<char>>::empty()
    }

    /// A fresh host state.
    pub fn new() -> (r: Self)
        ensures
            r.is_empty(),
    {
        let r = Transport {
            input: Vec::new(),
            output: Vec::new(),
            fixture: None,
            client: None,
            logging: false,
            operations: Vec::new(),
        };
        assert(r.operation_names() =~= Seq::<Seq<char>>::empty());
        r
    }

    /// Forgets everything: buffers, fixture, kept client and operations.
    pub fn reset(&mut self)
        ensures
            final(self).is_empty(),
    {
        *self = Transport::new();
    }

    /// Sets or clears the fixture origin that stands in for YouTube.
    pub fn fixture_origin(&mut self, origin: Option<url::Url>)
        ensures
            final(self).fixture_href() == href_view(origin),
            final(self).input_units() == old(self).input_units(),
            final(self).output_bytes() == old(self).output_bytes(),
            final(self).client_policy() == old(self).client_policy(),
            final(self).operation_names() == old(self).operation_names(),
            final(self).logs_operations() == old(self).logs_operations(),
    {
        self.fixture = origin;
    }

    /// The fixture origin, if one is set.
    pub fn fixture(&self) -> (r: &Option<url::Url>)
        ensures
            href_view(*r) == self.fixture_href(),
    {
        &self.fixture
    }

    /// The operations handled so far, in order.
    pub fn operations(&self) -> (r: Vec<String>)
        ensures
            r@.map_values(|o: String| o@) == self.operation_names(),
    {
        let mut out: Vec<String> = Vec::new();
        let mut i: usize = 0;
        while i < self.operations.len()
            invariant
                i <= self.operations@.len(),
                out@.len() == i,
                forall|j: int| 0 <= j < i ==> (#[trigger] out@[j])@ == self.operations@[j]@,
            decreases self.operations@.len() - i,
        {
            out.push(self.operations[i].clone());
            i = i + 1;
        }
        assert(out@.map_values(|o: String| o@) =~= self.operation_names());
        out
    }

    /// Starts receiving a request of `length` UTF-16 units (none for a negative
    /// length), all zero until written.
    pub fn begin(&mut self, length: i32)
        ensures
            final(self).input_units() == zeros(
                if length > 0 {
                    length as nat
                } else {
                    0
                },
            ),
            final(self).output_bytes() == old(self).output_bytes(),
            final(self).fixture_href() == old(self).fixture_href(),
            final(self).client_policy() == old(self).client_policy(),
            final(self).operation_names() == old(self).operation_names(),
            final(self).logs_operations() == old(self).logs_operations(),
    {
        let n: usize = if length > 0 {
            length as usize
        } else {
            0
        };
        let mut units: Vec<u16> = Vec::new();
        while units.len() < n
            invariant
                units@.len() <= n,
                forall|j: int| 0 <= j < units@.len() ==> units@[j] == 0u16,
            decreases n - units@.len(),
        {
            units.push(0);
        }
        assert(units@ =~= Seq::new(n as nat, |i: int| 0u16));
        self.input = units;
    }

    /// Receives one UTF-16 unit (the low 16 bits of `unit`) at `index`; writes
    /// outside the request are ignored.
    pub fn write(&mut self, index: i32, unit: i32)
        ensures
            final(self).input_units() == after_write(old(self).input_units(), index, unit),
            final(self).output_bytes() == old(self).output_bytes(),
            final(self).fixture_href() == old(self).fixture_href(),
            final(self).client_policy() == old(self).client_policy(),
            final(self).operation_names() == old(self).operation_names(),
            final(self).logs_operations() == old(self).logs_operations(),
    {
        if index >= 0 && (index as usize) < self.input.len() {
            self.input.set(index as usize, unit as u16);
        }
    }

    /// The received request as text, unpaired surrogates replaced by U+FFFD.
    pub fn input_text(&self) -> (r: String)
        ensures
            r@ == utf16_lossy(self.input_units()),
    {
        utf16_lossy_string(self.input.as_slice())
    }

    /// Keeps `reply` as the response and gives its length in bytes (as the
    /// native ABI's `i32`).
    pub fn respond(&mut self, reply: Vec<u8>) -> (r: i32)
        ensures
            final(self).output_bytes() == reply@,
            r == reply@.len() as i32,
            final(self).input_units() == old(self).input_units(),
            final(self).fixture_href() == old(self).fixture_href(),
            final(self).client_policy() == old(self).client_policy(),
            final(self).operation_names() == old(self).operation_names(),
            final(self).logs_operations() == old(self).logs_operations(),
    {
        let n: usize = reply.len();
        self.output = reply;
        n as i32
    }

    /// The bytes of the last response.
    pub fn output(&self) -> (r: &[u8])
        ensures
            r@ == self.output_bytes(),
    {
        self.output.as_slice()
    }

    /// The kept client, when it was built for the redirect policy `policy`.
    pub fn cached_client(&self, policy: &str) -> (r: Option<reqwest::blocking::Client>)
        ensures
            r is Some <==> self.client_policy() == Some(policy@),
    {
        match &self.client {
            Some(kept) => {
                if same_text(kept.0.as_str(), policy) {
                    Some(client_clone(&kept.1))
                } else {
                    None
                }
            },
            None => None,
        }
    }

    /// Keeps `client` as the client for the redirect policy `policy`.
    pub fn keep_client(&mut self, policy: String, client: reqwest::blocking::Client)
        ensures
            final(self).client_policy() == Some(policy@),
            final(self).input_units() == old(self).input_units(),
            final(self).output_bytes() == old(self).output_bytes(),
            final(self).fixture_href() == old(self).fixture_href(),
            final(self).operation_names() == old(self).operation_names(),
            final(self).logs_operations() == old(self).logs_operations(),
    {
        self.client = Some((policy, client));
    }

    /// Turns the log of handled operations on or off; a fresh state does not log.
    pub fn log_operations(&mut self, on: bool)
        ensures
            final(self).logs_operations() == on,
            final(self).operation_names() == old(self).operation_names(),
            final(self).input_units() == old(self).input_units(),
            final(self).output_bytes() == old(self).output_bytes(),
            final(self).fixture_href() == old(self).fixture_href(),
            final(self).client_policy() == old(self).client_policy(),
    {
        self.logging = on;
    }

    /// Logs the operation a request names, when logging is on and it names one.
    pub fn record(&mut self, request: &HostRequest)
        ensures
            final(self).operation_names() == (if old(self).logs_operations() && request.op is Some {
                old(self).operation_names().push(request.op->0@)
            } else {
                old(self).operation_names()
            }),
            final(self).logs_operations() == old(self).logs_operations(),
            final(self).input_units() == old(self).input_units(),
            final(self).output_bytes() == old(self).output_bytes(),
            final(self).fixture_href() == old(self).fixture_href(),
            final(self).client_policy() == old(self).client_policy(),
    {
        if self.logging {
            match &request.op {
                Some(o) => {
                    self.operations.push(o.clone());
                    assert(self.operation_names() =~= old(self).operation_names().push(o@));
                },
                None => {},
            }
        }
    }

    /// Takes a request: logs its operation (see [`Transport::record`]), then
    /// dispatches it.
    pub fn handle(&mut self, request: &HostRequest) -> (r: HostStep)
        ensures
            dispatched(*request, r),
            final(self).operation_names() == (if old(self).logs_operations() && request.op is Some {
                old(self).operation_names().push(request.op->0@)
            } else {
                old(self).operation_names()
            }),
            final(self).logs_operations() == old(self).logs_operations(),
            final(self).input_units() == old(self).input_units(),
            final(self).output_bytes() == old(self).output_bytes(),
            final(self).fixture_href() == old(self).fixture_href(),
            final(self).client_policy() == old(self).client_policy(),
    {
        self.record(request);
        dispatch(request)
    }

    /// Starts a fetch: resolves its target (through the fixture origin when one
    /// is set), reads its redirect policy, and looks up a kept client for it.
    pub fn prepare_fetch(&self, request: &HostRequest) -> (r: Result<FetchStart, String>)
        ensures
            match text_view(request.url) {
                None => r matches Err(m) && m@ == missing_text("url"@),
                Some(u) => match fetch_route(u, self.fixture_href()) {
                    Err(m) => r matches Err(e) && e@ == m,
                    Ok((q, t)) => match redirects_for(policy_name(request.redirect)) {
                        None => r matches Err(e) && e@ == invalid_redirect_text(),
                        Some(x) => r matches Ok(s) && s.target.requested@ == q && url_text(
                            s.target.target,
                        ) == t && s.policy@ == policy_name(request.redirect) && s.redirects == x
                            && (s.client is Some <==> self.client_policy() == Some(s.policy@)),
                    },
                },
            },
    {
        let target = fetch_target(&request.url, &self.fixture)?;
        let (policy, redirects) = redirect_rule(&request.redirect)?;
        let client = self.cached_client(policy.as_str());
        Ok(FetchStart { target, policy, redirects, client })
    }
}

} // verus!
