use crate::error::Error;
use crate::invocation::{
    completed_call_returns_written_text, failed_call_carries_written_text, incomplete_text,
    offer_in_order, settles_to, unit_failed_text, Invocation, MAX_RESULT,
};
use vstd::prelude::*;
use vstd::utf8::encode_utf8;

verus! {

/// Declares `serde_json::Value`, the JSON value that `parse_text` forwards.
#[verifier::external_type_specification]
#[verifier::external_body]
pub struct ExJsonValue(serde_json::Value);

/// The lower-case hexadecimal digit for `d` (below 16).
pub open spec fn hex_digit(d: nat) -> char {
    if d < 10 {
        (('0' as nat) + d) as char
    } else {
        (('a' as nat) + d - 10) as char
    }
}

/// How a character stands inside a JSON string literal: `"` and `\` behind a
/// backslash, the control characters with a short escape where JSON has one
/// and as `\u00XX` otherwise, everything else as itself.
pub open spec fn json_escaped(c: char) -> Seq<char> {
    if c == '"' {
        seq!['\\', '"']
    } else if c == '\\' {
        seq!['\\', '\\']
    } else if c == '\u{8}' {
        seq!['\\', 'b']
    } else if c == '\t' {
        seq!['\\', 't']
    } else if c == '\n' {
        seq!['\\', 'n']
    } else if c == '\u{c}' {
        seq!['\\', 'f']
    } else if c == '\r' {
        seq!['\\', 'r']
    } else if (c as nat) < 32 {
        seq!['\\', 'u', '0', '0', hex_digit((c as nat) / 16), hex_digit((c as nat) % 16)]
    } else {
        seq![c]
    }
}

/// The JSON string literal for a text, as `serde_json` writes it.
pub open spec fn json_quoted(text: Seq<char>) -> Seq<char> {
    seq!['"'] + text.map_values(|c: char| json_escaped(c)).flatten() + seq!['"']
}

/// `serde_json::to_string` on a `&str`: the JSON string literal (quoted and
/// escaped) for `text`. Serialising a string never fails, so the error arm is
/// never taken.
#[verifier::external_body]
pub(crate) fn json_string(text: &str) -> (r: String)
    ensures
        r@ == json_quoted(text@),
{
    serde_json::to_string(text).unwrap_or_default()
}

/// One entry of a playlist listing.
#[derive(Debug, PartialEq)]
pub struct Video {
    pub id: String,
    pub title: String,
    pub duration: u64,
    pub published: String,
    pub available: bool,
}

/// Text of the error for an input the native ABI cannot carry.
pub open spec fn too_long_text() -> Seq<char> {
    "Input exceeds native ABI limit"@
}

/// Text of the error for an empty playlist ID.
pub open spec fn empty_playlist_text() -> Seq<char> {
    "Playlist ID is empty"@
}

/// Text of the error when the runtime could not be created and gave no reason.
pub open spec fn runtime_failed_text() -> Seq<char> {
    "Hermes initialization failed"@
}

/// The request text `playlistPages` receives for a playlist ID.
pub open spec fn playlist_request(id: Seq<char>) -> Seq<char> {
    "{\"id\":"@ + json_quoted(id) + "}"@
}

/// The compiled units that a runtime owner runs.
#[derive(Clone, Copy, Debug, PartialEq, Eq, Structural)]
pub enum NativeUnit {
    /// The host adapter unit.
    Host,
    /// The youtubei.js unit.
    Youtube,
    /// The driver unit that performs one pending call.
    Driver,
}

/// The error for a runtime that could not be created, with the reason the
/// runtime gave, if any.
pub fn runtime_failure(reason: Option<String>) -> (r: Error)
    ensures
        r matches Error::Initialization(m) && m@ == (match reason {
            Some(s) => s@,
            None => runtime_failed_text(),
        }),
{
    match reason {
        Some(s) => Error::Initialization(s),
        None => Error::Initialization(String::from_str("Hermes initialization failed")),
    }
}

/// The units a new runtime loads, in order, before it takes calls.
pub open spec fn opening_units() -> Seq<NativeUnit> {
    seq![NativeUnit::Host, NativeUnit::Youtube]
}

/// A runtime being opened: how many of [`opening_units`] have loaded so far.
/// The owner runs [`Opening::unit`] with an idle invocation and reports
/// whether it completed to [`Opening::finished`].
pub struct Opening {
    loaded: usize,
}

/// What follows a unit's run while opening.
pub enum OpenStep {
    /// Run the next unit.
    Next(Opening),
    /// Every unit has loaded; the runtime takes calls.
    Opened(Youtube),
    /// A unit failed; the runtime is given up.
    Failed(Error),
}

impl Opening {
    #[verifier::type_invariant]
    spec fn in_order(self) -> bool {
        self.loaded < opening_units().len()
    }

    /// How many units have loaded.
    pub closed spec fn loaded_count(self) -> nat {
        self.loaded as nat
    }

    /// Nothing loaded yet.
    pub fn new() -> (r: Opening)
        ensures
            r.loaded_count() == 0,
    {
        Opening { loaded: 0 }
    }

    /// The unit to run now: the first one not yet loaded.
    pub fn unit(&self) -> (r: NativeUnit)
        ensures
            self.loaded_count() < opening_units().len(),
            r == opening_units()[self.loaded_count() as int],
    {
        proof {
            use_type_invariant(self);
        }
        if self.loaded == 0 {
            NativeUnit::Host
        } else {
            NativeUnit::Youtube
        }
    }

    /// The step after the current unit ran: a unit that did not complete fails
    /// the opening; otherwise the next unit runs, or, after the last, the
    /// runtime is open.
    pub fn finished(self, completed: bool) -> (r: OpenStep)
        ensures
            !completed ==> (r matches OpenStep::Failed(Error::Initialization(m)) && m@
                == unit_failed_text()),
            completed && self.loaded_count() + 1 < opening_units().len() ==> (
            r matches OpenStep::Next(o) && o.loaded_count() == self.loaded_count() + 1),
            completed && self.loaded_count() + 1 >= opening_units().len() ==> (
            r matches OpenStep::Opened(y) && y.loaded_count() == opening_units().len()),
    {
        proof {
            use_type_invariant(&self);
        }
        if !completed {
            return OpenStep::Failed(
                Error::Initialization(
                    String::from_str("Native unit failed; see stderr for its exception"),
                ),
            );
        }
        if self.loaded + 1 < 2 {
            OpenStep::Next(Opening { loaded: self.loaded + 1 })
        } else {
            OpenStep::Opened(Youtube { loaded: 2 })
        }
    }
}

/// Opening runs the host unit, then the youtubei.js unit, and is open once both
/// have completed.
pub proof fn opening_runs_host_then_youtube()
    ensures
        opening_units().len() == 2,
        opening_units()[0] == NativeUnit::Host,
        opening_units()[1] == NativeUnit::Youtube,
{
}

/// A runtime that is open: its units have loaded and it takes calls. Each call
/// is an [`Invocation`] that the owner hands to the driver unit, then settles
/// with [`Invocation::settle`].
pub struct Youtube {
    loaded: usize,
}

impl Youtube {
    #[verifier::type_invariant]
    spec fn all_loaded(self) -> bool {
        self.loaded == opening_units().len()
    }

    /// How many units the runtime loaded before it opened.
    pub closed spec fn loaded_count(self) -> nat {
        self.loaded as nat
    }
}

/// `invocation` is a call of `method` on `input` that the driver has not yet
/// touched: nothing written, no length, no status.
pub open spec fn pending(invocation: Invocation, method: Seq<char>, input: Seq<u8>) -> bool {
    &&& invocation.method_bytes() == encode_utf8(method)
    &&& invocation.input_bytes() == input
    &&& invocation.output_bytes() == Seq::<u8>::empty()
    &&& invocation.reported_length() is None
    &&& invocation.reported_status() is None
}

/// What preparing a call of `method` on the UTF-8 input `input` gives: an input
/// too long for the ABI is refused; otherwise the pending invocation.
pub open spec fn prepared(method: Seq<char>, input: Seq<u8>, r: Result<Invocation, Error>) -> bool {
    if input.len() > i32::MAX {
        r matches Err(Error::InvalidInput(m)) && m@ == too_long_text()
    } else {
        r matches Ok(i) && pending(i, method, input)
    }
}

/// A call whose driver writes the UTF-8 encoding of `text` in order and
/// completes with its length gives back exactly `text`: as the result for
/// status 0, as a JavaScript error otherwise.
pub proof fn call_returns_what_the_driver_wrote(
    invocation: Invocation,
    method: Seq<char>,
    input: Seq<u8>,
    text: Seq<char>,
    status: i32,
    r: Result<String, Error>,
)
    requires
        pending(invocation, method, input),
        encode_utf8(text).len() <= MAX_RESULT,
        settles_to(
            true,
            offer_in_order(invocation.output_bytes(), encode_utf8(text)),
            Some(encode_utf8(text).len() as usize),
            Some(status),
            r,
        ),
    ensures
        status == 0 ==> (r matches Ok(s) && s@ == text),
        status != 0 ==> (r matches Err(Error::Javascript(s)) && s@ == text),
{
    if status == 0 {
        completed_call_returns_written_text(text, r);
    } else {
        failed_call_carries_written_text(text, status, r);
    }
}

/// A call whose driver completes without announcing the length of what it
/// wrote into the pending invocation is refused as incomplete, whatever its
/// status.
pub proof fn unannounced_result_is_incomplete(
    invocation: Invocation,
    method: Seq<char>,
    input: Seq<u8>,
    bytes: Seq<u8>,
    length: Option<usize>,
    status: Option<i32>,
    r: Result<String, Error>,
)
    requires
        pending(invocation, method, input),
        !(length matches Some(n) && n == offer_in_order(invocation.output_bytes(), bytes).len()),
        settles_to(true, offer_in_order(invocation.output_bytes(), bytes), length, status, r),
    ensures
        r matches Err(Error::InvalidOutput(m)) && m@ == incomplete_text(),
{
}

/// A call is refused only for an input of more than 2147483647 bytes; any
/// other input is handed over as it is, with the method's name, in an
/// invocation the driver has not yet touched.
pub proof fn only_oversized_input_is_refused(
    method: Seq<char>,
    input: Seq<u8>,
    r: Result<Invocation, Error>,
)
    requires
        prepared(method, input, r),
    ensures
        input.len() <= 2147483647 ==> (r matches Ok(i) && i.input_bytes() == input
            && i.method_bytes() == encode_utf8(method) && i.output_bytes() == Seq::<u8>::empty()
            && i.reported_length() is None && i.reported_status() is None),
        input.len() > 2147483647 ==> (r matches Err(Error::InvalidInput(m)) && m@
            == "Input exceeds native ABI limit"@),
{
}

impl Youtube {
    /// The call of the JavaScript method `method` with `input`, to hand to the driver.
    pub fn call(&self, method: &str, input: &str) -> (r: Result<Invocation, Error>)
        ensures
            prepared(method@, encode_utf8(input@), r),
    {
        if input.as_bytes().len() > 2147483647usize {
            return Err(Error::InvalidInput(String::from_str("Input exceeds native ABI limit")));
        }
        Ok(Invocation::start(method, input))
    }

    /// The call that asks for the Innertube client name of a fresh offline session.
    pub fn session_client_name(&self) -> (r: Invocation)
        ensures
            pending(r, "sessionName"@, Seq::empty()),
    {
        proof {
            reveal_strlit("");
        }
        Invocation::start("sessionName", "")
    }

    /// The call that renders a youtubei.js `Text` value (given as its JSON) to plain text.
    pub fn parse_text(&self, value: &serde_json::Value) -> (r: Result<Invocation, Error>)
        ensures
            exists|t: String|
                vstd::string::to_string_from_display_ensures::<serde_json::Value>(value, t)
                    && #[trigger] prepared("parseText"@, encode_utf8(t@), r),
    {
        let text = value.to_string();
        self.call("parseText", text.as_str())
    }

    /// The call that lists every page of a playlist (its result is the JSON array
    /// of the videos); an empty ID is refused.
    pub fn playlist_pages(&self, id: &str) -> (r: Result<Invocation, Error>)
        ensures
            id@.len() == 0 ==> (r matches Err(Error::InvalidInput(m)) && m@
                == empty_playlist_text()),
            id@.len() != 0 ==> prepared("playlistPages"@, encode_utf8(playlist_request(id@)), r),
    {
        if id.is_empty() {
            return Err(Error::InvalidInput(String::from_str("Playlist ID is empty")));
        }
        let mut request = String::from_str("{\"id\":");
        let quoted = json_string(id);
        request.append(quoted.as_str());
        request.append("}");
        self.call("playlistPages", request.as_str())
    }
}

} // verus!
