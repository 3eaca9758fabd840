use crate::error::Error;
use vstd::prelude::*;
use crate::text::{utf8_error_message, utf8_string};
use vstd::utf8::{decode_utf8, encode_utf8, valid_utf8};

verus! {

/// The largest result, in bytes, that the driver may hand back (8 MiB).
pub const MAX_RESULT: usize = 8388608;

/// Text of the error for a native unit that did not complete.
pub open spec fn unit_failed_text() -> Seq<char> {
    "Native unit failed; see stderr for its exception"@
}

/// Text of the error for a result whose announced length does not match what arrived.
pub open spec fn incomplete_text() -> Seq<char> {
    "Native result was incomplete or exceeded 8 MiB"@
}

/// How a finished invocation turns into the caller's result.
///
/// `initialized` tells whether the driver unit completed; `output`, `length` and
/// `status` are what the driver wrote back.
pub open spec fn settles_to(
    initialized: bool,
    output: Seq<u8>,
    length: Option<usize>,
    status: Option<i32>,
    r: Result<String, Error>,
) -> bool {
    if !initialized {
        r matches Err(Error::Initialization(m)) && m@ == unit_failed_text()
    } else if !(length matches Some(n) && n == output.len()) {
        r matches Err(Error::InvalidOutput(m)) && m@ == incomplete_text()
    } else if !valid_utf8(output) {
        r matches Err(Error::InvalidOutput(m)) && m@ == utf8_error_message(output)
    } else if status == Some(0i32) {
        r matches Ok(s) && s@ == decode_utf8(output)
    } else {
        r matches Err(Error::Javascript(s)) && s@ == decode_utf8(output)
    }
}

/// The result bytes after the driver offers `byte` at `index`: it is kept only at
/// the next free position and while the result is under [`MAX_RESULT`].
pub open spec fn after_output_byte(output: Seq<u8>, index: i32, byte: i32) -> Seq<u8> {
    if 0 <= index && index == output.len() && output.len() < MAX_RESULT {
        output.push(byte as u8)
    } else {
        output
    }
}

/// The result bytes after the driver offers each of `bytes`, in order, each at
/// the position that follows what is already there.
pub open spec fn offer_in_order(output: Seq<u8>, bytes: Seq<u8>) -> Seq<u8>
    decreases bytes.len(),
{
    if bytes.len() == 0 {
        output
    } else {
        offer_in_order(
            after_output_byte(output, output.len() as i32, bytes[0] as i32),
            bytes.drop_first(),
        )
    }
}

/// A driver that writes its bytes in order loses none of them while the result
/// stays within [`MAX_RESULT`]: what it wrote is what the invocation holds.
pub proof fn in_order_output_is_kept(output: Seq<u8>, bytes: Seq<u8>)
    requires
        output.len() + bytes.len() <= MAX_RESULT,
    ensures
        offer_in_order(output, bytes) == output + bytes,
    decreases bytes.len(),
{
    if bytes.len() > 0 {
        let b: u8 = bytes[0];
        assert(((b as i32) as u8) == b) by (bit_vector);
        let next = after_output_byte(output, output.len() as i32, b as i32);
        assert(next == output.push(b));
        in_order_output_is_kept(next, bytes.drop_first());
        assert(output.push(b) + bytes.drop_first() =~= output + bytes);
    }
}

/// A call whose driver completed, wrote the UTF-8 encoding of `text` in order,
/// announced its length and reported status 0 gives back exactly `text`.
pub proof fn completed_call_returns_written_text(text: Seq<char>, r: Result<String, Error>)
    requires
        encode_utf8(text).len() <= MAX_RESULT,
        settles_to(
            true,
            offer_in_order(Seq::empty(), encode_utf8(text)),
            Some(encode_utf8(text).len() as usize),
            Some(0i32),
            r,
        ),
    ensures
        r matches Ok(s) && s@ == text,
{
    in_order_output_is_kept(Seq::empty(), encode_utf8(text));
    assert(Seq::<u8>::empty() + encode_utf8(text) =~= encode_utf8(text));
    vstd::utf8::encode_utf8_valid_utf8(text);
    vstd::utf8::encode_utf8_decode_utf8(text);
}

/// The same written text reported with a non-zero status comes back as a
/// JavaScript error that carries the text.
pub proof fn failed_call_carries_written_text(
    text: Seq<char>,
    status: i32,
    r: Result<String, Error>,
)
    requires
        encode_utf8(text).len() <= MAX_RESULT,
        status != 0,
        settles_to(
            true,
            offer_in_order(Seq::empty(), encode_utf8(text)),
            Some(encode_utf8(text).len() as usize),
            Some(status),
            r,
        ),
    ensures
        r matches Err(Error::Javascript(s)) && s@ == text,
{
    in_order_output_is_kept(Seq::empty(), encode_utf8(text));
    assert(Seq::<u8>::empty() + encode_utf8(text) =~= encode_utf8(text));
    vstd::utf8::encode_utf8_valid_utf8(text);
    vstd::utf8::encode_utf8_decode_utf8(text);
}

/// The state shared between one call and the native driver unit: what the driver
/// reads (the method name and the input) and what it writes back (the output
/// bytes, their announced length and a status).
pub struct Invocation {
    method: Vec<u8>,
    input: Vec<u8>,
    output: Vec<u8>,
    length: Option<usize>,
    status: Option<i32>,
}

impl Invocation {
    #[verifier::type_invariant]
    spec fn within_limit(self) -> bool {
        self.output.len() <= MAX_RESULT
    }

    /// The method name the driver reads.
    pub closed spec fn method_bytes(self) -> Seq<u8> {
        self.method@
    }

    /// The input the driver reads.
    pub closed spec fn input_bytes(self) -> Seq<u8> {
        self.input@
    }

    /// The bytes the driver has written back so far.
    pub closed spec fn output_bytes(self) -> Seq<u8> {
        self.output@
    }

    /// The length the driver announced when it completed, if it did and it was not negative.
    pub closed spec fn reported_length(self) -> Option<usize> {
        self.length
    }

    /// The status the driver announced when it completed.
    pub closed spec fn reported_status(self) -> Option<i32> {
        self.status
    }

    /// The bytes selected by a method flag: 1 selects the method name, anything else the input.
    pub open spec fn selected(self, method: i32) -> Seq<u8> {
        if method == 1 {
            self.method_bytes()
        } else {
            self.input_bytes()
        }
    }

    /// An idle invocation: nothing to read, nothing written.
    pub fn new() -> (r: Self)
        ensures
            r.method_bytes() == Seq::<u8>::empty(),
            r.input_bytes() == Seq::<u8>::empty(),
            r.output_bytes() == Seq::<u8>::empty(),
            r.reported_length() is None,
            r.reported_status() is None,
    {
        Invocation {
            method: Vec::new(),
            input: Vec::new(),
            output: Vec::new(),
            length: None,
            status: None,
        }
    }

    /// A pending call of `method` on `input`, before the driver has run.
    pub fn start(method: &str, input: &str) -> (r: Self)
        ensures
            r.method_bytes() == encode_utf8(method@),
            r.input_bytes() == encode_utf8(input@),
            r.output_bytes() == Seq::<u8>::empty(),
            r.reported_length() is None,
            r.reported_status() is None,
    {
        Invocation {
            method: vstd::slice::slice_to_vec(method.as_bytes()),
            input: vstd::slice::slice_to_vec(input.as_bytes()),
            output: Vec::new(),
            length: None,
            status: None,
        }
    }

    /// The number of bytes the driver can read: of the method name for flag 1,
    /// of the input otherwise (as the native ABI's `i32`).
    pub fn input_length(&self, method: i32) -> (r: i32)
        ensures
            r == self.selected(method).len() as i32,
    {
        let n: usize = if method == 1 {
            self.method.len()
        } else {
            self.input.len()
        };
        n as i32
    }

    /// The byte at `index` of the method name (flag 1) or the input; 0 out of range.
    pub fn input_byte(&self, method: i32, index: i32) -> (r: i32)
        ensures
            r == (if 0 <= index < self.selected(method).len() {
                self.selected(method)[index as int] as i32
            } else {
                0i32
            }),
    {
        let bytes = if method == 1 {
            &self.method
        } else {
            &self.input
        };
        if index >= 0 && (index as usize) < bytes.len() {
            bytes[index as usize] as i32
        } else {
            0
        }
    }

    /// Takes one result byte from the driver. It is kept only when it comes at the
    /// next free position and the result is still under [`MAX_RESULT`].
    pub fn output_byte(&mut self, index: i32, byte: i32)
        ensures
            final(self).method_bytes() == old(self).method_bytes(),
            final(self).input_bytes() == old(self).input_bytes(),
            final(self).reported_length() == old(self).reported_length(),
            final(self).reported_status() == old(self).reported_status(),
            final(self).output_bytes() == after_output_byte(old(self).output_bytes(), index, byte),
    {
        if index >= 0 && index as usize == self.output.len() && self.output.len() < MAX_RESULT {
            let mut written = Vec::new();
            std::mem::swap(&mut written, &mut self.output);
            written.push(byte as u8);
            self.output = written;
        }
    }

    /// Records the driver's completion: its status and the length it announces
    /// (a negative length announces nothing).
    pub fn complete(&mut self, status: i32, length: i32)
        ensures
            final(self).method_bytes() == old(self).method_bytes(),
            final(self).input_bytes() == old(self).input_bytes(),
            final(self).output_bytes() == old(self).output_bytes(),
            final(self).reported_status() == Some(status),
            final(self).reported_length() == (if length >= 0 {
                Some(length as usize)
            } else {
                None::<usize>
            }),
    {
        proof {
            use_type_invariant(&*self);
        }
        self.status = Some(status);
        self.length = if length >= 0 {
            Some(length as usize)
        } else {
            None
        };
    }

    /// Turns the finished invocation into the call's result; `initialized` tells
    /// whether the driver unit completed.
    pub fn settle(self, initialized: bool) -> (r: Result<String, Error>)
        ensures
            settles_to(
                initialized,
                self.output_bytes(),
                self.reported_length(),
                self.reported_status(),
                r,
            ),
    {
        if !initialized {
            return Err(
                Error::Initialization(
                    String::from_str("Native unit failed; see stderr for its exception"),
                ),
            );
        }
        let complete = match self.length {
            Some(n) => n == self.output.len(),
            None => false,
        };
        if !complete {
            return Err(
                Error::InvalidOutput(
                    String::from_str("Native result was incomplete or exceeded 8 MiB"),
                ),
            );
        }
        let status = self.status;
        match utf8_string(self.output) {
            Err(m) => Err(Error::InvalidOutput(m)),
            Ok(text) => {
                if status == Some(0i32) {
                    Ok(text)
                } else {
                    Err(Error::Javascript(text))
                }
            },
        }
    }

    /// Every invocation keeps its result within [`MAX_RESULT`] bytes.
    pub fn result_len(&self) -> (r: usize)
        ensures
            r == self.output_bytes().len(),
            r <= MAX_RESULT,
    {
        proof {
            use_type_invariant(self);
        }
        self.output.len()
    }
}

} // verus!
