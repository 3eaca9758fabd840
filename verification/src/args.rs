use vstd::prelude::*;
use vstd::utf8::encode_utf8;

verus! {

/// Text of the error for an argument that is absent or not a string.
pub open spec fn missing_text(key: Seq<char>) -> Seq<char> {
    "Missing string: "@ + key
}

/// A string argument that the operation needs: its text, or the error that
/// names the missing key.
pub fn required<'a>(value: &'a Option<String>, key: &str) -> (r: Result<&'a str, String>)
    ensures
        match value {
            Some(s) => r matches Ok(t) && t@ == s@,
            None => r matches Err(m) && m@ == missing_text(key@),
        },
{
    match value {
        Some(s) => Ok(s.as_str()),
        None => {
            let mut m = String::from_str("Missing string: ");
            m.append(key);
            Err(m)
        },
    }
}

/// Whether two texts are equal.
pub fn same_text(a: &str, b: &str) -> (r: bool)
    ensures
        r == (a@ == b@),
{
    let x = a.as_bytes();
    let y = b.as_bytes();
    proof {
        vstd::utf8::encode_utf8_decode_utf8(a@);
        vstd::utf8::encode_utf8_decode_utf8(b@);
    }
    if x.len() != y.len() {
        return false;
    }
    let mut i: usize = 0;
    while i < x.len()
        invariant
            x@ == encode_utf8(a@),
            y@ == encode_utf8(b@),
            x@.len() == y@.len(),
            i <= x@.len(),
            forall|j: int| 0 <= j < i ==> x@[j] == y@[j],
        decreases x@.len() - i,
    {
        if x[i] != y[i] {
            return false;
        }
        i = i + 1;
    }
    assert(x@ =~= y@);
    true
}

/// An optional text as an optional character sequence.
pub open spec fn text_view(t: Option<String>) -> Option<Seq<char>> {
    match t {
        Some(s) => Some(s@),
        None => None,
    }
}

/// The answer when an operation runs into a hard limit of the `http` or `url`
/// crates (the host's answer to an operation that failed this way).
pub open spec fn overflow_text() -> Seq<char> {
    "Rust host operation panicked"@
}

/// The answer when an operation runs into a hard limit.
pub fn overflow_message() -> (r: String)
    ensures
        r@ == overflow_text(),
{
    String::from_str("Rust host operation panicked")
}

/// Whether an optional text is present and equal to `b`.
pub fn is_text(a: &Option<String>, b: &str) -> (r: bool)
    ensures
        r == (a matches Some(s) && s@ == b@),
{
    match a {
        Some(s) => same_text(s.as_str(), b),
        None => false,
    }
}

} // verus!
