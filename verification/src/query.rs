use crate::headers::pair_views;
use crate::text::lossy_text;
use vstd::prelude::*;
use vstd::utf8::{decode_utf8, encode_utf8};

verus! {

/// The bytes `application/x-www-form-urlencoded` serialisation keeps as they
/// are: ASCII letters and digits, `*`, `-`, `.` and `_`.
pub open spec fn unreserved(b: u8) -> bool {
    ||| b == 42
    ||| b == 45
    ||| b == 46
    ||| 48 <= b <= 57
    ||| 65 <= b <= 90
    ||| b == 95
    ||| 97 <= b <= 122
}

/// The upper-case hexadecimal digit for `d` (below 16), as a byte.
pub open spec fn upper_hex(d: u8) -> u8 {
    if d < 10 {
        (48 + d) as u8
    } else {
        (55 + d) as u8
    }
}

/// How one byte is serialised: kept, `+` for a space, `%XX` otherwise.
pub open spec fn serialized_byte(b: u8) -> Seq<u8> {
    if unreserved(b) {
        seq![b]
    } else if b == 32 {
        seq![43u8]
    } else {
        seq![37u8, upper_hex(b / 16), upper_hex(b % 16)]
    }
}

/// The serialisation of a byte string, byte by byte.
pub open spec fn serialized(bytes: Seq<u8>) -> Seq<u8>
    decreases bytes.len(),
{
    if bytes.len() == 0 {
        seq![]
    } else {
        serialized_byte(bytes[0]) + serialized(bytes.drop_first())
    }
}

/// One pair serialised: the name's UTF-8 bytes, `=`, the value's.
pub open spec fn serialized_pair(pair: (Seq<char>, Seq<char>)) -> Seq<u8> {
    serialized(encode_utf8(pair.0)) + seq![61u8] + serialized(encode_utf8(pair.1))
}

/// The `application/x-www-form-urlencoded` serialisation of (name, value)
/// pairs, as bytes: the serialised pairs joined with `&`.
pub open spec fn form_encoded(pairs: Seq<(Seq<char>, Seq<char>)>) -> Seq<u8>
    decreases pairs.len(),
{
    if pairs.len() == 0 {
        seq![]
    } else if pairs.len() == 1 {
        serialized_pair(pairs[0])
    } else {
        serialized_pair(pairs[0]) + seq![38u8] + form_encoded(pairs.drop_first())
    }
}

/// The bytes `char::to_digit(16)` accepts.
pub open spec fn is_hex_digit(b: u8) -> bool {
    ||| 48 <= b <= 57
    ||| 65 <= b <= 70
    ||| 97 <= b <= 102
}

/// The value of a hexadecimal digit.
pub open spec fn hex_value(b: u8) -> int {
    if b <= 57 {
        b - 48
    } else if b <= 70 {
        b - 55
    } else {
        b - 87
    }
}

/// Every `+` read as a space.
pub open spec fn plus_as_space(bytes: Seq<u8>) -> Seq<u8> {
    bytes.map_values(|b: u8|
        if b == 43 {
            32u8
        } else {
            b
        })
}

/// Percent-decoding: `%` and two hexadecimal digits stand for one byte; any
/// other byte, a lone `%` included, stands for itself.
pub open spec fn percent_decoded(bytes: Seq<u8>) -> Seq<u8>
    decreases bytes.len(),
{
    if bytes.len() == 0 {
        seq![]
    } else if bytes[0] == 37 && bytes.len() >= 3 && is_hex_digit(bytes[1]) && is_hex_digit(
        bytes[2],
    ) {
        seq![(hex_value(bytes[1]) * 16 + hex_value(bytes[2])) as u8] + percent_decoded(
            bytes.skip(3),
        )
    } else {
        seq![bytes[0]] + percent_decoded(bytes.drop_first())
    }
}

/// A name or value as parsing reads it: `+` as space, percent-decoded, then
/// decoded as UTF-8 with replacement.
pub open spec fn decoded_field(bytes: Seq<u8>) -> Seq<char> {
    lossy_text(percent_decoded(plus_as_space(bytes)))
}

/// The position of the first `b` in `bytes`, or the length when there is none.
pub open spec fn first_at(bytes: Seq<u8>, b: u8) -> nat
    decreases bytes.len(),
{
    if bytes.len() == 0 {
        0
    } else if bytes[0] == b {
        0
    } else {
        1 + first_at(bytes.drop_first(), b)
    }
}

proof fn first_at_bound(bytes: Seq<u8>, b: u8)
    ensures
        first_at(bytes, b) <= bytes.len(),
    decreases bytes.len(),
{
    if bytes.len() > 0 {
        first_at_bound(bytes.drop_first(), b);
    }
}

/// A non-empty segment as a pair: the part before the first `=` and the part
/// after it (empty when there is no `=`).
pub open spec fn field_pair(segment: Seq<u8>) -> (Seq<char>, Seq<char>) {
    let j = first_at(segment, 61);
    (
        decoded_field(segment.take(j as int)),
        decoded_field(
            if j < segment.len() {
                segment.skip(j + 1int)
            } else {
                seq![]
            },
        ),
    )
}

/// The (name, value) pairs that `application/x-www-form-urlencoded` parsing
/// finds in a byte string: its `&`-separated segments, empty ones skipped.
pub open spec fn form_decoded(input: Seq<u8>) -> Seq<(Seq<char>, Seq<char>)>
    decreases input.len(),
{
    if input.len() == 0 {
        seq![]
    } else {
        let i = first_at(input, 38);
        let rest = if i < input.len() {
            input.skip(i + 1int)
        } else {
            seq![]
        };
        if i == 0 {
            form_decoded(rest)
        } else {
            seq![field_pair(input.take(i as int))] + form_decoded(rest)
        }
    }
}

/// `form_urlencoded::parse` on the query's bytes, each pair taken as owned text.
#[verifier::external_body]
pub(crate) fn form_pairs(query: &str) -> (r: Vec<(String, String)>)
    ensures
        pair_views(r@) == form_decoded(encode_utf8(query@)),
{
    url::form_urlencoded::parse(query.as_bytes()).into_owned().collect()
}

/// `form_urlencoded::Serializer` over an empty string, fed all pairs, then finished.
#[verifier::external_body]
pub(crate) fn form_string(pairs: &Vec<(String, String)>) -> (r: String)
    ensures
        encode_utf8(r@) == form_encoded(pair_views(pairs@)),
{
    url::form_urlencoded::Serializer::new(String::new()).extend_pairs(pairs).finish()
}

/// Serialised bytes never hold `&` or `=`.
proof fn no_separators(bytes: Seq<u8>)
    ensures
        forall|i: int|
            0 <= i < serialized(bytes).len() ==> #[trigger] serialized(bytes)[i] != 38
                && serialized(bytes)[i] != 61,
    decreases bytes.len(),
{
    if bytes.len() > 0 {
        no_separators(bytes.drop_first());
        let b = bytes[0];
        let c = serialized_byte(b);
        assert(upper_hex(b / 16) != 38 && upper_hex(b / 16) != 61);
        assert(upper_hex(b % 16) != 38 && upper_hex(b % 16) != 61);
        assert forall|i: int| 0 <= i < serialized(bytes).len() implies #[trigger] serialized(
            bytes,
        )[i] != 38 && serialized(bytes)[i] != 61 by {
            if i >= c.len() {
                assert(serialized(bytes)[i] == serialized(bytes.drop_first())[i - c.len()]);
            }
        }
    }
}

/// The first `s` after a stretch without one is where that stretch ends.
proof fn first_after(a: Seq<u8>, b: Seq<u8>, s: u8)
    requires
        forall|i: int| 0 <= i < a.len() ==> a[i] != s,
        b.len() == 0 || b[0] == s,
    ensures
        first_at(a + b, s) == a.len(),
    decreases a.len(),
{
    if a.len() > 0 {
        first_after(a.drop_first(), b, s);
        assert((a + b).drop_first() =~= a.drop_first() + b);
    } else {
        assert(a + b =~= b);
    }
}

/// The upper-case hexadecimal digits read back as their values.
proof fn hex_round_trip(b: u8)
    ensures
        is_hex_digit(upper_hex(b / 16)),
        is_hex_digit(upper_hex(b % 16)),
        (hex_value(upper_hex(b / 16)) * 16 + hex_value(upper_hex(b % 16))) as u8 == b,
{
    assert((b / 16) * 16 + b % 16 == b) by (bit_vector);
    assert(b / 16 < 16) by (bit_vector);
    assert(b % 16 < 16) by (bit_vector);
}

/// Reading `+` as space and percent-decoding undoes serialisation.
proof fn serialized_decodes(bytes: Seq<u8>)
    ensures
        percent_decoded(plus_as_space(serialized(bytes))) == bytes,
    decreases bytes.len(),
{
    if bytes.len() == 0 {
        assert(plus_as_space(serialized(bytes)) =~= Seq::<u8>::empty());
    } else {
        let b = bytes[0];
        let rest = bytes.drop_first();
        serialized_decodes(rest);
        let c = serialized_byte(b);
        let t = plus_as_space(serialized(rest));
        let all = plus_as_space(serialized(bytes));
        assert(serialized(bytes) == c + serialized(rest));
        if unreserved(b) || b == 32 {
            let x: u8 = if b == 32 {
                32u8
            } else {
                b
            };
            assert(all =~= seq![x] + t);
            assert(all.drop_first() =~= t);
            assert(x == b);
        } else {
            hex_round_trip(b);
            let h = upper_hex(b / 16);
            let l = upper_hex(b % 16);
            assert(all =~= seq![37u8, h, l] + t);
            assert(all.skip(3) =~= t);
        }
        assert(percent_decoded(all) =~= bytes);
    }
}

/// A serialised text reads back as that text.
proof fn field_round_trip(text: Seq<char>)
    ensures
        decoded_field(serialized(encode_utf8(text))) == text,
{
    serialized_decodes(encode_utf8(text));
    vstd::utf8::encode_utf8_valid_utf8(text);
    vstd::utf8::encode_utf8_decode_utf8(text);
}

/// A serialised pair reads back as that pair.
proof fn pair_round_trip(pair: (Seq<char>, Seq<char>))
    ensures
        field_pair(serialized_pair(pair)) == pair,
        serialized_pair(pair).len() > 0,
        forall|i: int|
            0 <= i < serialized_pair(pair).len() ==> #[trigger] serialized_pair(pair)[i] != 38,
{
    let n = serialized(encode_utf8(pair.0));
    let v = serialized(encode_utf8(pair.1));
    let s = serialized_pair(pair);
    no_separators(encode_utf8(pair.0));
    no_separators(encode_utf8(pair.1));
    first_after(n, seq![61u8] + v, 61);
    assert(s =~= n + (seq![61u8] + v));
    assert(s.take(n.len() as int) =~= n);
    assert(s.skip(n.len() + 1int) =~= v);
    field_round_trip(pair.0);
    field_round_trip(pair.1);
    assert forall|i: int| 0 <= i < s.len() implies #[trigger] s[i] != 38 by {
        if i < n.len() {
            assert(s[i] == n[i]);
        } else if i > n.len() {
            assert(s[i] == v[i - n.len() - 1]);
        }
    }
}

/// Parsing the serialisation of any list of pairs gives back the same pairs,
/// in the same order.
pub proof fn form_round_trip(pairs: Seq<(Seq<char>, Seq<char>)>)
    ensures
        form_decoded(form_encoded(pairs)) == pairs,
    decreases pairs.len(),
{
    if pairs.len() > 0 {
        let tail = pairs.drop_first();
        form_round_trip(tail);
        let s = serialized_pair(pairs[0]);
        pair_round_trip(pairs[0]);
        let input = form_encoded(pairs);
        if pairs.len() == 1 {
            first_after(s, seq![], 38);
            assert(s + Seq::<u8>::empty() =~= s);
            assert(input.take(s.len() as int) =~= s);
            assert(form_encoded(tail) =~= Seq::<u8>::empty());
        } else {
            let t = form_encoded(tail);
            first_after(s, seq![38u8] + t, 38);
            assert(input =~= s + (seq![38u8] + t));
            assert(input.take(s.len() as int) =~= s);
            assert(input.skip(s.len() + 1int) =~= t);
        }
        assert(form_decoded(input) =~= seq![pairs[0]] + tail);
        assert(seq![pairs[0]] + tail =~= pairs);
    }
}

} // verus!
