use vstd::prelude::*;
use vstd::utf8::{decode_utf8, encode_utf8, valid_utf8};

verus! {

/// The text of the error `String::from_utf8` gives for bytes that are not
/// UTF-8 (it tells where the first invalid sequence starts).
pub uninterp spec fn utf8_error_message(bytes: Seq<u8>) -> Seq<char>;

/// `String::from_utf8`: succeeds exactly on valid UTF-8 and then holds the
/// decoded text; its error is given as its text.
#[verifier::external_body]
pub(crate) fn utf8_string(bytes: Vec<u8>) -> (r: Result<String, String>)
    ensures
        r is Ok <==> valid_utf8(bytes@),
        r matches Ok(s) ==> s@ == decode_utf8(bytes@),
        r matches Err(m) ==> m@ == utf8_error_message(bytes@),
{
    String::from_utf8(bytes).map_err(|e| e.to_string())
}

/// What `String::from_utf8_lossy` makes of a byte sequence.
pub uninterp spec fn utf8_lossy(bytes: Seq<u8>) -> Seq<char>;

/// Text decoded with replacement: valid UTF-8 decodes as it is, anything else
/// as `String::from_utf8_lossy` makes of it.
pub open spec fn lossy_text(bytes: Seq<u8>) -> Seq<char> {
    if valid_utf8(bytes) {
        decode_utf8(bytes)
    } else {
        utf8_lossy(bytes)
    }
}

/// `String::from_utf8_lossy`: valid UTF-8 is decoded as it is; invalid sequences
/// become U+FFFD (the exact replacement rule is std's and is not stated here).
#[verifier::external_body]
pub(crate) fn utf8_lossy_string(bytes: &[u8]) -> (r: String)
    ensures
        r@ == utf8_lossy(bytes@),
        valid_utf8(bytes@) ==> r@ == decode_utf8(bytes@),
        r@ == lossy_text(bytes@),
{
    String::from_utf8_lossy(bytes).into_owned()
}

/// The replacement character U+FFFD.
pub open spec fn replacement() -> char {
    '\u{FFFD}'
}

/// UTF-16 decoding in which each unpaired surrogate becomes U+FFFD, as
/// `char::decode_utf16` followed by replacement of its errors.
pub open spec fn utf16_lossy(units: Seq<u16>) -> Seq<char>
    decreases units.len(),
{
    if units.len() == 0 {
        seq![]
    } else {
        let u: u16 = units[0];
        if u < 0xD800 || u > 0xDFFF {
            seq![u as char] + utf16_lossy(units.drop_first())
        } else if u >= 0xDC00 || units.len() == 1 || !(0xDC00 <= units[1] <= 0xDFFF) {
            seq![replacement()] + utf16_lossy(units.drop_first())
        } else {
            seq![((0x10000 + (u - 0xD800) * 1024 + (units[1] - 0xDC00)) as u32) as char]
                + utf16_lossy(units.subrange(2, units.len() as int))
        }
    }
}

/// `String::from_utf16_lossy`, which std documents as UTF-16 decoding with
/// invalid data replaced by U+FFFD.
#[verifier::external_body]
pub(crate) fn utf16_lossy_string(units: &[u16]) -> (r: String)
    ensures
        r@ == utf16_lossy(units@),
{
    String::from_utf16_lossy(units)
}

/// The UTF-16 encoding of text: one unit below U+10000, a surrogate pair above.
pub open spec fn encode_utf16(text: Seq<char>) -> Seq<u16>
    decreases text.len(),
{
    if text.len() == 0 {
        seq![]
    } else {
        let c: u32 = text[0] as u32;
        let head = if c < 0x10000 {
            seq![c as u16]
        } else {
            seq![(0xD800 + (c - 0x10000) / 1024) as u16, (0xDC00 + (c - 0x10000) % 1024) as u16]
        };
        head + encode_utf16(text.drop_first())
    }
}

/// Text sent as its UTF-16 encoding is received unchanged: decoding with
/// replacement only replaces what a proper encoding never contains.
pub proof fn utf16_round_trip(text: Seq<char>)
    ensures
        utf16_lossy(encode_utf16(text)) == text,
    decreases text.len(),
{
    if text.len() > 0 {
        let c = text[0];
        let v: u32 = c as u32;
        let rest = text.drop_first();
        let units = encode_utf16(text);
        vstd::utf8::char_is_scalar(c);
        utf16_round_trip(rest);
        if v < 0x10000 {
            assert(units.drop_first() =~= encode_utf16(rest));
            vstd::utf8::char_u32_cast(c, v);
            assert(((v as u16) as u32) == v);
            assert(((v as u16) as char) == c) by {
                vstd::utf8::char_u32_cast(c, (v as u16) as u32);
            }
        } else {
            let hi: u16 = (0xD800 + (v - 0x10000) / 1024) as u16;
            let lo: u16 = (0xDC00 + (v - 0x10000) % 1024) as u16;
            assert(units[0] == hi && units[1] == lo);
            assert(units.subrange(2, units.len() as int) =~= encode_utf16(rest));
            assert((0x10000 + (hi - 0xD800) * 1024 + (lo - 0xDC00)) == v);
            vstd::utf8::char_u32_cast(c, v);
        }
    }
}

/// The characters that `char::is_whitespace` accepts (Unicode `White_Space`).
pub open spec fn is_white_space(c: char) -> bool {
    let v: u32 = c as u32;
    ||| 0x09 <= v <= 0x0D
    ||| v == 0x20
    ||| v == 0x85
    ||| v == 0xA0
    ||| v == 0x1680
    ||| 0x2000 <= v <= 0x200A
    ||| v == 0x2028
    ||| v == 0x2029
    ||| v == 0x202F
    ||| v == 0x205F
    ||| v == 0x3000
}

fn white_space(c: char) -> (r: bool)
    ensures
        r == is_white_space(c),
{
    let v: u32 = c as u32;
    (0x09 <= v && v <= 0x0D) || v == 0x20 || v == 0x85 || v == 0xA0 || v == 0x1680 || (0x2000
        <= v && v <= 0x200A) || v == 0x2028 || v == 0x2029 || v == 0x202F || v == 0x205F || v
        == 0x3000
}

/// The text without its leading white space.
pub open spec fn trim_start(s: Seq<char>) -> Seq<char>
    decreases s.len(),
{
    if s.len() > 0 && is_white_space(s[0]) {
        trim_start(s.drop_first())
    } else {
        s
    }
}

/// The text without its trailing white space.
pub open spec fn trim_end(s: Seq<char>) -> Seq<char>
    decreases s.len(),
{
    if s.len() > 0 && is_white_space(s.last()) {
        trim_end(s.drop_last())
    } else {
        s
    }
}

/// The text without leading and trailing white space, as `str::trim` gives it.
pub open spec fn trimmed(s: Seq<char>) -> Seq<char> {
    trim_end(trim_start(s))
}

/// `str::trim`: drops leading and trailing white space.
pub fn trim(s: &str) -> (r: &str)
    ensures
        r@ == trimmed(s@),
{
    let n: usize = s.unicode_len();
    let mut start: usize = 0;
    assert(s@.subrange(0, n as int) =~= s@);
    while start < n && white_space(s.get_char(start))
        invariant
            n == s@.len(),
            start <= n,
            trim_start(s@) == trim_start(s@.subrange(start as int, n as int)),
        decreases n - start,
    {
        assert(s@.subrange(start as int, n as int).drop_first() =~= s@.subrange(
            start as int + 1,
            n as int,
        ));
        start = start + 1;
    }
    assert(trim_start(s@) == s@.subrange(start as int, n as int)) by {
        if start < n {
            assert(s@.subrange(start as int, n as int)[0] == s@[start as int]);
        }
    }
    let mut end: usize = n;
    while end > start && white_space(s.get_char(end - 1))
        invariant
            n == s@.len(),
            start <= end <= n,
            trimmed(s@) == trim_end(s@.subrange(start as int, end as int)),
        decreases end - start,
    {
        assert(s@.subrange(start as int, end as int).drop_last() =~= s@.subrange(
            start as int,
            end as int - 1,
        ));
        end = end - 1;
    }
    assert(trimmed(s@) == s@.subrange(start as int, end as int)) by {
        if end > start {
            assert(s@.subrange(start as int, end as int).last() == s@[end as int - 1]);
        }
    }
    s.substring_char(start, end)
}

/// The byte-order mark U+FEFF.
pub open spec fn bom() -> char {
    '\u{FEFF}'
}

/// The text without one leading byte-order mark, if it starts with one.
pub open spec fn without_bom(s: Seq<char>) -> Seq<char> {
    if s.len() > 0 && s[0] == bom() {
        s.drop_first()
    } else {
        s
    }
}

/// `strip_prefix('\u{feff}')`, keeping the text when it has no such prefix.
pub fn strip_bom(s: &str) -> (r: &str)
    ensures
        r@ == without_bom(s@),
{
    let n: usize = s.unicode_len();
    if n > 0 && s.get_char(0) == '\u{FEFF}' {
        let rest = s.substring_char(1, n);
        assert(rest@ =~= s@.drop_first());
        rest
    } else {
        s
    }
}

/// The UTF-8 bytes of UTF-16 text decoded with replacement (the host's `encode`).
pub fn encode_units(units: &[u16]) -> (r: Vec<u8>)
    ensures
        r@ == encode_utf8(utf16_lossy(units@)),
{
    let text = utf16_lossy_string(units);
    vstd::slice::slice_to_vec(text.as_str().as_bytes())
}

/// The text the host's `decode` gives for `bytes`: strict UTF-8 when `fatal`
/// (failing on invalid input), replacement decoding otherwise; a leading
/// byte-order mark is dropped unless `ignore_bom`.
pub open spec fn decoded(bytes: Seq<u8>, fatal: bool, ignore_bom: bool) -> Seq<char> {
    let text = if fatal {
        decode_utf8(bytes)
    } else {
        lossy_text(bytes)
    };
    if ignore_bom {
        text
    } else {
        without_bom(text)
    }
}

/// The host's `decode`: bytes to text.
pub fn decode_bytes(bytes: Vec<u8>, fatal: bool, ignore_bom: bool) -> (r: Result<String, String>)
    ensures
        r is Err <==> (fatal && !valid_utf8(bytes@)),
        r matches Ok(s) ==> s@ == decoded(bytes@, fatal, ignore_bom),
        r matches Err(m) ==> m@ == utf8_error_message(bytes@),
        valid_utf8(bytes@) ==> (r matches Ok(s) && s@ == (if ignore_bom {
            decode_utf8(bytes@)
        } else {
            without_bom(decode_utf8(bytes@))
        })),
{
    let text = if fatal {
        match utf8_string(bytes) {
            Ok(s) => s,
            Err(m) => {
                return Err(m);
            },
        }
    } else {
        utf8_lossy_string(bytes.as_slice())
    };
    if ignore_bom {
        Ok(text)
    } else {
        let kept = strip_bom(text.as_str());
        Ok(String::from_str(kept))
    }
}

/// Strict decoding undoes encoding: the UTF-8 bytes of any text are valid and
/// decode back to that text when the byte-order mark is kept. (With replacement
/// the same holds, as `decode_bytes` states for valid input.)
pub proof fn decode_undoes_encode(text: Seq<char>)
    ensures
        valid_utf8(encode_utf8(text)),
        decoded(encode_utf8(text), true, true) == text,
{
    vstd::utf8::encode_utf8_valid_utf8(text);
    vstd::utf8::encode_utf8_decode_utf8(text);
}

proof fn trim_start_head(s: Seq<char>)
    ensures
        trim_start(s).len() > 0 ==> !is_white_space(trim_start(s)[0]),
    decreases s.len(),
{
    if s.len() > 0 && is_white_space(s[0]) {
        trim_start_head(s.drop_first());
    }
}

proof fn trim_end_prefix(x: Seq<char>)
    ensures
        trim_end(x).len() <= x.len(),
        trim_end(x) == x.subrange(0, trim_end(x).len() as int),
        trim_end(x).len() > 0 ==> !is_white_space(trim_end(x).last()),
        (x.len() > 0 && !is_white_space(x[0])) ==> trim_end(x).len() > 0,
    decreases x.len(),
{
    if x.len() > 0 && is_white_space(x.last()) {
        trim_end_prefix(x.drop_last());
        let t = trim_end(x.drop_last());
        assert(t == x.drop_last().subrange(0, t.len() as int));
        assert(x.drop_last().subrange(0, t.len() as int) =~= x.subrange(0, t.len() as int));
        if x.len() > 0 && !is_white_space(x[0]) {
            assert(x.len() > 1);
            assert(x.drop_last()[0] == x[0]);
        }
    } else {
        assert(x.subrange(0, x.len() as int) =~= x);
    }
}

/// Trimming twice is trimming once.
pub proof fn trim_is_idempotent(s: Seq<char>)
    ensures
        trimmed(trimmed(s)) == trimmed(s),
{
    let a = trim_start(s);
    let t = trim_end(a);
    trim_start_head(s);
    trim_end_prefix(a);
    if t.len() > 0 {
        assert(t[0] == a[0]);
        assert(trim_start(t) == t);
        assert(trim_end(t) == t);
    } else {
        assert(trim_start(t) == t);
    }
}

proof fn trim_start_suffix(s: Seq<char>)
    ensures
        trim_start(s).len() <= s.len(),
        trim_start(s) == s.subrange(s.len() - trim_start(s).len(), s.len() as int),
        forall|k: int|
            0 <= k < s.len() - trim_start(s).len() ==> is_white_space(#[trigger] s[k]),
    decreases s.len(),
{
    if s.len() > 0 && is_white_space(s[0]) {
        let d = s.drop_first();
        trim_start_suffix(d);
        let t = trim_start(d);
        assert(d.subrange(d.len() - t.len(), d.len() as int) =~= s.subrange(
            s.len() - t.len(),
            s.len() as int,
        ));
        assert forall|k: int| 0 <= k < s.len() - t.len() implies is_white_space(
            #[trigger] s[k],
        ) by {
            if k > 0 {
                assert(s[k] == d[k - 1]);
            }
        }
    } else {
        assert(s.subrange(0, s.len() as int) =~= s);
    }
}

proof fn trim_end_rest(x: Seq<char>)
    ensures
        forall|k: int| trim_end(x).len() <= k < x.len() ==> is_white_space(#[trigger] x[k]),
    decreases x.len(),
{
    if x.len() > 0 && is_white_space(x.last()) {
        trim_end_rest(x.drop_last());
        assert forall|k: int| trim_end(x).len() <= k < x.len() implies is_white_space(
            #[trigger] x[k],
        ) by {
            if k < x.len() - 1 {
                assert(x[k] == x.drop_last()[k]);
            }
        }
    }
}

/// Trimming cuts white space off both ends and nothing else: the result is a
/// stretch of the text, everything before and after it is white space, and it
/// neither starts nor ends with white space.
pub proof fn trim_cuts_only_outer_white_space(s: Seq<char>)
    ensures
        exists|i: int, j: int|
            0 <= i <= j <= s.len() && trimmed(s) == s.subrange(i, j) && (forall|k: int|
                0 <= k < i ==> is_white_space(#[trigger] s[k])) && (forall|k: int|
                j <= k < s.len() ==> is_white_space(#[trigger] s[k])),
        trimmed(s).len() > 0 ==> !is_white_space(trimmed(s)[0]) && !is_white_space(
            trimmed(s).last(),
        ),
{
    let a = trim_start(s);
    let t = trim_end(a);
    trim_start_suffix(s);
    trim_start_head(s);
    trim_end_prefix(a);
    trim_end_rest(a);
    let i = s.len() - a.len();
    let j = i + t.len();
    assert(t =~= s.subrange(i, j));
    assert forall|k: int| j <= k < s.len() implies is_white_space(#[trigger] s[k]) by {
        assert(s[k] == a[k - i]);
    }
    if t.len() > 0 {
        assert(t[0] == a[0]);
    }
    assert(exists|i: int, j: int|
        0 <= i <= j <= s.len() && trimmed(s) == s.subrange(i, j) && (forall|k: int|
            0 <= k < i ==> is_white_space(#[trigger] s[k])) && (forall|k: int|
            j <= k < s.len() ==> is_white_space(#[trigger] s[k])));
}

} // verus!
