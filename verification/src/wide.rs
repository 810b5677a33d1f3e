//! Wide-string codec: a length-prefixed sequence of 16-bit big-endian code
//! units, decoded as UTF-16 with the replacement character standing in for
//! any unpaired surrogate, and encoded from the host text's code points.
//!
//! Decoding never fails on malformed text, only on input too short to hold
//! the announced number of code units.

use vstd::prelude::*;
use vstd::string::StrSliceExecFns;
use vstd::utf8::is_scalar;

verus! {

broadcast use vstd::utf8::char_is_scalar, vstd::utf8::char_u32_cast;

/// Why a wide-string decode failed: the input ended before the announced
/// number of code units (or before the length prefix itself).
#[derive(Debug, Clone, Copy, PartialEq, Eq, Structural)]
pub enum WideStringError {
    Eof,
}

/// True of the first unit of a surrogate pair.
pub open spec fn is_high_surrogate(u: u16) -> bool {
    0xD800 <= u <= 0xDBFF
}

/// True of the second unit of a surrogate pair.
pub open spec fn is_low_surrogate(u: u16) -> bool {
    0xDC00 <= u <= 0xDFFF
}

/// The UTF-16 code units of one character: itself for the basic plane,
/// a surrogate pair above it.
pub open spec fn utf16_units_of_char(c: char) -> Seq<u16> {
    let u = c as u32;
    if u < 0x10000 {
        seq![u as u16]
    } else {
        seq![
            (0xD800 + (u - 0x10000) / 0x400) as u16,
            (0xDC00 + (u - 0x10000) % 0x400) as u16,
        ]
    }
}

/// The UTF-16 code units of a character sequence.
pub open spec fn utf16_units(s: Seq<char>) -> Seq<u16>
    decreases s.len(),
{
    if s.len() == 0 {
        Seq::empty()
    } else {
        utf16_units_of_char(s[0]) + utf16_units(s.drop_first())
    }
}

/// The character named by a surrogate pair.
pub open spec fn combined_surrogates(hi: u16, lo: u16) -> char
    recommends
        is_high_surrogate(hi),
        is_low_surrogate(lo),
{
    ((0x10000 + (hi - 0xD800) * 0x400 + (lo - 0xDC00)) as u32) as char
}

/// UTF-16 decoding with replacement: a non-surrogate unit is its own
/// character, a high surrogate followed by a low one names a supplementary
/// character, and any unpaired surrogate becomes U+FFFD.
pub open spec fn utf16_lossy(units: Seq<u16>) -> Seq<char>
    decreases units.len(),
{
    if units.len() == 0 {
        Seq::empty()
    } else {
        let u = units[0];
        if !is_high_surrogate(u) && !is_low_surrogate(u) {
            seq![(u as u32) as char] + utf16_lossy(units.drop_first())
        } else if is_high_surrogate(u) && units.len() >= 2 && is_low_surrogate(units[1]) {
            seq![combined_surrogates(u, units[1])] + utf16_lossy(units.skip(2))
        } else {
            seq!['\u{FFFD}'] + utf16_lossy(units.drop_first())
        }
    }
}

/// The 16-bit value held by two big-endian bytes.
pub open spec fn u16_from_be_pair(hi: u8, lo: u8) -> u16 {
    (hi * 0x100 + lo) as u16
}

/// The two big-endian bytes of a 16-bit value.
pub open spec fn u16_be_bytes(u: u16) -> Seq<u8> {
    seq![(u / 0x100) as u8, (u % 0x100) as u8]
}

/// The 16-bit values held by a byte sequence read in big-endian pairs.
pub open spec fn units_of_bytes(bytes: Seq<u8>) -> Seq<u16>
    decreases bytes.len(),
{
    if bytes.len() < 2 {
        Seq::empty()
    } else {
        seq![u16_from_be_pair(bytes[0], bytes[1])] + units_of_bytes(bytes.skip(2))
    }
}

/// The big-endian bytes of a sequence of 16-bit values.
pub open spec fn bytes_of_units(units: Seq<u16>) -> Seq<u8>
    decreases units.len(),
{
    if units.len() == 0 {
        Seq::empty()
    } else {
        u16_be_bytes(units[0]) + bytes_of_units(units.drop_first())
    }
}

/// The wire form of a wide string: the unit count as a 16-bit big-endian
/// length, then each unit big-endian.
pub open spec fn wide_string_bytes(s: Seq<char>) -> Seq<u8>
    recommends
        utf16_units(s).len() <= 0xFFFF,
{
    u16_be_bytes(utf16_units(s).len() as u16) + bytes_of_units(utf16_units(s))
}

/// What decoding a wide string from the front of `bytes` yields: the decoded
/// text and the bytes consumed, or nothing when the input is too short.
pub open spec fn wide_string_dec(bytes: Seq<u8>) -> Option<(Seq<char>, nat)> {
    if bytes.len() < 2 {
        None
    } else {
        let n = u16_from_be_pair(bytes[0], bytes[1]) as int;
        if bytes.len() < 2 + 2 * n {
            None
        } else {
            Some(
                (utf16_lossy(units_of_bytes(bytes.subrange(2, 2 + 2 * n))), (2 + 2 * n) as nat),
            )
        }
    }
}

/// Relies on char::from_u32: Some of the character with that code point for
/// every Unicode scalar value, None for surrogates and values past 0x10FFFF.
pub assume_specification[ char::from_u32 ](u: u32) -> (r: Option<char>)
    ensures
        is_scalar(u) ==> r == Some(u as char),
        !is_scalar(u) ==> r is None,
;

/// Relies on String's FromIterator over characters: collecting yields a
/// string of exactly those characters.
#[verifier::external_body]
pub(crate) fn string_from_chars(cs: &Vec<char>) -> (r: String)
    ensures
        r@ == cs@,
{
    cs.iter().collect()
}

/// The characters of a string slice, in order.
pub fn str_chars(s: &str) -> (r: Vec<char>)
    ensures
        r@ == s@,
{
    let n = s.unicode_len();
    let mut out: Vec<char> = Vec::new();
    let mut i: usize = 0;
    while i < n
        invariant
            n == s@.len(),
            i <= n,
            out@ == s@.take(i as int),
        decreases n - i,
    {
        let c = s.get_char(i);
        out.push(c);
        proof {
            assert(s@.take(i as int + 1) =~= s@.take(i as int).push(s@[i as int]));
        }
        i = i + 1;
    }
    proof {
        assert(s@.take(n as int) =~= s@);
    }
    out
}

/// The 16-bit value held by two big-endian bytes.
pub fn u16_from_be(hi: u8, lo: u8) -> (r: u16)
    ensures
        r == u16_from_be_pair(hi, lo),
{
    (hi as u16) * 0x100 + (lo as u16)
}

/// The UTF-16 code units of the given characters.
pub fn encode_utf16_units(chars: &Vec<char>) -> (r: Vec<u16>)
    ensures
        r@ == utf16_units(chars@),
{
    let mut out: Vec<u16> = Vec::new();
    let mut i: usize = 0;
    proof {
        assert(chars@.skip(0) =~= chars@);
    }
    while i < chars.len()
        invariant
            i <= chars@.len(),
            utf16_units(chars@) == out@ + utf16_units(chars@.skip(i as int)),
        decreases chars@.len() - i,
    {
        let c = chars[i];
        let u = c as u32;
        proof {
            vstd::utf8::char_is_scalar(c);
            assert(chars@.skip(i as int)[0] == chars@[i as int]);
            assert(chars@.skip(i as int).drop_first() =~= chars@.skip(i as int + 1));
        }
        if u < 0x10000 {
            out.push(u as u16);
        } else {
            let v = u - 0x10000;
            out.push(0xD800 + (v / 0x400) as u16);
            out.push(0xDC00 + (v % 0x400) as u16);
        }
        proof {
            assert(utf16_units(chars@) =~= out@ + utf16_units(chars@.skip(i as int + 1)));
        }
        i = i + 1;
    }
    proof {
        assert(utf16_units(chars@) =~= out@);
    }
    out
}

/// The characters read from UTF-16 code units, with U+FFFD for any unpaired
/// surrogate.
pub fn decode_utf16_units(units: &Vec<u16>) -> (r: Vec<char>)
    ensures
        r@ == utf16_lossy(units@),
{
    let mut out: Vec<char> = Vec::new();
    let mut i: usize = 0;
    proof {
        assert(units@.skip(0) =~= units@);
    }
    while i < units.len()
        invariant
            i <= units@.len(),
            utf16_lossy(units@) == out@ + utf16_lossy(units@.skip(i as int)),
        decreases units@.len() - i,
    {
        let u = units[i];
        proof {
            assert(units@.skip(i as int)[0] == units@[i as int]);
            assert(units@.skip(i as int).drop_first() =~= units@.skip(i as int + 1));
        }
        if u < 0xD800 || u >= 0xE000 {
            let c = char::from_u32(u as u32).unwrap();
            out.push(c);
            proof {
                assert(utf16_lossy(units@) =~= out@ + utf16_lossy(units@.skip(i as int + 1)));
            }
            i = i + 1;
        } else if u < 0xDC00 && i + 1 < units.len() && units[i + 1] >= 0xDC00 && units[i + 1]
            < 0xE000 {
            let lo = units[i + 1];
            let v: u32 = 0x10000 + (u as u32 - 0xD800) * 0x400 + (lo as u32 - 0xDC00);
            let c = char::from_u32(v).unwrap();
            out.push(c);
            proof {
                assert(units@.skip(i as int)[1] == units@[i as int + 1]);
                assert(units@.skip(i as int).skip(2) =~= units@.skip(i as int + 2));
                assert(utf16_lossy(units@) =~= out@ + utf16_lossy(units@.skip(i as int + 2)));
            }
            i = i + 2;
        } else {
            out.push('\u{FFFD}');
            proof {
                assert(utf16_lossy(units@) =~= out@ + utf16_lossy(units@.skip(i as int + 1)));
            }
            i = i + 1;
        }
    }
    proof {
        assert(utf16_lossy(units@) =~= out@);
    }
    out
}

/// The big-endian bytes of the given 16-bit values.
pub fn units_to_bytes(units: &Vec<u16>) -> (r: Vec<u8>)
    ensures
        r@ == bytes_of_units(units@),
{
    let mut out: Vec<u8> = Vec::new();
    let mut i: usize = 0;
    proof {
        assert(units@.skip(0) =~= units@);
    }
    while i < units.len()
        invariant
            i <= units@.len(),
            bytes_of_units(units@) == out@ + bytes_of_units(units@.skip(i as int)),
        decreases units@.len() - i,
    {
        let u = units[i];
        proof {
            assert(units@.skip(i as int)[0] == units@[i as int]);
            assert(units@.skip(i as int).drop_first() =~= units@.skip(i as int + 1));
        }
        out.push((u / 0x100) as u8);
        out.push((u % 0x100) as u8);
        proof {
            assert(bytes_of_units(units@) =~= out@ + bytes_of_units(units@.skip(i as int + 1)));
        }
        i = i + 1;
    }
    proof {
        assert(bytes_of_units(units@) =~= out@);
    }
    out
}

/// The 16-bit values held by a byte slice read in big-endian pairs.
pub fn bytes_to_units(bytes: &[u8]) -> (r: Vec<u16>)
    requires
        bytes@.len() % 2 == 0,
    ensures
        r@ == units_of_bytes(bytes@),
{
    let mut out: Vec<u16> = Vec::new();
    let mut i: usize = 0;
    proof {
        assert(bytes@.skip(0) =~= bytes@);
    }
    while i + 1 < bytes.len()
        invariant
            i <= bytes@.len(),
            i % 2 == 0,
            bytes@.len() % 2 == 0,
            units_of_bytes(bytes@) == out@ + units_of_bytes(bytes@.skip(i as int)),
        decreases bytes@.len() - i,
    {
        let u = u16_from_be(bytes[i], bytes[i + 1]);
        out.push(u);
        proof {
            assert(bytes@.skip(i as int)[0] == bytes@[i as int]);
            assert(bytes@.skip(i as int)[1] == bytes@[i as int + 1]);
            assert(bytes@.skip(i as int).skip(2) =~= bytes@.skip(i as int + 2));
            assert(units_of_bytes(bytes@) =~= out@ + units_of_bytes(bytes@.skip(i as int + 2)));
        }
        i = i + 2;
    }
    proof {
        assert(units_of_bytes(bytes@) =~= out@);
    }
    out
}

/// Encode `s` as a wide string: the UTF-16 unit count as a big-endian 16-bit
/// length, then each unit big-endian. The unit count must fit in 16 bits;
/// longer input is the caller's error.
pub fn encode_utf16_string(s: &str) -> (r: Vec<u8>)
    requires
        utf16_units(s@).len() <= 0xFFFF,
    ensures
        r@ == wide_string_bytes(s@),
{
    let chars = str_chars(s);
    let units = encode_utf16_units(&chars);
    let n = units.len() as u16;
    let mut out: Vec<u8> = Vec::new();
    out.push((n / 0x100) as u8);
    out.push((n % 0x100) as u8);
    let mut body = units_to_bytes(&units);
    out.append(&mut body);
    proof {
        assert(out@ =~= wide_string_bytes(s@));
    }
    out
}

/// Decode a wide string from the front of `bytes`: a big-endian 16-bit unit
/// count, then that many big-endian units, decoded as UTF-16 with
/// replacement. Returns the text and the bytes consumed; fails only when the
/// input ends before the announced length.
pub fn decode_utf16_string(bytes: &[u8]) -> (r: Result<(String, usize), WideStringError>)
    ensures
        match r {
            Ok((s, used)) => wide_string_dec(bytes@) == Some((s@, used as nat)),
            Err(WideStringError::Eof) => wide_string_dec(bytes@) is None,
        },
{
    if bytes.len() < 2 {
        return Err(WideStringError::Eof);
    }
    let b0 = *vstd::slice::slice_index_get(bytes, 0);
    let b1 = *vstd::slice::slice_index_get(bytes, 1);
    let n = u16_from_be(b0, b1) as usize;
    if bytes.len() < 2 + 2 * n {
        return Err(WideStringError::Eof);
    }
    let body = vstd::slice::slice_subrange(bytes, 2, 2 + 2 * n);
    let units = bytes_to_units(body);
    let chars = decode_utf16_units(&units);
    let s = string_from_chars(&chars);
    Ok((s, 2 + 2 * n))
}

proof fn lemma_lossy_of_units_bmp(s: Seq<char>)
    requires
        forall|i: int| 0 <= i < s.len() ==> (s[i] as u32) < 0x10000,
    ensures
        utf16_units(s).len() == s.len(),
        utf16_lossy(utf16_units(s)) == s,
    decreases s.len(),
{
    if s.len() > 0 {
        let c = s[0];
        vstd::utf8::char_is_scalar(c);
        let u = (c as u32) as u16;
        let rest = utf16_units(s.drop_first());
        lemma_lossy_of_units_bmp(s.drop_first());
        assert(utf16_units(s) =~= seq![u] + rest);
        assert((seq![u] + rest).drop_first() =~= rest);
        assert(!is_high_surrogate(u) && !is_low_surrogate(u));
        vstd::utf8::char_u32_cast(c, c as u32);
        assert(utf16_lossy(utf16_units(s)) =~= s);
    }
}

proof fn lemma_units_bytes_round_trip(units: Seq<u16>)
    ensures
        bytes_of_units(units).len() == 2 * units.len(),
        units_of_bytes(bytes_of_units(units)) == units,
    decreases units.len(),
{
    if units.len() > 0 {
        let u = units[0];
        let hi = (u / 0x100) as u8;
        let lo = (u % 0x100) as u8;
        let rest = bytes_of_units(units.drop_first());
        lemma_units_bytes_round_trip(units.drop_first());
        assert(bytes_of_units(units) =~= seq![hi, lo] + rest);
        assert((seq![hi, lo] + rest).skip(2) =~= rest);
        assert(u16_from_be_pair(hi, lo) == u);
        assert(units_of_bytes(bytes_of_units(units)) =~= units);
    }
}

/// Round trip: a string whose characters all lie in the basic plane (no
/// surrogate pair needed) and number at most 0xFFFF survives wide-string
/// encoding and decoding unchanged, consuming the whole encoding.
pub proof fn lemma_wide_string_round_trip(s: Seq<char>)
    requires
        s.len() <= 0xFFFF,
        forall|i: int| 0 <= i < s.len() ==> (s[i] as u32) < 0x10000,
    ensures
        utf16_units(s).len() <= 0xFFFF,
        wide_string_dec(wide_string_bytes(s)) == Some(
            (s, wide_string_bytes(s).len() as nat),
        ),
{
    let units = utf16_units(s);
    lemma_lossy_of_units_bmp(s);
    lemma_units_bytes_round_trip(units);
    let bytes = wide_string_bytes(s);
    let n = s.len() as int;
    assert(bytes[0] == (s.len() as u16 / 0x100) as u8);
    assert(bytes[1] == (s.len() as u16 % 0x100) as u8);
    assert(u16_from_be_pair(bytes[0], bytes[1]) == s.len() as u16);
    assert(bytes.len() == 2 + 2 * n);
    assert(bytes.subrange(2, 2 + 2 * n) =~= bytes_of_units(units));
}

} // verus!
