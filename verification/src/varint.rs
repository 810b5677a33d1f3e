//! Variable-length integer codec: 7 data bits per byte, little-endian chunk
//! order, with the high bit of each byte marking that more bytes follow.
//!
//! The 32-bit decoder reads at most 5 bytes and the 64-bit decoder at most 10;
//! an unterminated run of that length is an explicit error, never a silent
//! wrap. Values are treated as their unsigned two's-complement bit patterns,
//! so negative numbers encode over the full width.

use vstd::prelude::*;

verus! {

/// Why a varint decode failed: the input ended before a terminating byte
/// (`Eof`), or the maximum chunk count was exhausted (`TooBig`).
#[derive(Debug, Clone, Copy, PartialEq, Eq, Structural)]
pub enum VarIntError {
    Eof,
    TooBig,
}

/// True when a varint byte announces that more bytes follow.
pub open spec fn has_cont_bit(b: u8) -> bool {
    b >= 0x80
}

/// The unsigned bit pattern of a signed 32-bit value.
pub open spec fn u32_of_i32(v: i32) -> u32 {
    if v >= 0 {
        v as u32
    } else {
        (v + 0x1_0000_0000) as u32
    }
}

/// The signed 32-bit value with the given unsigned bit pattern.
pub open spec fn i32_of_u32(u: u32) -> i32 {
    if u < 0x8000_0000 {
        u as i32
    } else {
        (u - 0x1_0000_0000) as i32
    }
}

/// The unsigned bit pattern of a signed 64-bit value.
pub open spec fn u64_of_i64(v: i64) -> u64 {
    if v >= 0 {
        v as u64
    } else {
        (v + 0x1_0000_0000_0000_0000) as u64
    }
}

/// The signed 64-bit value with the given unsigned bit pattern.
pub open spec fn i64_of_u64(u: u64) -> i64 {
    if u < 0x8000_0000_0000_0000 {
        u as i64
    } else {
        (u - 0x1_0000_0000_0000_0000) as i64
    }
}

/// The varint encoding of a 32-bit bit pattern: the low 7 bits of the value,
/// then the encoding of the remaining bits, with the continuation bit set on
/// every byte but the last.
pub open spec fn var_u32_bytes(x: u32) -> Seq<u8>
    decreases x,
{
    if x < 0x80 {
        seq![x as u8]
    } else {
        proof {
            assert(x >= 0x80 ==> (x >> 7) < x) by (bit_vector);
        }
        seq![((x & 0x7f) | 0x80) as u8] + var_u32_bytes(x >> 7)
    }
}

/// The varint encoding of a 64-bit bit pattern.
pub open spec fn var_u64_bytes(x: u64) -> Seq<u8>
    decreases x,
{
    if x < 0x80 {
        seq![x as u8]
    } else {
        proof {
            assert(x >= 0x80 ==> (x >> 7) < x) by (bit_vector);
        }
        seq![((x & 0x7f) | 0x80) as u8] + var_u64_bytes(x >> 7)
    }
}

/// Outcome of decoding a 32-bit varint from a byte sequence.
pub enum VarDec32 {
    /// The input ended before a byte without the continuation bit.
    Eof,
    /// The first 5 bytes all carry the continuation bit.
    TooBig,
    /// The decoded bit pattern, and how many bytes it occupied.
    Done(u32, nat),
}

/// Outcome of decoding a 64-bit varint from a byte sequence.
pub enum VarDec64 {
    Eof,
    TooBig,
    Done(u64, nat),
}

/// Decode a 32-bit varint from the front of `bytes`, reading at most `budget`
/// more bytes. Chunk `i` lands at bits `7*i..7*i+7`, truncated to 32 bits.
pub open spec fn var_u32_dec(bytes: Seq<u8>, budget: nat) -> VarDec32
    decreases budget,
{
    if budget == 0 {
        VarDec32::TooBig
    } else if bytes.len() == 0 {
        VarDec32::Eof
    } else if !has_cont_bit(bytes[0]) {
        VarDec32::Done((bytes[0] & 0x7f) as u32, 1)
    } else {
        match var_u32_dec(bytes.drop_first(), (budget - 1) as nat) {
            VarDec32::Done(v, n) => VarDec32::Done(((bytes[0] & 0x7f) as u32) | (v << 7), n + 1),
            e => e,
        }
    }
}

/// Decode a 64-bit varint from the front of `bytes` with a chunk budget.
pub open spec fn var_u64_dec(bytes: Seq<u8>, budget: nat) -> VarDec64
    decreases budget,
{
    if budget == 0 {
        VarDec64::TooBig
    } else if bytes.len() == 0 {
        VarDec64::Eof
    } else if !has_cont_bit(bytes[0]) {
        VarDec64::Done((bytes[0] & 0x7f) as u64, 1)
    } else {
        match var_u64_dec(bytes.drop_first(), (budget - 1) as nat) {
            VarDec64::Done(v, n) => VarDec64::Done(((bytes[0] & 0x7f) as u64) | (v << 7), n + 1),
            e => e,
        }
    }
}

/// What `decode_var_i32` computes on a byte sequence: a 32-bit varint read
/// with a 5-byte limit.
pub open spec fn decode_var_i32_spec(bytes: Seq<u8>) -> VarDec32 {
    var_u32_dec(bytes, 5)
}

/// What `decode_var_i64` computes on a byte sequence: a 64-bit varint read
/// with a 10-byte limit.
pub open spec fn decode_var_i64_spec(bytes: Seq<u8>) -> VarDec64 {
    var_u64_dec(bytes, 10)
}

/// Encode a signed 32-bit integer as a varint over its two's-complement
/// bit pattern.
pub fn encode_var_i32(value: i32) -> (r: Vec<u8>)
    ensures
        r@ == var_u32_bytes(u32_of_i32(value)),
{
    let temp: u32 = #[verifier::truncate] (value as u32);
    proof {
        assert(value >= 0 ==> value as u32 == value) by (bit_vector);
        assert(value < 0 ==> value as u32 == value + 0x1_0000_0000) by (bit_vector);
    }
    let ghost orig: u32 = temp;
    let mut x: u32 = temp;
    let mut out: Vec<u8> = Vec::new();
    loop
        invariant
            orig == u32_of_i32(value),
            var_u32_bytes(orig) == out@ + var_u32_bytes(x),
        decreases x,
    {
        if x < 0x80 {
            out.push(x as u8);
            proof {
                assert(var_u32_bytes(orig) =~= out@);
            }
            return out;
        } else {
            proof {
                assert(((x & 0x7f) | 0x80) < 0x100) by (bit_vector);
                assert(x >= 0x80 ==> (x >> 7) < x) by (bit_vector);
            }
            out.push(((x & 0x7f) | 0x80) as u8);
            proof {
                assert(var_u32_bytes(orig) =~= out@ + var_u32_bytes(x >> 7));
            }
            x = x >> 7;
        }
    }
}

/// Encode a signed 64-bit integer as a varint over its two's-complement
/// bit pattern.
pub fn encode_var_i64(value: i64) -> (r: Vec<u8>)
    ensures
        r@ == var_u64_bytes(u64_of_i64(value)),
{
    let temp: u64 = #[verifier::truncate] (value as u64);
    proof {
        assert(value >= 0 ==> value as u64 == value) by (bit_vector);
        assert(value < 0 ==> value as u64 == value + 0x1_0000_0000_0000_0000) by (bit_vector);
    }
    let ghost orig: u64 = temp;
    let mut x: u64 = temp;
    let mut out: Vec<u8> = Vec::new();
    loop
        invariant
            orig == u64_of_i64(value),
            var_u64_bytes(orig) == out@ + var_u64_bytes(x),
        decreases x,
    {
        if x < 0x80 {
            out.push(x as u8);
            proof {
                assert(var_u64_bytes(orig) =~= out@);
            }
            return out;
        } else {
            proof {
                assert(((x & 0x7f) | 0x80) < 0x100) by (bit_vector);
                assert(x >= 0x80 ==> (x >> 7) < x) by (bit_vector);
            }
            out.push(((x & 0x7f) | 0x80) as u8);
            proof {
                assert(var_u64_bytes(orig) =~= out@ + var_u64_bytes(x >> 7));
            }
            x = x >> 7;
        }
    }
}

fn decode32_rec(bytes: &[u8], budget: usize) -> (r: Result<(u32, usize), VarIntError>)
    requires
        budget <= 5,
    ensures
        match r {
            Ok((v, n)) => var_u32_dec(bytes@, budget as nat) == VarDec32::Done(v, n as nat)
                && 1 <= n <= budget,
            Err(VarIntError::Eof) => var_u32_dec(bytes@, budget as nat) == VarDec32::Eof,
            Err(VarIntError::TooBig) => var_u32_dec(bytes@, budget as nat) == VarDec32::TooBig,
        },
    decreases budget,
{
    if budget == 0 {
        return Err(VarIntError::TooBig);
    }
    if bytes.len() == 0 {
        return Err(VarIntError::Eof);
    }
    let b = bytes[0];
    if b < 0x80 {
        return Ok(((b & 0x7f) as u32, 1));
    }
    let rest = vstd::slice::slice_subrange(bytes, 1, bytes.len());
    proof {
        assert(rest@ =~= bytes@.drop_first());
    }
    match decode32_rec(rest, budget - 1) {
        Ok((v, n)) => Ok((((b & 0x7f) as u32) | (v << 7u32), n + 1)),
        Err(e) => Err(e),
    }
}

fn decode64_rec(bytes: &[u8], budget: usize) -> (r: Result<(u64, usize), VarIntError>)
    requires
        budget <= 10,
    ensures
        match r {
            Ok((v, n)) => var_u64_dec(bytes@, budget as nat) == VarDec64::Done(v, n as nat)
                && 1 <= n <= budget,
            Err(VarIntError::Eof) => var_u64_dec(bytes@, budget as nat) == VarDec64::Eof,
            Err(VarIntError::TooBig) => var_u64_dec(bytes@, budget as nat) == VarDec64::TooBig,
        },
    decreases budget,
{
    if budget == 0 {
        return Err(VarIntError::TooBig);
    }
    if bytes.len() == 0 {
        return Err(VarIntError::Eof);
    }
    let b = bytes[0];
    if b < 0x80 {
        return Ok(((b & 0x7f) as u64, 1));
    }
    let rest = vstd::slice::slice_subrange(bytes, 1, bytes.len());
    proof {
        assert(rest@ =~= bytes@.drop_first());
    }
    match decode64_rec(rest, budget - 1) {
        Ok((v, n)) => Ok((((b & 0x7f) as u64) | (v << 7u64), n + 1)),
        Err(e) => Err(e),
    }
}

/// Reinterpret an unsigned 32-bit bit pattern as a signed value.
fn i32_from_bits(u: u32) -> (r: i32)
    ensures
        r == i32_of_u32(u),
        u32_of_i32(r) == u,
{
    if u < 0x8000_0000 {
        u as i32
    } else {
        ((u - 0x8000_0000) as i32) + i32::MIN
    }
}

/// Reinterpret an unsigned 64-bit bit pattern as a signed value.
fn i64_from_bits(u: u64) -> (r: i64)
    ensures
        r == i64_of_u64(u),
        u64_of_i64(r) == u,
{
    if u < 0x8000_0000_0000_0000 {
        u as i64
    } else {
        ((u - 0x8000_0000_0000_0000) as i64) + i64::MIN
    }
}

/// Decode a signed 32-bit varint from the front of `bytes`: at most 5 bytes,
/// each contributing 7 bits, truncated to 32 bits exactly as a 32-bit left
/// shift would. Returns the value and how many bytes it occupied.
pub fn decode_var_i32(bytes: &[u8]) -> (r: Result<(i32, usize), VarIntError>)
    ensures
        match r {
            Ok((v, n)) => decode_var_i32_spec(bytes@) == VarDec32::Done(u32_of_i32(v), n as nat),
            Err(VarIntError::Eof) => decode_var_i32_spec(bytes@) == VarDec32::Eof,
            Err(VarIntError::TooBig) => decode_var_i32_spec(bytes@) == VarDec32::TooBig,
        },
{
    match decode32_rec(bytes, 5) {
        Ok((v, n)) => Ok((i32_from_bits(v), n)),
        Err(e) => Err(e),
    }
}

/// Decode a signed 64-bit varint from the front of `bytes`: at most 10 bytes.
pub fn decode_var_i64(bytes: &[u8]) -> (r: Result<(i64, usize), VarIntError>)
    ensures
        match r {
            Ok((v, n)) => decode_var_i64_spec(bytes@) == VarDec64::Done(u64_of_i64(v), n as nat),
            Err(VarIntError::Eof) => decode_var_i64_spec(bytes@) == VarDec64::Eof,
            Err(VarIntError::TooBig) => decode_var_i64_spec(bytes@) == VarDec64::TooBig,
        },
{
    match decode64_rec(bytes, 10) {
        Ok((v, n)) => Ok((i64_from_bits(v), n)),
        Err(e) => Err(e),
    }
}

/// Every 32-bit bit pattern encodes in 1 to 5 bytes.
pub proof fn lemma_var_u32_bytes_len(x: u32)
    ensures
        1 <= var_u32_bytes(x).len() <= 5,
{
    let x1 = x >> 7;
    let x2 = x1 >> 7;
    let x3 = x2 >> 7;
    let x4 = x3 >> 7;
    assert((((x >> 7) >> 7) >> 7) >> 7 < 0x80) by (bit_vector);
    assert(var_u32_bytes(x4).len() == 1);
    assert(var_u32_bytes(x3).len() <= 2);
    assert(var_u32_bytes(x2).len() <= 3);
    assert(var_u32_bytes(x1).len() <= 4);
    assert(var_u32_bytes(x).len() <= 5);
}

/// Every 64-bit bit pattern encodes in 1 to 10 bytes.
pub proof fn lemma_var_u64_bytes_len(x: u64)
    ensures
        1 <= var_u64_bytes(x).len() <= 10,
{
    let x1 = x >> 7;
    let x2 = x1 >> 7;
    let x3 = x2 >> 7;
    let x4 = x3 >> 7;
    let x5 = x4 >> 7;
    let x6 = x5 >> 7;
    let x7 = x6 >> 7;
    let x8 = x7 >> 7;
    let x9 = x8 >> 7;
    assert(((((((((((x >> 7) >> 7) >> 7) >> 7) >> 7) >> 7) >> 7) >> 7) >> 7)) < 0x80)
        by (bit_vector);
    assert(var_u64_bytes(x9).len() == 1);
    assert(var_u64_bytes(x8).len() <= 2);
    assert(var_u64_bytes(x7).len() <= 3);
    assert(var_u64_bytes(x6).len() <= 4);
    assert(var_u64_bytes(x5).len() <= 5);
    assert(var_u64_bytes(x4).len() <= 6);
    assert(var_u64_bytes(x3).len() <= 7);
    assert(var_u64_bytes(x2).len() <= 8);
    assert(var_u64_bytes(x1).len() <= 9);
    assert(var_u64_bytes(x).len() <= 10);
}

proof fn lemma_dec_enc_u32(x: u32, budget: nat)
    requires
        var_u32_bytes(x).len() <= budget,
    ensures
        var_u32_dec(var_u32_bytes(x), budget) == VarDec32::Done(x, var_u32_bytes(x).len()),
    decreases x,
{
    if x < 0x80 {
        assert(x < 0x80 ==> ((x as u8) & 0x7f) as u32 == x) by (bit_vector);
    } else {
        let b = ((x & 0x7f) | 0x80) as u8;
        assert(x >= 0x80 ==> ((x & 0x7f) | 0x80) >= 0x80 && ((x & 0x7f) | 0x80) < 0x100)
            by (bit_vector);
        let tail = var_u32_bytes(x >> 7);
        assert((seq![b] + tail).drop_first() =~= tail);
        assert(x >= 0x80 ==> (x >> 7) < x) by (bit_vector);
        lemma_dec_enc_u32(x >> 7, (budget - 1) as nat);
        assert(x >= 0x80 ==> (((((x & 0x7f) | 0x80) as u8) & 0x7f) as u32) | ((x >> 7) << 7) == x)
            by (bit_vector);
    }
}

proof fn lemma_dec_enc_u64(x: u64, budget: nat)
    requires
        var_u64_bytes(x).len() <= budget,
    ensures
        var_u64_dec(var_u64_bytes(x), budget) == VarDec64::Done(x, var_u64_bytes(x).len()),
    decreases x,
{
    if x < 0x80 {
        assert(x < 0x80 ==> ((x as u8) & 0x7f) as u64 == x) by (bit_vector);
    } else {
        let b = ((x & 0x7f) | 0x80) as u8;
        assert(x >= 0x80 ==> ((x & 0x7f) | 0x80) >= 0x80 && ((x & 0x7f) | 0x80) < 0x100)
            by (bit_vector);
        let tail = var_u64_bytes(x >> 7);
        assert((seq![b] + tail).drop_first() =~= tail);
        assert(x >= 0x80 ==> (x >> 7) < x) by (bit_vector);
        lemma_dec_enc_u64(x >> 7, (budget - 1) as nat);
        assert(x >= 0x80 ==> (((((x & 0x7f) | 0x80) as u8) & 0x7f) as u64) | ((x >> 7) << 7) == x)
            by (bit_vector);
    }
}

/// Round trip: decoding the encoding of any signed 32-bit integer yields that
/// integer's bit pattern back and consumes the whole encoding.
pub proof fn lemma_var_i32_round_trip(v: i32)
    ensures
        ({
            let enc = var_u32_bytes(u32_of_i32(v));
            decode_var_i32_spec(enc) == VarDec32::Done(u32_of_i32(v), enc.len())
        }),
        i32_of_u32(u32_of_i32(v)) == v,
{
    lemma_var_u32_bytes_len(u32_of_i32(v));
    lemma_dec_enc_u32(u32_of_i32(v), 5);
}

/// Round trip: decoding the encoding of any signed 64-bit integer yields that
/// integer's bit pattern back and consumes the whole encoding.
pub proof fn lemma_var_i64_round_trip(v: i64)
    ensures
        ({
            let enc = var_u64_bytes(u64_of_i64(v));
            decode_var_i64_spec(enc) == VarDec64::Done(u64_of_i64(v), enc.len())
        }),
        i64_of_u64(u64_of_i64(v)) == v,
{
    lemma_var_u64_bytes_len(u64_of_i64(v));
    lemma_dec_enc_u64(u64_of_i64(v), 10);
}

proof fn lemma_dec_all_cont_u32(bytes: Seq<u8>, budget: nat)
    requires
        bytes.len() >= budget,
        forall|i: int| 0 <= i < budget ==> has_cont_bit(bytes[i]),
    ensures
        var_u32_dec(bytes, budget) == VarDec32::TooBig,
    decreases budget,
{
    if budget > 0 {
        lemma_dec_all_cont_u32(bytes.drop_first(), (budget - 1) as nat);
    }
}

proof fn lemma_dec_all_cont_u64(bytes: Seq<u8>, budget: nat)
    requires
        bytes.len() >= budget,
        forall|i: int| 0 <= i < budget ==> has_cont_bit(bytes[i]),
    ensures
        var_u64_dec(bytes, budget) == VarDec64::TooBig,
    decreases budget,
{
    if budget > 0 {
        lemma_dec_all_cont_u64(bytes.drop_first(), (budget - 1) as nat);
    }
}

/// A 32-bit varint whose first 5 bytes all carry the continuation bit is
/// rejected as too large, whatever follows.
pub proof fn lemma_var_i32_unterminated(bytes: Seq<u8>)
    requires
        bytes.len() >= 5,
        forall|i: int| 0 <= i < 5 ==> has_cont_bit(bytes[i]),
    ensures
        decode_var_i32_spec(bytes) == VarDec32::TooBig,
{
    lemma_dec_all_cont_u32(bytes, 5);
}

/// A 64-bit varint whose first 10 bytes all carry the continuation bit is
/// rejected as too large, whatever follows.
pub proof fn lemma_var_i64_unterminated(bytes: Seq<u8>)
    requires
        bytes.len() >= 10,
        forall|i: int| 0 <= i < 10 ==> has_cont_bit(bytes[i]),
    ensures
        decode_var_i64_spec(bytes) == VarDec64::TooBig,
{
    lemma_dec_all_cont_u64(bytes, 10);
}

} // verus!
