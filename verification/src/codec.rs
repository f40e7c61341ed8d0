//! Byte-level codec used for the durable access record and for wire
//! messages: little-endian integers, length-prefixed byte strings, and
//! length-prefixed UTF-8 text.
//!
//! Every encoder is specified by a spec-level byte sequence, every decoder
//! by a spec-level parser, and prefix lemmas show that each decoder inverts
//! the matching encoder, so that composite round-trip proofs assemble from
//! these pieces.

use vstd::prelude::*;
use vstd::bytes::{
    spec_u16_to_le_bytes, spec_u16_from_le_bytes, lemma_auto_spec_u16_to_from_le_bytes,
    spec_u32_to_le_bytes, spec_u32_from_le_bytes, lemma_auto_spec_u32_to_from_le_bytes,
    spec_u64_to_le_bytes, spec_u64_from_le_bytes, lemma_auto_spec_u64_to_from_le_bytes,
    u16_to_le_bytes, u16_from_le_bytes, u32_to_le_bytes, u32_from_le_bytes, u64_to_le_bytes,
    u64_from_le_bytes,
};
use vstd::utf8::{valid_utf8, encode_utf8, decode_utf8, encode_utf8_valid_utf8,
    encode_utf8_decode_utf8};
use vstd::slice::{slice_subrange, slice_to_vec};
use crate::error::HqError;

verus! {

// ---------------------------------------------------------------------------
// Spec-level encoders
// ---------------------------------------------------------------------------

/// Two little-endian bytes.
pub open spec fn enc_u16(x: u16) -> Seq<u8> {
    spec_u16_to_le_bytes(x)
}

/// Four little-endian bytes.
pub open spec fn enc_u32(x: u32) -> Seq<u8> {
    spec_u32_to_le_bytes(x)
}

/// Eight little-endian bytes.
pub open spec fn enc_u64(x: u64) -> Seq<u8> {
    spec_u64_to_le_bytes(x)
}

/// A length-prefixed byte string: the length as a `u64`, then the bytes.
pub open spec fn enc_bytes(b: Seq<u8>) -> Seq<u8>
    recommends
        b.len() <= u64::MAX,
{
    enc_u64(b.len() as u64) + b
}

/// Text, stored as its length-prefixed UTF-8 encoding.
pub open spec fn enc_string(s: Seq<char>) -> Seq<u8>
    recommends
        encode_utf8(s).len() <= u64::MAX,
{
    enc_bytes(encode_utf8(s))
}

// ---------------------------------------------------------------------------
// Spec-level decoders: parse at a position, yield the value and the position
// after it, or nothing when the input does not carry a valid encoding there.
// ---------------------------------------------------------------------------

/// Parse one byte at `pos`.
pub open spec fn dec_byte(bytes: Seq<u8>, pos: int) -> Option<(u8, int)> {
    if 0 <= pos && pos + 1 <= bytes.len() {
        Some((bytes[pos], pos + 1))
    } else {
        None
    }
}

/// Parse a `u16` at `pos`.
pub open spec fn dec_u16(bytes: Seq<u8>, pos: int) -> Option<(u16, int)> {
    if 0 <= pos && pos + 2 <= bytes.len() {
        Some((spec_u16_from_le_bytes(bytes.subrange(pos, pos + 2)), pos + 2))
    } else {
        None
    }
}

/// Parse a `u32` at `pos`.
pub open spec fn dec_u32(bytes: Seq<u8>, pos: int) -> Option<(u32, int)> {
    if 0 <= pos && pos + 4 <= bytes.len() {
        Some((spec_u32_from_le_bytes(bytes.subrange(pos, pos + 4)), pos + 4))
    } else {
        None
    }
}

/// Parse a `u64` at `pos`.
pub open spec fn dec_u64(bytes: Seq<u8>, pos: int) -> Option<(u64, int)> {
    if 0 <= pos && pos + 8 <= bytes.len() {
        Some((spec_u64_from_le_bytes(bytes.subrange(pos, pos + 8)), pos + 8))
    } else {
        None
    }
}

/// Parse a length-prefixed byte string at `pos`.
pub open spec fn dec_bytes(bytes: Seq<u8>, pos: int) -> Option<(Seq<u8>, int)> {
    match dec_u64(bytes, pos) {
        Option::None => Option::None,
        Option::Some((n, p)) => if p + n <= bytes.len() {
            Option::Some((bytes.subrange(p, p + n), p + n))
        } else {
            Option::None
        },
    }
}

/// Parse length-prefixed text at `pos`; the bytes must be valid UTF-8.
pub open spec fn dec_string(bytes: Seq<u8>, pos: int) -> Option<(Seq<char>, int)> {
    match dec_bytes(bytes, pos) {
        Option::None => Option::None,
        Option::Some((b, p)) => if valid_utf8(b) {
            Option::Some((decode_utf8(b), p))
        } else {
            Option::None
        },
    }
}

// ---------------------------------------------------------------------------
// Prefix lemmas: a decoder applied where the matching encoding starts yields
// exactly the encoded value and stops exactly after it.
// ---------------------------------------------------------------------------

/// `dec_u16` inverts `enc_u16` wherever the encoding stands in a larger buffer.
pub proof fn lemma_dec_u16_prefix(bytes: Seq<u8>, pos: int, x: u16)
    requires
        0 <= pos,
        pos + 2 <= bytes.len(),
        bytes.subrange(pos, pos + 2) == enc_u16(x),
    ensures
        dec_u16(bytes, pos) == Some((x, pos + 2)),
{
    lemma_auto_spec_u16_to_from_le_bytes();
    assert(spec_u16_to_le_bytes(x).len() == 2);
    assert(spec_u16_from_le_bytes(spec_u16_to_le_bytes(x)) == x);
}

/// `dec_u32` inverts `enc_u32` wherever the encoding stands in a larger buffer.
pub proof fn lemma_dec_u32_prefix(bytes: Seq<u8>, pos: int, x: u32)
    requires
        0 <= pos,
        pos + 4 <= bytes.len(),
        bytes.subrange(pos, pos + 4) == enc_u32(x),
    ensures
        dec_u32(bytes, pos) == Some((x, pos + 4)),
{
    lemma_auto_spec_u32_to_from_le_bytes();
    assert(spec_u32_to_le_bytes(x).len() == 4);
    assert(spec_u32_from_le_bytes(spec_u32_to_le_bytes(x)) == x);
}

/// `dec_u64` inverts `enc_u64` wherever the encoding stands in a larger buffer.
pub proof fn lemma_dec_u64_prefix(bytes: Seq<u8>, pos: int, x: u64)
    requires
        0 <= pos,
        pos + 8 <= bytes.len(),
        bytes.subrange(pos, pos + 8) == enc_u64(x),
    ensures
        dec_u64(bytes, pos) == Some((x, pos + 8)),
{
    lemma_auto_spec_u64_to_from_le_bytes();
    assert(spec_u64_from_le_bytes(spec_u64_to_le_bytes(x)) == x);
}

/// `dec_bytes` inverts `enc_bytes` wherever the encoding stands in a larger
/// buffer.
pub proof fn lemma_dec_bytes_prefix(bytes: Seq<u8>, pos: int, b: Seq<u8>)
    requires
        b.len() <= u64::MAX,
        0 <= pos,
        pos + 8 + b.len() <= bytes.len(),
        bytes.subrange(pos, pos + 8 + b.len()) == enc_bytes(b),
    ensures
        dec_bytes(bytes, pos) == Some((b, pos + 8 + b.len())),
{
    lemma_auto_spec_u64_to_from_le_bytes();
    let n = b.len() as u64;
    assert(spec_u64_to_le_bytes(n).len() == 8);
    assert(spec_u64_from_le_bytes(spec_u64_to_le_bytes(n)) == n);
    let whole = bytes.subrange(pos, pos + 8 + b.len());
    assert(bytes.subrange(pos, pos + 8) =~= whole.subrange(0, 8));
    assert(whole.subrange(0, 8) =~= enc_u64(n));
    assert forall|i: int| 0 <= i < b.len() implies bytes[pos + 8 + i] == b[i] by {
        assert(whole[8 + i] == enc_bytes(b)[8 + i]);
        assert(enc_bytes(b)[8 + i] == b[i]);
    }
    assert(bytes.subrange(pos + 8, pos + 8 + b.len()) =~= b);
}

/// `dec_string` inverts `enc_string` wherever the encoding stands in a larger
/// buffer.
pub proof fn lemma_dec_string_prefix(bytes: Seq<u8>, pos: int, s: Seq<char>)
    requires
        encode_utf8(s).len() <= u64::MAX,
        0 <= pos,
        pos + 8 + encode_utf8(s).len() <= bytes.len(),
        bytes.subrange(pos, pos + 8 + encode_utf8(s).len()) == enc_string(s),
    ensures
        dec_string(bytes, pos) == Some((s, pos + 8 + encode_utf8(s).len())),
{
    lemma_dec_bytes_prefix(bytes, pos, encode_utf8(s));
    encode_utf8_valid_utf8(s);
    encode_utf8_decode_utf8(s);
}

// ---------------------------------------------------------------------------
// Executable encoders
// ---------------------------------------------------------------------------

/// Append the two-byte encoding of `x`.
pub fn put_u16(out: &mut Vec<u8>, x: u16)
    ensures
        final(out)@ == old(out)@ + enc_u16(x),
{
    let mut t = u16_to_le_bytes(x);
    out.append(&mut t);
}

/// Append the four-byte encoding of `x`.
pub fn put_u32(out: &mut Vec<u8>, x: u32)
    ensures
        final(out)@ == old(out)@ + enc_u32(x),
{
    let mut t = u32_to_le_bytes(x);
    out.append(&mut t);
}

/// Append the eight-byte encoding of `x`.
pub fn put_u64(out: &mut Vec<u8>, x: u64)
    ensures
        final(out)@ == old(out)@ + enc_u64(x),
{
    let mut t = u64_to_le_bytes(x);
    out.append(&mut t);
}

/// Append the length-prefixed encoding of `b`.
pub fn put_bytes(out: &mut Vec<u8>, b: &Vec<u8>)
    ensures
        final(out)@ == old(out)@ + enc_bytes(b@),
{
    put_u64(out, b.len() as u64);
    out.extend_from_slice(b.as_slice());
}

/// Append the length-prefixed UTF-8 encoding of `s`.
pub fn put_string(out: &mut Vec<u8>, s: &String)
    ensures
        final(out)@ == old(out)@ + enc_string(s@),
{
    let bv = s.as_str().as_bytes_vec();
    put_bytes(out, &bv);
}

// ---------------------------------------------------------------------------
// Executable decoders: each returns exactly what the spec-level parser says.
// ---------------------------------------------------------------------------

/// The error every decoder returns on malformed input.
fn truncated() -> (r: HqError)
    ensures
        r is ProtocolError,
{
    HqError::ProtocolError("malformed or truncated encoding".to_owned())
}

/// Read one byte at `pos`; fails exactly where the spec-level parser does.
pub fn take_byte(bytes: &Vec<u8>, pos: usize) -> (r: Result<(u8, usize), HqError>)
    ensures
        match r {
            Ok((x, p)) => dec_byte(bytes@, pos as int) == Some((x, p as int)),
            Err(e) => dec_byte(bytes@, pos as int) is None && e is ProtocolError,
        },
{
    if pos < bytes.len() {
        Ok((bytes[pos], pos + 1))
    } else {
        Err(truncated())
    }
}

/// Read a `u16` at `pos`; fails exactly where the spec-level parser does.
pub fn take_u16(bytes: &Vec<u8>, pos: usize) -> (r: Result<(u16, usize), HqError>)
    ensures
        match r {
            Ok((x, p)) => dec_u16(bytes@, pos as int) == Some((x, p as int)),
            Err(e) => dec_u16(bytes@, pos as int) is None && e is ProtocolError,
        },
{
    if pos <= bytes.len() && bytes.len() - pos >= 2 {
        let s = slice_subrange(bytes.as_slice(), pos, pos + 2);
        Ok((u16_from_le_bytes(s), pos + 2))
    } else {
        Err(truncated())
    }
}

/// Read a `u32` at `pos`; fails exactly where the spec-level parser does.
pub fn take_u32(bytes: &Vec<u8>, pos: usize) -> (r: Result<(u32, usize), HqError>)
    ensures
        match r {
            Ok((x, p)) => dec_u32(bytes@, pos as int) == Some((x, p as int)),
            Err(e) => dec_u32(bytes@, pos as int) is None && e is ProtocolError,
        },
{
    if pos <= bytes.len() && bytes.len() - pos >= 4 {
        let s = slice_subrange(bytes.as_slice(), pos, pos + 4);
        Ok((u32_from_le_bytes(s), pos + 4))
    } else {
        Err(truncated())
    }
}

/// Read a `u64` at `pos`; fails exactly where the spec-level parser does.
pub fn take_u64(bytes: &Vec<u8>, pos: usize) -> (r: Result<(u64, usize), HqError>)
    ensures
        match r {
            Ok((x, p)) => dec_u64(bytes@, pos as int) == Some((x, p as int)),
            Err(e) => dec_u64(bytes@, pos as int) is None && e is ProtocolError,
        },
{
    if pos <= bytes.len() && bytes.len() - pos >= 8 {
        let s = slice_subrange(bytes.as_slice(), pos, pos + 8);
        Ok((u64_from_le_bytes(s), pos + 8))
    } else {
        Err(truncated())
    }
}

/// Read a length-prefixed byte string at `pos`; fails exactly where the
/// spec-level parser does.
pub fn take_bytes(bytes: &Vec<u8>, pos: usize) -> (r: Result<(Vec<u8>, usize), HqError>)
    ensures
        match r {
            Ok((b, p)) => dec_bytes(bytes@, pos as int) == Some((b@, p as int)),
            Err(e) => dec_bytes(bytes@, pos as int) is None && e is ProtocolError,
        },
{
    let (n, p) = match take_u64(bytes, pos) {
        Ok(v) => v,
        Err(e) => {
            return Err(e);
        },
    };
    if n <= (bytes.len() - p) as u64 {
        let q = p + n as usize;
        let b = slice_to_vec(slice_subrange(bytes.as_slice(), p, q));
        Ok((b, q))
    } else {
        Err(truncated())
    }
}

/// Relies on std's `String::from_utf8`: it succeeds exactly on valid UTF-8
/// input, and the returned string then holds exactly those bytes.
#[verifier::external_body]
pub(crate) fn utf8_to_string(bytes: Vec<u8>) -> (r: Option<String>)
    ensures
        r is Some <==> valid_utf8(bytes@),
        r matches Some(s) ==> encode_utf8(s@) == bytes@,
{
    match String::from_utf8(bytes) {
        Ok(s) => Some(s),
        Err(_) => None,
    }
}

/// Read length-prefixed text at `pos`; fails exactly where the spec-level
/// parser does, in particular on bytes that are not valid UTF-8.
pub fn take_string(bytes: &Vec<u8>, pos: usize) -> (r: Result<(String, usize), HqError>)
    ensures
        match r {
            Ok((s, p)) => dec_string(bytes@, pos as int) == Some((s@, p as int)),
            Err(e) => dec_string(bytes@, pos as int) is None && e is ProtocolError,
        },
{
    let (b, p) = match take_bytes(bytes, pos) {
        Ok(v) => v,
        Err(e) => {
            return Err(e);
        },
    };
    let ghost bs = b@;
    match utf8_to_string(b) {
        Some(s) => {
            proof {
                encode_utf8_decode_utf8(s@);
            }
            Ok((s, p))
        },
        None => Err(truncated()),
    }
}

} // verus!
