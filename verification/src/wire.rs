//! Primitive pieces of the wire format: little-endian integers, booleans and
//! length-prefixed UTF-8 strings, each with a specification-level encoder and
//! decoder and lemmas showing that decoding undoes encoding.

use vstd::bytes::{
    spec_u32_from_le_bytes, spec_u32_to_le_bytes, spec_u64_from_le_bytes, spec_u64_to_le_bytes,
    u32_from_le_bytes, u32_to_le_bytes, u64_from_le_bytes, u64_to_le_bytes,
};
use vstd::prelude::*;
use vstd::slice::{slice_subrange, slice_to_vec};
use vstd::utf8::{decode_utf8, encode_utf8, valid_utf8};

verus! {

/// Why a byte string failed to decode: the frame ended too early, the
/// discriminant named no known variant, or an embedded string was not
/// valid UTF-8.
#[derive(Clone, Copy, Debug, PartialEq, Eq, Structural)]
pub enum DecodeError {
    Truncated,
    UnknownTag,
    BadString,
    BadFrame,
}

/// Relies on `String::from_utf8`: succeeds exactly on valid UTF-8 input and
/// returns the decoded character sequence.
#[verifier::external_type_specification]
#[verifier::external_body]
pub struct ExFromUtf8Error(std::string::FromUtf8Error);

pub assume_specification[ String::from_utf8 ](v: Vec<u8>) -> (r: Result<
    String,
    std::string::FromUtf8Error,
>)
    ensures
        r is Ok <==> valid_utf8(v@),
        r matches Ok(s) ==> s@ == decode_utf8(v@),
;

/// A character sequence whose UTF-8 encoding fits in memory, so its byte
/// length can be carried in a length prefix.
pub open spec fn str_ok(s: Seq<char>) -> bool {
    encode_utf8(s).len() <= usize::MAX
}

/// Byte encoding of a string: an 8-byte length prefix followed by the
/// UTF-8 bytes.
pub open spec fn spec_enc_str(s: Seq<char>) -> Seq<u8> {
    spec_u64_to_le_bytes(encode_utf8(s).len() as u64) + encode_utf8(s)
}

/// Byte encoding of a boolean: one byte, zero for false.
pub open spec fn spec_enc_bool(x: bool) -> Seq<u8> {
    seq![if x { 1u8 } else { 0u8 }]
}

pub open spec fn sdec_u64(b: Seq<u8>, i: int) -> Option<(u64, int)> {
    if 0 <= i && i + 8 <= b.len() {
        Some((spec_u64_from_le_bytes(b.subrange(i, i + 8)), i + 8))
    } else {
        None
    }
}

pub open spec fn sdec_u32(b: Seq<u8>, i: int) -> Option<(u32, int)> {
    if 0 <= i && i + 4 <= b.len() {
        Some((spec_u32_from_le_bytes(b.subrange(i, i + 4)), i + 4))
    } else {
        None
    }
}

pub open spec fn sdec_byte(b: Seq<u8>, i: int) -> Option<(u8, int)> {
    if 0 <= i && i + 1 <= b.len() {
        Some((b[i], i + 1))
    } else {
        None
    }
}

pub open spec fn sdec_bool(b: Seq<u8>, i: int) -> Option<(bool, int)> {
    match sdec_byte(b, i) {
        Some((x, j)) => Some((x != 0, j)),
        None => None,
    }
}

pub open spec fn sdec_str(b: Seq<u8>, i: int) -> Option<(Seq<char>, int)> {
    match sdec_u64(b, i) {
        Some((n, j)) => {
            if j + n <= b.len() && valid_utf8(b.subrange(j, j + n)) {
                Some((decode_utf8(b.subrange(j, j + n)), j + n))
            } else {
                None
            }
        },
        None => None,
    }
}

pub fn enc_u64(out: &mut Vec<u8>, x: u64)
    ensures
        final(out)@ == old(out)@ + spec_u64_to_le_bytes(x),
{
    let mut bs = u64_to_le_bytes(x);
    out.append(&mut bs);
}

pub fn enc_u32(out: &mut Vec<u8>, x: u32)
    ensures
        final(out)@ == old(out)@ + spec_u32_to_le_bytes(x),
{
    let mut bs = u32_to_le_bytes(x);
    out.append(&mut bs);
}

pub fn enc_byte(out: &mut Vec<u8>, x: u8)
    ensures
        final(out)@ == old(out)@ + seq![x],
{
    out.push(x);
    proof {
        assert(final(out)@ =~= old(out)@ + seq![x]);
    }
}

pub fn enc_bool(out: &mut Vec<u8>, x: bool)
    ensures
        final(out)@ == old(out)@ + spec_enc_bool(x),
{
    enc_byte(out, if x { 1 } else { 0 });
}

pub fn enc_str(out: &mut Vec<u8>, s: &str)
    ensures
        final(out)@ == old(out)@ + spec_enc_str(s@),
{
    let bs = s.as_bytes();
    enc_u64(out, bs.len() as u64);
    let mut bv = slice_to_vec(bs);
    out.append(&mut bv);
    proof {
        assert(final(out)@ =~= old(out)@ + spec_enc_str(s@));
    }
}

pub fn dec_u64(b: &[u8], i: usize) -> (r: Result<(u64, usize), DecodeError>)
    ensures
        match r {
            Ok(p) => sdec_u64(b@, i as int) == Some((p.0, p.1 as int)) && p.1 <= b@.len(),
            Err(e) => sdec_u64(b@, i as int) is None && e == DecodeError::Truncated,
        },
{
    if b.len() < 8 || i > b.len() - 8 {
        Err(DecodeError::Truncated)
    } else {
        let x = u64_from_le_bytes(slice_subrange(b, i, i + 8));
        Ok((x, i + 8))
    }
}

pub fn dec_u32(b: &[u8], i: usize) -> (r: Result<(u32, usize), DecodeError>)
    ensures
        match r {
            Ok(p) => sdec_u32(b@, i as int) == Some((p.0, p.1 as int)) && p.1 <= b@.len(),
            Err(e) => sdec_u32(b@, i as int) is None && e == DecodeError::Truncated,
        },
{
    if b.len() < 4 || i > b.len() - 4 {
        Err(DecodeError::Truncated)
    } else {
        let x = u32_from_le_bytes(slice_subrange(b, i, i + 4));
        Ok((x, i + 4))
    }
}

pub fn dec_byte(b: &[u8], i: usize) -> (r: Result<(u8, usize), DecodeError>)
    ensures
        match r {
            Ok(p) => sdec_byte(b@, i as int) == Some((p.0, p.1 as int)) && p.1 <= b@.len(),
            Err(e) => sdec_byte(b@, i as int) is None && e == DecodeError::Truncated,
        },
{
    if i >= b.len() {
        Err(DecodeError::Truncated)
    } else {
        Ok((b[i], i + 1))
    }
}

pub fn dec_bool(b: &[u8], i: usize) -> (r: Result<(bool, usize), DecodeError>)
    ensures
        match r {
            Ok(p) => sdec_bool(b@, i as int) == Some((p.0, p.1 as int)) && p.1 <= b@.len(),
            Err(e) => sdec_bool(b@, i as int) is None && e == DecodeError::Truncated,
        },
{
    match dec_byte(b, i) {
        Ok((x, j)) => Ok((x != 0, j)),
        Err(e) => Err(e),
    }
}

pub fn dec_str(b: &[u8], i: usize) -> (r: Result<(String, usize), DecodeError>)
    ensures
        match r {
            Ok(p) => {
                &&& sdec_str(b@, i as int) matches Some(q)
                &&& q.0 == p.0@
                &&& q.1 == p.1 as int
                &&& p.1 <= b@.len()
                &&& str_ok(p.0@)
            },
            Err(e) => {
                &&& sdec_str(b@, i as int) is None
                &&& e == (if sdec_u64(b@, i as int) matches Some(q) && q.1 + q.0 <= b@.len() {
                    DecodeError::BadString
                } else {
                    DecodeError::Truncated
                })
            },
        },
{
    let (n, j) = match dec_u64(b, i) {
        Ok(p) => p,
        Err(e) => {
            return Err(e);
        },
    };
    if n > (b.len() - j) as u64 {
        return Err(DecodeError::Truncated);
    }
    let bs = slice_subrange(b, j, j + n as usize);
    match String::from_utf8(slice_to_vec(bs)) {
        Ok(s) => {
            proof {
                vstd::utf8::decode_utf8_encode_utf8(bs@);
            }
            Ok((s, j + n as usize))
        },
        Err(_) => Err(DecodeError::BadString),
    }
}

/// Splitting a subrange known to equal a concatenation yields the two parts.
pub proof fn lemma_subrange_split(b: Seq<u8>, i: int, s1: Seq<u8>, s2: Seq<u8>)
    requires
        0 <= i,
        i + s1.len() + s2.len() <= b.len(),
        b.subrange(i, i + s1.len() + s2.len()) == s1 + s2,
    ensures
        b.subrange(i, i + s1.len()) == s1,
        b.subrange(i + s1.len(), i + s1.len() + s2.len()) == s2,
{
    let whole = b.subrange(i, i + s1.len() + s2.len());
    assert forall|k: int| 0 <= k < s1.len() implies b.subrange(i, i + s1.len())[k] == s1[k] by {
        assert(whole[k] == (s1 + s2)[k]);
    }
    assert forall|k: int| 0 <= k < s2.len() implies b.subrange(
        i + s1.len(),
        i + s1.len() + s2.len(),
    )[k] == s2[k] by {
        assert(whole[s1.len() + k] == (s1 + s2)[s1.len() + k]);
    }
    assert(b.subrange(i, i + s1.len()) =~= s1);
    assert(b.subrange(i + s1.len(), i + s1.len() + s2.len()) =~= s2);
}

/// Decoding an encoded `u64` in place recovers the value.
pub proof fn lemma_dec_enc_u64(b: Seq<u8>, i: int, x: u64)
    requires
        0 <= i,
        i + 8 <= b.len(),
        b.subrange(i, i + 8) == spec_u64_to_le_bytes(x),
    ensures
        sdec_u64(b, i) == Some((x, i + 8)),
{
    vstd::bytes::lemma_auto_spec_u64_to_from_le_bytes();
}

/// Decoding an encoded `u32` in place recovers the value.
pub proof fn lemma_dec_enc_u32(b: Seq<u8>, i: int, x: u32)
    requires
        0 <= i,
        i + 4 <= b.len(),
        b.subrange(i, i + 4) == spec_u32_to_le_bytes(x),
    ensures
        sdec_u32(b, i) == Some((x, i + 4)),
{
    vstd::bytes::lemma_auto_spec_u32_to_from_le_bytes();
    assert(spec_u32_to_le_bytes(x).len() == 4);
}

/// Decoding an encoded byte in place recovers the value.
pub proof fn lemma_dec_enc_byte(b: Seq<u8>, i: int, x: u8)
    requires
        0 <= i,
        i + 1 <= b.len(),
        b.subrange(i, i + 1) == seq![x],
    ensures
        sdec_byte(b, i) == Some((x, i + 1)),
{
    assert(b[i] == b.subrange(i, i + 1)[0]);
}

/// Decoding an encoded boolean in place recovers the value.
pub proof fn lemma_dec_enc_bool(b: Seq<u8>, i: int, x: bool)
    requires
        0 <= i,
        i + 1 <= b.len(),
        b.subrange(i, i + 1) == spec_enc_bool(x),
    ensures
        sdec_bool(b, i) == Some((x, i + 1)),
{
    lemma_dec_enc_byte(b, i, if x { 1u8 } else { 0u8 });
}

/// Decoding an encoded string in place recovers the character sequence.
pub proof fn lemma_dec_enc_str(b: Seq<u8>, i: int, s: Seq<char>)
    requires
        0 <= i,
        str_ok(s),
        i + spec_enc_str(s).len() <= b.len(),
        b.subrange(i, i + spec_enc_str(s).len()) == spec_enc_str(s),
    ensures
        sdec_str(b, i) == Some((s, i + spec_enc_str(s).len())),
{
    let bs = encode_utf8(s);
    let n = bs.len() as u64;
    vstd::bytes::lemma_auto_spec_u64_to_from_le_bytes();
    lemma_subrange_split(b, i, spec_u64_to_le_bytes(n), bs);
    lemma_dec_enc_u64(b, i, n);
    assert(b.subrange(i + 8, i + 8 + bs.len()) == bs);
    vstd::utf8::encode_utf8_valid_utf8(s);
    vstd::utf8::encode_utf8_decode_utf8(s);
}

} // verus!
