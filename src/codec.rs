//! The record's byte layout: each text as a little-endian `u32` byte count
//! followed by its UTF-8 bytes, the issue date as eight little-endian bytes,
//! the issuer's 32 key bytes, and the revoked flag as one byte (0 or 1).
//! A buffer holds a record followed by zero padding.

use crate::types::{Certificate, CertificateView, ProgramError, Pubkey};
use vstd::prelude::*;
use vstd::utf8::*;

verus! {

pub open spec fn u32_le_bytes(n: u32) -> Seq<u8> {
    seq![
        (n & 0xff) as u8,
        ((n >> 8u32) & 0xff) as u8,
        ((n >> 16u32) & 0xff) as u8,
        ((n >> 24u32) & 0xff) as u8,
    ]
}

/// The `u32` whose little-endian bytes start `b`.
pub open spec fn u32_from_le(b: Seq<u8>) -> u32 {
    (b[0] as u32) | ((b[1] as u32) << 8u32) | ((b[2] as u32) << 16u32) | ((b[3] as u32) << 24u32)
}

pub open spec fn u64_le_bytes(x: u64) -> Seq<u8> {
    seq![
        (x & 0xff) as u8,
        ((x >> 8u64) & 0xff) as u8,
        ((x >> 16u64) & 0xff) as u8,
        ((x >> 24u64) & 0xff) as u8,
        ((x >> 32u64) & 0xff) as u8,
        ((x >> 40u64) & 0xff) as u8,
        ((x >> 48u64) & 0xff) as u8,
        ((x >> 56u64) & 0xff) as u8,
    ]
}

/// The `u64` whose little-endian bytes start `b`.
pub open spec fn u64_from_le(b: Seq<u8>) -> u64 {
    (b[0] as u64) | ((b[1] as u64) << 8u64) | ((b[2] as u64) << 16u64) | ((b[3] as u64) << 24u64)
        | ((b[4] as u64) << 32u64) | ((b[5] as u64) << 40u64) | ((b[6] as u64) << 48u64) | ((
    b[7] as u64) << 56u64)
}

#[verifier::opaque]
pub open spec fn i64_le_bytes(v: i64) -> Seq<u8> {
    u64_le_bytes(v as u64)
}

/// A text field: its UTF-8 byte count, then its UTF-8 bytes.
#[verifier::opaque]
pub open spec fn text_bytes(s: Seq<char>) -> Seq<u8> {
    u32_le_bytes(encode_utf8(s).len() as u32) + encode_utf8(s)
}

/// The text's byte count fits the `u32` length prefix.
pub open spec fn text_fits(s: Seq<char>) -> bool {
    encode_utf8(s).len() <= u32::MAX
}

pub open spec fn bool_byte(b: bool) -> u8 {
    if b {
        1
    } else {
        0
    }
}

/// A record that the layout can hold.
pub open spec fn valid_record(c: CertificateView) -> bool {
    &&& text_fits(c.student_name)
    &&& text_fits(c.course_name)
    &&& c.issuer.len() == 32
    &&& text_fits(c.certificate_id)
    &&& text_fits(c.grade)
}

/// The encoding of a record.
pub open spec fn record_bytes(c: CertificateView) -> Seq<u8> {
    text_bytes(c.student_name) + text_bytes(c.course_name) + i64_le_bytes(c.issue_date) + c.issuer
        + text_bytes(c.certificate_id) + text_bytes(c.grade) + seq![bool_byte(c.is_revoked)]
}

pub open spec fn all_zero(b: Seq<u8>) -> bool {
    forall|i: int| 0 <= i < b.len() ==> b[i] == 0
}

/// Reads a text field from the front of `b`; gives the text and what follows.
#[verifier::opaque]
pub open spec fn parse_text(b: Seq<u8>) -> Option<(Seq<char>, Seq<u8>)> {
    if b.len() < 4 {
        None
    } else {
        let n = u32_from_le(b) as int;
        if b.len() < 4 + n {
            None
        } else if valid_utf8(b.subrange(4, 4 + n)) {
            Some((decode_utf8(b.subrange(4, 4 + n)), b.subrange(4 + n, b.len() as int)))
        } else {
            None
        }
    }
}

#[verifier::opaque]
pub open spec fn parse_i64(b: Seq<u8>) -> Option<(i64, Seq<u8>)> {
    if b.len() < 8 {
        None
    } else {
        Some((u64_from_le(b) as i64, b.subrange(8, b.len() as int)))
    }
}

pub open spec fn parse_key(b: Seq<u8>) -> Option<(Seq<u8>, Seq<u8>)> {
    if b.len() < 32 {
        None
    } else {
        Some((b.subrange(0, 32), b.subrange(32, b.len() as int)))
    }
}

pub open spec fn parse_bool(b: Seq<u8>) -> Option<(bool, Seq<u8>)> {
    if b.len() < 1 || b[0] > 1 {
        None
    } else {
        Some((b[0] == 1, b.subrange(1, b.len() as int)))
    }
}

/// The record that a buffer holds, if any: the fields in order, then only
/// zero bytes.
pub open spec fn parse_record(b: Seq<u8>) -> Option<CertificateView> {
    match parse_text(b) {
        None => None,
        Some((student_name, b1)) => match parse_text(b1) {
            None => None,
            Some((course_name, b2)) => match parse_i64(b2) {
                None => None,
                Some((issue_date, b3)) => match parse_key(b3) {
                    None => None,
                    Some((issuer, b4)) => match parse_text(b4) {
                        None => None,
                        Some((certificate_id, b5)) => match parse_text(b5) {
                            None => None,
                            Some((grade, b6)) => match parse_bool(b6) {
                                None => None,
                                Some((is_revoked, b7)) => if all_zero(b7) {
                                    Some(
                                        CertificateView {
                                            student_name,
                                            course_name,
                                            issue_date,
                                            issuer,
                                            certificate_id,
                                            grade,
                                            is_revoked,
                                        },
                                    )
                                } else {
                                    None
                                },
                            },
                        },
                    },
                },
            },
        },
    }
}

proof fn lemma_u32_round_trip(n: u32)
    ensures
        u32_from_le(u32_le_bytes(n)) == n,
{
    let b = u32_le_bytes(n);
    let (b0, b1, b2, b3) = (b[0], b[1], b[2], b[3]);
    assert((b0 as u32) | ((b1 as u32) << 8u32) | ((b2 as u32) << 16u32) | ((b3 as u32) << 24u32)
        == n) by (bit_vector)
        requires
            b0 == (n & 0xff) as u8,
            b1 == ((n >> 8u32) & 0xff) as u8,
            b2 == ((n >> 16u32) & 0xff) as u8,
            b3 == ((n >> 24u32) & 0xff) as u8,
    ;
}

proof fn lemma_u32_bytes_of(b: Seq<u8>)
    requires
        b.len() >= 4,
    ensures
        u32_le_bytes(u32_from_le(b)) =~= b.subrange(0, 4),
{
    let (b0, b1, b2, b3) = (b[0], b[1], b[2], b[3]);
    let n = u32_from_le(b);
    assert(b0 == (n & 0xff) as u8 && b1 == ((n >> 8u32) & 0xff) as u8 && b2 == ((n >> 16u32)
        & 0xff) as u8 && b3 == ((n >> 24u32) & 0xff) as u8) by (bit_vector)
        requires
            n == (b0 as u32) | ((b1 as u32) << 8u32) | ((b2 as u32) << 16u32) | ((b3 as u32)
                << 24u32),
    ;
}

proof fn lemma_i64_round_trip(v: i64)
    ensures
        u64_from_le(i64_le_bytes(v)) as i64 == v,
{
    reveal(i64_le_bytes);
    let x = v as u64;
    let b = u64_le_bytes(x);
    let (b0, b1, b2, b3, b4, b5, b6, b7) = (b[0], b[1], b[2], b[3], b[4], b[5], b[6], b[7]);
    assert((b0 as u64) | ((b1 as u64) << 8u64) | ((b2 as u64) << 16u64) | ((b3 as u64) << 24u64)
        | ((b4 as u64) << 32u64) | ((b5 as u64) << 40u64) | ((b6 as u64) << 48u64) | ((b7 as u64)
        << 56u64) == x) by (bit_vector)
        requires
            b0 == (x & 0xff) as u8,
            b1 == ((x >> 8u64) & 0xff) as u8,
            b2 == ((x >> 16u64) & 0xff) as u8,
            b3 == ((x >> 24u64) & 0xff) as u8,
            b4 == ((x >> 32u64) & 0xff) as u8,
            b5 == ((x >> 40u64) & 0xff) as u8,
            b6 == ((x >> 48u64) & 0xff) as u8,
            b7 == ((x >> 56u64) & 0xff) as u8,
    ;
    assert((x as i64) == v) by (bit_vector)
        requires
            x == v as u64,
    ;
}

proof fn lemma_i64_bytes_of(b: Seq<u8>)
    requires
        b.len() >= 8,
    ensures
        i64_le_bytes(u64_from_le(b) as i64) =~= b.subrange(0, 8),
{
    reveal(i64_le_bytes);
    let (b0, b1, b2, b3, b4, b5, b6, b7) = (b[0], b[1], b[2], b[3], b[4], b[5], b[6], b[7]);
    let x = u64_from_le(b);
    assert(((x as i64) as u64) == x) by (bit_vector);
    assert(b0 == (x & 0xff) as u8 && b1 == ((x >> 8u64) & 0xff) as u8 && b2 == ((x >> 16u64)
        & 0xff) as u8 && b3 == ((x >> 24u64) & 0xff) as u8 && b4 == ((x >> 32u64) & 0xff) as u8
        && b5 == ((x >> 40u64) & 0xff) as u8 && b6 == ((x >> 48u64) & 0xff) as u8 && b7 == ((x
        >> 56u64) & 0xff) as u8) by (bit_vector)
        requires
            x == (b0 as u64) | ((b1 as u64) << 8u64) | ((b2 as u64) << 16u64) | ((b3 as u64)
                << 24u64) | ((b4 as u64) << 32u64) | ((b5 as u64) << 40u64) | ((b6 as u64)
                << 48u64) | ((b7 as u64) << 56u64),
    ;
}

proof fn lemma_parse_i64_bytes(v: i64, rest: Seq<u8>)
    ensures
        parse_i64(i64_le_bytes(v) + rest) == Some((v, rest)),
{
    reveal(parse_i64);
    lemma_i64_round_trip(v);
    reveal(i64_le_bytes);
    let b = i64_le_bytes(v) + rest;
    assert(u64_from_le(b) == u64_from_le(i64_le_bytes(v)));
    assert(b.subrange(8, b.len() as int) =~= rest);
}

proof fn lemma_i64_bytes_parse(b: Seq<u8>)
    requires
        parse_i64(b) is Some,
    ensures
        b =~= i64_le_bytes(parse_i64(b).unwrap().0) + parse_i64(b).unwrap().1,
{
    reveal(parse_i64);
    lemma_i64_bytes_of(b);
    reveal(i64_le_bytes);
    assert(b =~= b.subrange(0, 8) + b.subrange(8, b.len() as int));
}

proof fn lemma_parse_text_bytes(s: Seq<char>, rest: Seq<u8>)
    requires
        text_fits(s),
    ensures
        parse_text(text_bytes(s) + rest) == Some((s, rest)),
{
    reveal(text_bytes);
    reveal(parse_text);
    let e = encode_utf8(s);
    let b = text_bytes(s) + rest;
    encode_utf8_valid_utf8(s);
    encode_utf8_decode_utf8(s);
    lemma_u32_round_trip(e.len() as u32);
    assert(u32_from_le(b) == u32_from_le(u32_le_bytes(e.len() as u32)));
    assert(b.subrange(4, 4 + e.len() as int) =~= e);
    assert(b.subrange(4 + e.len() as int, b.len() as int) =~= rest);
}

pub proof fn lemma_text_bytes_parse(b: Seq<u8>)
    requires
        parse_text(b) is Some,
    ensures
        text_fits(parse_text(b).unwrap().0),
        b =~= text_bytes(parse_text(b).unwrap().0) + parse_text(b).unwrap().1,
{
    reveal(text_bytes);
    reveal(parse_text);
    let n = u32_from_le(b) as int;
    let p = b.subrange(4, 4 + n);
    decode_utf8_encode_utf8(p);
    lemma_u32_bytes_of(b);
    assert(b =~= b.subrange(0, 4) + p + b.subrange(4 + n, b.len() as int));
}

/// Splits `record_bytes(c) + z` into its first text and the rest.
proof fn lemma_record_bytes_shape(c: CertificateView, z: Seq<u8>)
    ensures
        record_bytes(c) + z =~= text_bytes(c.student_name) + (text_bytes(c.course_name) + (
        i64_le_bytes(c.issue_date) + (c.issuer + (text_bytes(c.certificate_id) + (text_bytes(
        c.grade) + (seq![bool_byte(c.is_revoked)] + z)))))),
{
}

/// Decoding the encoding of a valid record, followed by zero padding, gives
/// the record back.
pub proof fn decode_encode_round_trip(c: CertificateView, z: Seq<u8>)
    requires
        valid_record(c),
        all_zero(z),
    ensures
        parse_record(record_bytes(c) + z) == Some(c),
{
    lemma_record_bytes_shape(c, z);
    let b6 = seq![bool_byte(c.is_revoked)] + z;
    let b5 = text_bytes(c.grade) + b6;
    let b4 = text_bytes(c.certificate_id) + b5;
    let b3 = c.issuer + b4;
    let b2 = i64_le_bytes(c.issue_date) + b3;
    let b1 = text_bytes(c.course_name) + b2;
    lemma_parse_text_bytes(c.student_name, b1);
    lemma_parse_text_bytes(c.course_name, b2);
    lemma_parse_i64_bytes(c.issue_date, b3);
    assert(b3.subrange(0, 32) =~= c.issuer);
    assert(b3.subrange(32, b3.len() as int) =~= b4);
    lemma_parse_text_bytes(c.certificate_id, b5);
    lemma_parse_text_bytes(c.grade, b6);
    assert(b6.subrange(1, b6.len() as int) =~= z);
}

/// A buffer that holds a record is that record's encoding followed by zero
/// padding.
pub proof fn decoded_buffer_is_encoding(b: Seq<u8>)
    requires
        parse_record(b) is Some,
    ensures
        valid_record(parse_record(b)->0),
        b =~= record_bytes(parse_record(b)->0) + b.subrange(
            record_bytes(parse_record(b)->0).len() as int,
            b.len() as int,
        ),
        all_zero(b.subrange(record_bytes(parse_record(b)->0).len() as int, b.len() as int)),
{
    let c = parse_record(b)->0;
    let b1 = parse_text(b).unwrap().1;
    let b2 = parse_text(b1).unwrap().1;
    let b3 = parse_i64(b2).unwrap().1;
    let b4 = parse_key(b3).unwrap().1;
    let b5 = parse_text(b4).unwrap().1;
    let b6 = parse_text(b5).unwrap().1;
    let b7 = parse_bool(b6).unwrap().1;
    lemma_text_bytes_parse(b);
    lemma_text_bytes_parse(b1);
    lemma_i64_bytes_parse(b2);
    assert(b3 =~= c.issuer + b4);
    lemma_text_bytes_parse(b4);
    lemma_text_bytes_parse(b5);
    assert(b6 =~= seq![bool_byte(c.is_revoked)] + b7);
    lemma_record_bytes_shape(c, b7);
    assert(b =~= record_bytes(c) + b7);
    assert(b.subrange(record_bytes(c).len() as int, b.len() as int) =~= b7);
}


/// The bytes of `b` from `pos` on.
pub open spec fn suffix(b: Seq<u8>, pos: int) -> Seq<u8> {
    b.subrange(pos, b.len() as int)
}

pub open spec fn zeros(n: nat) -> Seq<u8> {
    Seq::new(n, |i: int| 0u8)
}

/// `bytes` written over a buffer of `len` bytes, the rest cleared.
pub open spec fn padded(bytes: Seq<u8>, len: nat) -> Seq<u8> {
    bytes + zeros((len - bytes.len()) as nat)
}

proof fn lemma_parse_text_suffix(b: Seq<u8>)
    requires
        parse_text(b) is Some,
    ensures
        parse_text(b).unwrap().1.len() <= b.len(),
        parse_text(b).unwrap().1 =~= suffix(b, b.len() - parse_text(b).unwrap().1.len()),
{
    reveal(parse_text);
}

/// Relies on borsh's deserialization of `String` from a byte slice: a
/// little-endian `u32` byte count, that many bytes, which must be UTF-8.
/// Gives the text and the number of bytes left after it.
#[verifier::external_body]
fn read_text(buf: &[u8], pos: usize) -> (r: Option<(String, usize)>)
    requires
        pos <= buf@.len(),
    ensures
        match parse_text(suffix(buf@, pos as int)) {
            None => r is None,
            Some((s, rest)) => r is Some && r.unwrap().0@ == s && r.unwrap().1 == rest.len(),
        },
{
    let mut rest: &[u8] = &buf[pos..];
    match <String as borsh::BorshDeserialize>::deserialize(&mut rest) {
        Ok(s) => Some((s, rest.len())),
        Err(_) => None,
    }
}

pub(crate) fn read_text_at(buf: &[u8], pos: usize) -> (r: Option<(String, usize)>)
    requires
        pos <= buf@.len(),
    ensures
        match parse_text(suffix(buf@, pos as int)) {
            None => r is None,
            Some((s, rest)) => r is Some && r.unwrap().0@ == s && r.unwrap().1 <= buf@.len()
                && suffix(buf@, r.unwrap().1 as int) == rest,
        },
{
    match read_text(buf, pos) {
        None => None,
        Some((s, left)) => {
            proof {
                lemma_parse_text_suffix(suffix(buf@, pos as int));
            }
            Some((s, buf.len() - left))
        },
    }
}

fn read_i64_at(buf: &[u8], pos: usize) -> (r: Option<(i64, usize)>)
    requires
        pos <= buf@.len(),
    ensures
        match parse_i64(suffix(buf@, pos as int)) {
            None => r is None,
            Some((v, rest)) => r is Some && r.unwrap().0 == v && r.unwrap().1 <= buf@.len()
                && suffix(buf@, r.unwrap().1 as int) == rest,
        },
{
    proof {
        reveal(parse_i64);
    }
    if buf.len() - pos < 8 {
        return None;
    }
    let x: u64 = (buf[pos] as u64) | ((buf[pos + 1] as u64) << 8u64) | ((buf[pos + 2] as u64)
        << 16u64) | ((buf[pos + 3] as u64) << 24u64) | ((buf[pos + 4] as u64) << 32u64) | ((buf[pos
        + 5] as u64) << 40u64) | ((buf[pos + 6] as u64) << 48u64) | ((buf[pos + 7] as u64)
        << 56u64);
    proof {
        let b = suffix(buf@, pos as int);
        assert(x == u64_from_le(b));
        assert(suffix(buf@, pos + 8) =~= b.subrange(8, b.len() as int));
    }
    Some((x as i64, pos + 8))
}

fn read_key_at(buf: &[u8], pos: usize) -> (r: Option<(Pubkey, usize)>)
    requires
        pos <= buf@.len(),
    ensures
        match parse_key(suffix(buf@, pos as int)) {
            None => r is None,
            Some((k, rest)) => r is Some && r.unwrap().0@ == k && r.unwrap().1 <= buf@.len()
                && suffix(buf@, r.unwrap().1 as int) == rest,
        },
{
    if buf.len() - pos < 32 {
        return None;
    }
    let mut bytes: [u8; 32] = [0u8; 32];
    let mut i: usize = 0;
    while i < 32
        invariant
            i <= 32,
            pos + 32 <= buf.len(),
            bytes@.len() == 32,
            forall|k: int| 0 <= k < i ==> bytes@[k] == buf@[pos + k],
        decreases 32 - i,
    {
        bytes[i] = buf[pos + i];
        i = i + 1;
    }
    proof {
        let b = suffix(buf@, pos as int);
        assert(bytes@ =~= b.subrange(0, 32));
        assert(suffix(buf@, pos + 32) =~= b.subrange(32, b.len() as int));
    }
    Some((Pubkey { bytes }, pos + 32))
}

fn read_bool_at(buf: &[u8], pos: usize) -> (r: Option<(bool, usize)>)
    requires
        pos <= buf@.len(),
    ensures
        match parse_bool(suffix(buf@, pos as int)) {
            None => r is None,
            Some((v, rest)) => r is Some && r.unwrap().0 == v && r.unwrap().1 <= buf@.len()
                && suffix(buf@, r.unwrap().1 as int) == rest,
        },
{
    if pos == buf.len() || buf[pos] > 1 {
        return None;
    }
    proof {
        let b = suffix(buf@, pos as int);
        assert(suffix(buf@, pos + 1) =~= b.subrange(1, b.len() as int));
    }
    Some((buf[pos] == 1, pos + 1))
}

fn zero_from(buf: &[u8], pos: usize) -> (r: bool)
    requires
        pos <= buf@.len(),
    ensures
        r == all_zero(suffix(buf@, pos as int)),
{
    let mut i: usize = pos;
    while i < buf.len()
        invariant
            pos <= i <= buf@.len(),
            forall|k: int| pos <= k < i ==> buf@[k] == 0,
        decreases buf@.len() - i,
    {
        if buf[i] != 0 {
            assert(suffix(buf@, pos as int)[i - pos] != 0);
            return false;
        }
        i = i + 1;
    }
    true
}

fn push_u32(out: &mut Vec<u8>, n: u32)
    ensures
        final(out)@ == old(out)@ + u32_le_bytes(n),
{
    out.push((n & 0xff) as u8);
    out.push(((n >> 8u32) & 0xff) as u8);
    out.push(((n >> 16u32) & 0xff) as u8);
    out.push(((n >> 24u32) & 0xff) as u8);
    assert(out@ =~= old(out)@ + u32_le_bytes(n));
}

fn push_i64(out: &mut Vec<u8>, v: i64)
    ensures
        final(out)@ == old(out)@ + i64_le_bytes(v),
{
    proof {
        reveal(i64_le_bytes);
    }
    let x = v as u64;
    out.push((x & 0xff) as u8);
    out.push(((x >> 8u64) & 0xff) as u8);
    out.push(((x >> 16u64) & 0xff) as u8);
    out.push(((x >> 24u64) & 0xff) as u8);
    out.push(((x >> 32u64) & 0xff) as u8);
    out.push(((x >> 40u64) & 0xff) as u8);
    out.push(((x >> 48u64) & 0xff) as u8);
    out.push(((x >> 56u64) & 0xff) as u8);
    assert(out@ =~= old(out)@ + i64_le_bytes(v));
}

fn push_bytes(out: &mut Vec<u8>, b: &[u8])
    ensures
        final(out)@ == old(out)@ + b@,
{
    let mut i: usize = 0;
    while i < b.len()
        invariant
            i <= b@.len(),
            out@ == old(out)@ + b@.subrange(0, i as int),
        decreases b@.len() - i,
    {
        out.push(b[i]);
        i = i + 1;
        assert(out@ =~= old(out)@ + b@.subrange(0, i as int));
    }
    assert(b@.subrange(0, b@.len() as int) =~= b@);
}

fn push_text(out: &mut Vec<u8>, s: &String)
    requires
        text_fits(s@),
    ensures
        final(out)@ == old(out)@ + text_bytes(s@),
{
    proof {
        reveal(text_bytes);
    }
    let b = s.as_str().as_bytes();
    push_u32(out, b.len() as u32);
    push_bytes(out, b);
    assert(out@ =~= old(out)@ + text_bytes(s@));
}

impl Certificate {
    /// The record's bytes.
    pub fn try_to_vec(&self) -> (r: Vec<u8>)
        requires
            valid_record(self@),
        ensures
            r@ == record_bytes(self@),
    {
        let mut out: Vec<u8> = Vec::new();
        push_text(&mut out, &self.student_name);
        push_text(&mut out, &self.course_name);
        push_i64(&mut out, self.issue_date);
        push_bytes(&mut out, self.issuer.bytes.as_slice());
        push_text(&mut out, &self.certificate_id);
        push_text(&mut out, &self.grade);
        out.push(if self.is_revoked { 1u8 } else { 0u8 });
        assert(out@ =~= record_bytes(self@));
        out
    }

    /// Writes the record at the start of `buf` and clears the rest of it;
    /// fails, leaving `buf` as it was, where the record does not fit.
    pub fn serialize(&self, buf: &mut Vec<u8>) -> (r: Result<(), ProgramError>)
        requires
            valid_record(self@),
        ensures
            record_bytes(self@).len() <= old(buf)@.len() ==> r == Ok::<(), ProgramError>(())
                && final(buf)@ == padded(record_bytes(self@), old(buf)@.len()),
            record_bytes(self@).len() > old(buf)@.len() ==> r == Err::<(), ProgramError>(
                ProgramError::AccountDataTooSmall,
            ) && final(buf)@ == old(buf)@,
    {
        let bytes = self.try_to_vec();
        if bytes.len() > buf.len() {
            return Err(ProgramError::AccountDataTooSmall);
        }
        let ghost target = padded(bytes@, buf@.len());
        let mut i: usize = 0;
        while i < buf.len()
            invariant
                bytes@.len() <= buf@.len(),
                buf@.len() == old(buf)@.len(),
                target == padded(bytes@, buf@.len()),
                i <= buf@.len(),
                forall|k: int| 0 <= k < i ==> buf@[k] == target[k],
            decreases buf@.len() - i,
        {
            let v: u8 = if i < bytes.len() { bytes[i] } else { 0u8 };
            buf.set(i, v);
            i = i + 1;
        }
        assert(buf@ =~= target);
        Ok(())
    }

    /// Reads the record that `buf` holds.
    pub fn try_from_slice(buf: &[u8]) -> (r: Result<Certificate, ProgramError>)
        ensures
            match parse_record(buf@) {
                Some(c) => r is Ok && r->Ok_0@ == c,
                None => r == Err::<Certificate, ProgramError>(ProgramError::DecodeError),
            },
    {
        assert(suffix(buf@, 0) =~= buf@);
        let (student_name, pos1) = match read_text_at(buf, 0) {
            Some(x) => x,
            None => return Err(ProgramError::DecodeError),
        };
        let (course_name, pos2) = match read_text_at(buf, pos1) {
            Some(x) => x,
            None => return Err(ProgramError::DecodeError),
        };
        let (issue_date, pos3) = match read_i64_at(buf, pos2) {
            Some(x) => x,
            None => return Err(ProgramError::DecodeError),
        };
        let (issuer, pos4) = match read_key_at(buf, pos3) {
            Some(x) => x,
            None => return Err(ProgramError::DecodeError),
        };
        let (certificate_id, pos5) = match read_text_at(buf, pos4) {
            Some(x) => x,
            None => return Err(ProgramError::DecodeError),
        };
        let (grade, pos6) = match read_text_at(buf, pos5) {
            Some(x) => x,
            None => return Err(ProgramError::DecodeError),
        };
        let (is_revoked, pos7) = match read_bool_at(buf, pos6) {
            Some(x) => x,
            None => return Err(ProgramError::DecodeError),
        };
        if !zero_from(buf, pos7) {
            return Err(ProgramError::DecodeError);
        }
        Ok(
            Certificate {
                student_name,
                course_name,
                issue_date,
                issuer,
                certificate_id,
                grade,
                is_revoked,
            },
        )
    }
}

} // verus!
