use vstd::prelude::*;
use vstd::utf8::encode_utf8;

verus! {

/// Lengths below this take a single byte.
pub const LEN_6BIT_LIMIT: u64 = 64;

/// Lengths below this (and at least `LEN_6BIT_LIMIT`) take two bytes.
pub const LEN_14BIT_LIMIT: u64 = 16384;

/// Lengths below this (and at least `LEN_14BIT_LIMIT`) take a marker and four bytes.
pub const LEN_32BIT_LIMIT: u64 = 0xffff_ffff;

/// Marker byte of a length stored in the next four bytes.
pub const RDB_32BITLEN: u8 = 0x80;

/// Marker byte of a length stored in the next eight bytes.
pub const RDB_64BITLEN: u8 = 0x81;

/// The byte of `n` that sits `shift` bits up.
pub open spec fn byte_at(n: u64, shift: u64) -> u8 {
    ((n >> shift) & 0xff) as u8
}

/// `n` as four bytes, most significant first.
pub open spec fn be32(n: u64) -> Seq<u8> {
    seq![byte_at(n, 24), byte_at(n, 16), byte_at(n, 8), byte_at(n, 0)]
}

/// `n` as eight bytes, most significant first.
pub open spec fn be64(n: u64) -> Seq<u8> {
    seq![byte_at(n, 56), byte_at(n, 48), byte_at(n, 40), byte_at(n, 32)] + be32(n)
}

/// `n` as eight bytes, least significant first.
pub open spec fn le64(n: u64) -> Seq<u8> {
    seq![
        byte_at(n, 0), byte_at(n, 8), byte_at(n, 16), byte_at(n, 24),
        byte_at(n, 32), byte_at(n, 40), byte_at(n, 48), byte_at(n, 56),
    ]
}

/// The variable-width length prefix of the RDB format.
pub open spec fn length_encoding(n: u64) -> Seq<u8> {
    if n < LEN_6BIT_LIMIT {
        seq![n as u8]
    } else if n < LEN_14BIT_LIMIT {
        seq![(0x40u64 | (n >> 8u64)) as u8, byte_at(n, 0)]
    } else if n < LEN_32BIT_LIMIT {
        seq![RDB_32BITLEN] + be32(n)
    } else {
        seq![RDB_64BITLEN] + be64(n)
    }
}

/// A string as stored in the RDB format: its UTF-8 byte count, then those bytes.
pub open spec fn string_encoding(s: Seq<char>) -> Seq<u8> {
    length_encoding(encode_utf8(s).len() as u64) + encode_utf8(s)
}

/// Appends the four bytes of `n`, most significant first.
fn push_be32(out: &mut Vec<u8>, n: u64)
    ensures
        final(out)@ == old(out)@ + be32(n),
{
    out.push(((n >> 24u64) & 0xff) as u8);
    out.push(((n >> 16u64) & 0xff) as u8);
    out.push(((n >> 8u64) & 0xff) as u8);
    out.push((n & 0xff) as u8);
    assert(n >> 0u64 == n) by (bit_vector);
    assert(final(out)@ =~= old(out)@ + be32(n));
}

/// Encodes a length with the RDB format's four size classes.
pub fn encode_length(length: u64) -> (r: Vec<u8>)
    ensures
        r@ == length_encoding(length),
{
    let mut out: Vec<u8> = Vec::new();
    if length < LEN_6BIT_LIMIT {
        out.push(length as u8);
    } else if length < LEN_14BIT_LIMIT {
        out.push((0x40u64 | (length >> 8u64)) as u8);
        out.push((length & 0xff) as u8);
        assert(length >> 0u64 == length) by (bit_vector);
    } else if length < LEN_32BIT_LIMIT {
        out.push(RDB_32BITLEN);
        push_be32(&mut out, length);
    } else {
        out.push(RDB_64BITLEN);
        out.push(((length >> 56u64) & 0xff) as u8);
        out.push(((length >> 48u64) & 0xff) as u8);
        out.push(((length >> 40u64) & 0xff) as u8);
        out.push(((length >> 32u64) & 0xff) as u8);
        push_be32(&mut out, length);
    }
    assert(out@ =~= length_encoding(length));
    out
}

/// Encodes a string as its length prefix followed by its UTF-8 bytes.
pub fn encode_string(value: &String) -> (r: Vec<u8>)
    ensures
        r@ == string_encoding(value@),
{
    let bytes: &[u8] = value.as_str().as_bytes();
    let mut out = encode_length(bytes.len() as u64);
    let mut i: usize = 0;
    while i < bytes.len()
        invariant
            bytes@ == encode_utf8(value@),
            out@ == length_encoding(bytes@.len() as u64) + bytes@.subrange(0, i as int),
            i <= bytes@.len(),
        decreases bytes@.len() - i,
    {
        out.push(bytes[i]);
        i = i + 1;
        assert(out@ =~= length_encoding(bytes@.len() as u64) + bytes@.subrange(0, i as int));
    }
    assert(bytes@.subrange(0, i as int) =~= bytes@);
    out
}

/// How many bytes the length prefix of `n` takes: one below 2^6, two below
/// 2^14, five below 2^32 - 1, and nine from there on.
pub proof fn lemma_length_encoding_size(n: u64)
    ensures
        length_encoding(n).len() == (if n < 64 {
            1int
        } else if n < 16384 {
            2int
        } else if n < 0xffff_ffff {
            5int
        } else {
            9int
        }),
{
}

} // verus!
