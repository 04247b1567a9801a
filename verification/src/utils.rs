//! Big-endian encoding of the 16-bit values that the protocol carries.

use byteorder::{BigEndian, ByteOrder};
use vstd::prelude::*;
use vstd::slice::slice_subrange;

verus! {

/// The two's-complement bit pattern of `v`, read as an unsigned number.
pub open spec fn u16_pattern(v: i16) -> int {
    if v < 0 {
        v + 65536
    } else {
        v as int
    }
}

/// The two bytes of `v`, most significant first.
pub open spec fn i16_to_be(v: i16) -> Seq<u8> {
    seq![(u16_pattern(v) / 256) as u8, (u16_pattern(v) % 256) as u8]
}

/// The value whose big-endian bytes are `hi`, `lo`.
pub open spec fn i16_from_be(hi: u8, lo: u8) -> i16 {
    let u = hi * 256 + lo;
    if u >= 32768 {
        (u - 65536) as i16
    } else {
        u as i16
    }
}

/// The signed value of a single byte.
pub open spec fn i8_from_byte(b: u8) -> i8 {
    if b >= 128 {
        (b - 256) as i8
    } else {
        b as i8
    }
}

/// The values of `s`, each as two big-endian bytes, one after another.
pub open spec fn encode_i16_seq(s: Seq<i16>) -> Seq<u8> {
    Seq::new(2 * s.len(), |k: int| i16_to_be(s[k / 2])[k % 2])
}

/// The values that consecutive pairs of big-endian bytes of `b` stand for.
pub open spec fn decode_i16_seq(b: Seq<u8>) -> Seq<i16> {
    Seq::new(b.len() / 2, |i: int| i16_from_be(b[2 * i], b[2 * i + 1]))
}

/// `BigEndian::write_i16` of byteorder: writes the two bytes of `n` into
/// `buf`, most significant first.
#[verifier::external_body]
fn be_write_i16(buf: &mut [u8; 2], n: i16)
    ensures
        final(buf)@ == i16_to_be(n),
{
    BigEndian::write_i16(buf, n)
}

/// `BigEndian::read_i16` of byteorder: the value whose big-endian bytes are
/// the first two of `buf` (it panics on a shorter buffer).
#[verifier::external_body]
fn be_read_i16(buf: &[u8]) -> (r: i16)
    requires
        buf@.len() >= 2,
    ensures
        r == i16_from_be(buf@[0], buf@[1]),
{
    BigEndian::read_i16(buf)
}

/// The big-endian bytes of `data`.
pub fn encode_int16(data: i16) -> (r: [u8; 2])
    ensures
        r@ == i16_to_be(data),
{
    let mut buf = [0u8;2];
    be_write_i16(&mut buf, data);
    buf
}

/// The big-endian bytes of every value of `data`, in order.
pub fn encode_int16_vec(data: &[i16]) -> (r: Vec<u8>)
    ensures
        r@ == encode_i16_seq(data@),
{
    let mut buf: Vec<u8> = Vec::new();
    let mut i: usize = 0;
    while i < data.len()
        invariant
            i <= data.len(),
            buf@ == encode_i16_seq(data@.take(i as int)),
        decreases data.len() - i,
    {
        let bytes = encode_int16(data[i]);
        buf.push(bytes[0]);
        buf.push(bytes[1]);
        i = i + 1;
        assert(buf@ =~= encode_i16_seq(data@.take(i as int)));
    }
    assert(data@.take(i as int) =~= data@);
    buf
}

/// The value of the first two bytes of `data`, read big-endian.
pub fn decode_int16(data: &[u8]) -> (r: i16)
    requires
        data@.len() >= 2,
    ensures
        r == i16_from_be(data@[0], data@[1]),
{
    be_read_i16(data)
}

/// The first byte of `data`, read as a signed value.
pub fn decode_int8(data: &[u8]) -> (r: i8)
    requires
        data@.len() >= 1,
    ensures
        r == i8_from_byte(data@[0]),
{
    let b = data[0];
    if b >= 128 {
        (b as i16 - 256) as i8
    } else {
        b as i8
    }
}

/// The values of consecutive big-endian byte pairs of `data`.
pub fn decode_int16_vec(data: &[u8]) -> (r: Vec<i16>)
    requires
        data@.len() % 2 == 0,
    ensures
        r@ == decode_i16_seq(data@),
{
    let mut res: Vec<i16> = Vec::new();
    let mut idx: usize = 0;
    while idx < data.len()
        invariant
            idx <= data.len(),
            idx % 2 == 0,
            data@.len() % 2 == 0,
            res@ =~= decode_i16_seq(data@.take(idx as int)),
        decreases data.len() - idx,
    {
        let pair = slice_subrange(data, idx, idx + 2);
        res.push(be_read_i16(pair));
        idx = idx + 2;
        assert(res@ =~= decode_i16_seq(data@.take(idx as int)));
    }
    assert(data@.take(idx as int) =~= data@);
    res
}

/// Decoding the big-endian bytes of a value gives the value back.
pub proof fn lemma_i16_be_roundtrip(v: i16)
    ensures
        i16_to_be(v).len() == 2,
        i16_from_be(i16_to_be(v)[0], i16_to_be(v)[1]) == v,
{
}

/// Encoding the value that two bytes stand for gives the two bytes back.
pub proof fn lemma_be_i16_roundtrip(hi: u8, lo: u8)
    ensures
        i16_to_be(i16_from_be(hi, lo)) == seq![hi, lo],
{
    assert(i16_to_be(i16_from_be(hi, lo)) =~= seq![hi, lo]);
}

/// Decoding an encoded sequence of values gives the values back.
pub proof fn lemma_i16_seq_roundtrip(s: Seq<i16>)
    ensures
        encode_i16_seq(s).len() == 2 * s.len(),
        decode_i16_seq(encode_i16_seq(s)) == s,
{
    let e = encode_i16_seq(s);
    assert forall|i: int| 0 <= i < s.len() implies #[trigger] decode_i16_seq(e)[i] == s[i] by {
        assert((2 * i) / 2 == i);
        assert((2 * i + 1) / 2 == i);
        assert((2 * i) % 2 == 0);
        assert((2 * i + 1) % 2 == 1);
        lemma_i16_be_roundtrip(s[i]);
    }
    assert(decode_i16_seq(e) =~= s);
}

/// Encoding the values that a byte string of even length stands for gives the
/// byte string back.
pub proof fn lemma_bytes_seq_roundtrip(b: Seq<u8>)
    requires
        b.len() % 2 == 0,
    ensures
        encode_i16_seq(decode_i16_seq(b)) == b,
{
    let d = decode_i16_seq(b);
    assert forall|k: int| 0 <= k < b.len() implies #[trigger] encode_i16_seq(d)[k] == b[k] by {
        let i = k / 2;
        lemma_be_i16_roundtrip(b[2 * i], b[2 * i + 1]);
    }
    assert(encode_i16_seq(d) =~= b);
}

} // verus!

verus! {

/// The two bytes of a value are its two's-complement bit pattern, most
/// significant byte first: high byte times 256 plus low byte is the value
/// modulo 65536.
pub proof fn lemma_i16_to_be_is_big_endian(v: i16)
    ensures
        i16_to_be(v).len() == 2,
        0 <= (i16_to_be(v)[0] as int) * 256 + (i16_to_be(v)[1] as int) < 65536,
        ((i16_to_be(v)[0] as int) * 256 + (i16_to_be(v)[1] as int) - v) % 65536 == 0,
{
}

/// Two bytes, most significant first, stand for the signed value of their
/// 16-bit pattern.
pub proof fn lemma_i16_from_be_is_signed(hi: u8, lo: u8)
    ensures
        hi < 128 ==> i16_from_be(hi, lo) as int == hi * 256 + lo,
        hi >= 128 ==> i16_from_be(hi, lo) as int == hi * 256 + lo - 65536,
{
}

/// A single byte stands for its signed value.
pub proof fn lemma_i8_from_byte_is_signed(b: u8)
    ensures
        b < 128 ==> i8_from_byte(b) as int == b as int,
        b >= 128 ==> i8_from_byte(b) as int == b - 256,
{
}

} // verus!

verus! {

/// The encoding of a list of values is two bytes per value, in order: bytes
/// 2i and 2i+1 are value i's bit pattern, most significant first.
pub proof fn lemma_encode_i16_seq_layout(s: Seq<i16>)
    ensures
        encode_i16_seq(s).len() == 2 * s.len(),
        forall|i: int|
            0 <= i < s.len() ==> 0 <= (#[trigger] encode_i16_seq(s)[2 * i]) as int * 256
                + (encode_i16_seq(s)[2 * i + 1] as int) < 65536,
        forall|i: int|
            0 <= i < s.len() ==> ((#[trigger] encode_i16_seq(s)[2 * i]) as int * 256 + (
            encode_i16_seq(s)[2 * i + 1] as int) - s[i]) % 65536 == 0,
{
    assert forall|i: int| 0 <= i < s.len() implies ((#[trigger] encode_i16_seq(s)[2 * i]) as int
        * 256 + (encode_i16_seq(s)[2 * i + 1] as int) - s[i]) % 65536 == 0 && 0 <= (
    encode_i16_seq(s)[2 * i]) as int * 256 + (encode_i16_seq(s)[2 * i + 1] as int) < 65536 by {
        assert((2 * i) / 2 == i);
        assert((2 * i + 1) / 2 == i);
        assert((2 * i) % 2 == 0);
        assert((2 * i + 1) % 2 == 1);
        lemma_i16_to_be_is_big_endian(s[i]);
    }
}

/// Decoding a byte string gives one value per pair of bytes: value i is the
/// signed value of the pattern of bytes 2i and 2i+1, most significant first.
pub proof fn lemma_decode_i16_seq_layout(b: Seq<u8>)
    ensures
        decode_i16_seq(b).len() == b.len() / 2,
        forall|i: int|
            0 <= i < b.len() / 2 && b[2 * i] < 128 ==> (#[trigger] decode_i16_seq(b)[i]) as int
                == b[2 * i] * 256 + b[2 * i + 1],
        forall|i: int|
            0 <= i < b.len() / 2 && b[2 * i] >= 128 ==> (#[trigger] decode_i16_seq(b)[i]) as int
                == b[2 * i] * 256 + b[2 * i + 1] - 65536,
{
}

} // verus!
