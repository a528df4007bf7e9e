//! Byte order of the integers that travel in a frame.
//!
//! The spec functions here say, in plain arithmetic, what a run of bytes means as an
//! integer and back. The reading and writing itself is done by the `byteorder` crate;
//! what is assumed of each of its functions is stated next to it and is not proved.
use byteorder::{BigEndian, ByteOrder, LittleEndian};
use vstd::prelude::*;

verus! {

/// The number whose big-endian representation is the first four bytes of `b`.
pub open spec fn be_u32(b: Seq<u8>) -> u32 {
    (b[0] as int * 0x100_0000 + b[1] as int * 0x1_0000 + b[2] as int * 0x100 + b[3] as int) as u32
}

/// The four bytes of `n`, most significant first.
pub open spec fn be_u32_bytes(n: u32) -> Seq<u8> {
    seq![
        (n as int / 0x100_0000) as u8,
        (n as int / 0x1_0000 % 0x100) as u8,
        (n as int / 0x100 % 0x100) as u8,
        (n as int % 0x100) as u8,
    ]
}

/// The number whose little-endian representation is the first four bytes of `b`.
pub open spec fn le_u32(b: Seq<u8>) -> u32 {
    (b[0] as int + b[1] as int * 0x100 + b[2] as int * 0x1_0000 + b[3] as int * 0x100_0000) as u32
}

/// The four bytes of `n`, least significant first.
pub open spec fn le_u32_bytes(n: u32) -> Seq<u8> {
    seq![
        (n as int % 0x100) as u8,
        (n as int / 0x100 % 0x100) as u8,
        (n as int / 0x1_0000 % 0x100) as u8,
        (n as int / 0x100_0000) as u8,
    ]
}

/// The signed sample whose two's complement representation has `lo` as its low byte
/// and `hi` as its high byte.
pub open spec fn le_i16(lo: u8, hi: u8) -> i16 {
    let v = lo as int + hi as int * 0x100;
    if v < 0x8000 {
        v as i16
    } else {
        (v - 0x1_0000) as i16
    }
}

/// The two's complement representation of `x`, as a number below 65536.
pub open spec fn i16_bits(x: i16) -> int {
    if x < 0 {
        x as int + 0x1_0000
    } else {
        x as int
    }
}

/// The samples that `b` holds two bytes apiece, low byte first. A last odd byte is
/// left out.
pub open spec fn le_i16_seq(b: Seq<u8>) -> Seq<i16> {
    Seq::new(b.len() / 2, |i: int| le_i16(b[2 * i], b[2 * i + 1]))
}

/// The bytes of the samples `s`, two apiece, low byte first.
pub open spec fn le_i16_bytes(s: Seq<i16>) -> Seq<u8> {
    Seq::new(
        2 * s.len(),
        |i: int|
            if i % 2 == 0 {
                (i16_bits(s[i / 2]) % 0x100) as u8
            } else {
                (i16_bits(s[i / 2]) / 0x100) as u8
            },
    )
}

/// Reading back the big-endian bytes of a number gives the number.
pub proof fn lemma_be_u32_round_trip(n: u32)
    ensures
        be_u32_bytes(n).len() == 4,
        be_u32(be_u32_bytes(n)) == n,
{
}

/// Reading back the little-endian bytes of a number gives the number.
pub proof fn lemma_le_u32_round_trip(n: u32)
    ensures
        le_u32_bytes(n).len() == 4,
        le_u32(le_u32_bytes(n)) == n,
{
}

/// Reading back the bytes of a run of samples gives the samples.
pub proof fn lemma_le_i16_round_trip(s: Seq<i16>)
    ensures
        le_i16_bytes(s).len() == 2 * s.len(),
        le_i16_seq(le_i16_bytes(s)) == s,
{
    let b = le_i16_bytes(s);
    assert forall|i: int| 0 <= i < s.len() implies #[trigger] le_i16_seq(b)[i] == s[i] by {
        assert(b[2 * i] == (i16_bits(s[i]) % 0x100) as u8);
        assert(b[2 * i + 1] == (i16_bits(s[i]) / 0x100) as u8);
    }
    assert(le_i16_seq(b) =~= s);
}

/// `byteorder::BigEndian::read_u32`: panics on fewer than four bytes, and else returns
/// the first four read as a big-endian number.
pub assume_specification[ <BigEndian as ByteOrder>::read_u32 ](buf: &[u8]) -> (n: u32)
    requires
        buf@.len() >= 4,
    ensures
        n == be_u32(buf@),
;

/// `byteorder::BigEndian::write_u32`: panics on fewer than four bytes, and else
/// overwrites the first four with the big-endian bytes of `n` and leaves the rest.
pub assume_specification[ <BigEndian as ByteOrder>::write_u32 ](buf: &mut [u8], n: u32)
    requires
        old(buf)@.len() >= 4,
    ensures
        final(buf)@ == be_u32_bytes(n) + old(buf)@.subrange(4, old(buf)@.len() as int),
;

/// `byteorder::LittleEndian::read_u32`: panics on fewer than four bytes, and else
/// returns the first four read as a little-endian number.
pub assume_specification[ <LittleEndian as ByteOrder>::read_u32 ](buf: &[u8]) -> (n: u32)
    requires
        buf@.len() >= 4,
    ensures
        n == le_u32(buf@),
;

/// `byteorder::LittleEndian::write_u32`: panics on fewer than four bytes, and else
/// overwrites the first four with the little-endian bytes of `n` and leaves the rest.
pub assume_specification[ <LittleEndian as ByteOrder>::write_u32 ](buf: &mut [u8], n: u32)
    requires
        old(buf)@.len() >= 4,
    ensures
        final(buf)@ == le_u32_bytes(n) + old(buf)@.subrange(4, old(buf)@.len() as int),
;

/// `byteorder::LittleEndian::read_i16_into`: panics unless `src` has exactly two bytes
/// for each place of `dst`, and else fills `dst` with the samples of `src`, low byte
/// first.
#[verifier::external_body]
pub(crate) fn read_i16_into(src: &[u8], dst: &mut [i16])
    requires
        src@.len() == 2 * old(dst)@.len(),
    ensures
        final(dst)@ == le_i16_seq(src@),
{
    LittleEndian::read_i16_into(src, dst)
}

/// `byteorder::LittleEndian::write_i16_into`: panics unless `dst` has exactly two
/// bytes for each sample of `src`, and else fills `dst` with the bytes of the samples,
/// low byte first.
#[verifier::external_body]
pub(crate) fn write_i16_into(src: &[i16], dst: &mut [u8])
    requires
        old(dst)@.len() == 2 * src@.len(),
    ensures
        final(dst)@ == le_i16_bytes(src@),
{
    LittleEndian::write_i16_into(src, dst)
}

} // verus!
