//! Bits of a byte sequence, most significant first, and the bit reader that
//! walks them.

use bitstream_io::BigEndian;
use bitstream_io::BitRead;
use bitstream_io::BitReader;
use vstd::arithmetic::power2::pow2;
use vstd::prelude::*;

verus! {

/// The bits of `bytes`, each byte from its most significant bit down.
pub open spec fn bytes_bits(bytes: Seq<u8>) -> Seq<bool> {
    Seq::new(8 * bytes.len(), |i: int| (bytes[i / 8] as nat / pow2((7 - i % 8) as nat)) % 2 == 1)
}

/// The number that `bits` spell, most significant bit first.
pub open spec fn bits_value(bits: Seq<bool>) -> nat
    decreases bits.len(),
{
    if bits.len() == 0 {
        0
    } else {
        2 * bits_value(bits.drop_last()) + if bits.last() {
            1nat
        } else {
            0nat
        }
    }
}

/// What is left of `bits` behind the next byte boundary. The bits are the
/// tail of whole bytes, so the boundary is where a multiple of eight is left.
pub open spec fn aligned(bits: Seq<bool>) -> Seq<bool> {
    bits.skip(bits.len() as int % 8)
}

/// A `bitstream_io::BitReader` over a byte slice, most significant bit first.
#[verifier::external_body]
pub struct BitCursor<'a> {
    inner: BitReader<&'a [u8], BigEndian>,
}

/// The bits that a bit reader has not handed out yet: what is left of the
/// byte it is in, then the bits of the bytes behind it.
pub uninterp spec fn unread_bits(reader: BitCursor<'_>) -> Seq<bool>;

/// `bitstream_io::BitReader::new` on a byte slice: a reader that has all the
/// bits of the slice before it.
#[verifier::external_body]
pub(crate) fn bit_reader<'a>(bytes: &'a [u8]) -> (r: BitCursor<'a>)
    ensures
        unread_bits(r) == bytes_bits(bytes@),
{
    BitCursor { inner: BitReader::new(bytes) }
}

/// `bitstream_io::BitRead::read_var::<u32>`: the next `bits` bits as a
/// number, most significant first. It fails where `bits` is over 32 or more
/// than the bits that are left; after a failure nothing is known of the
/// reader.
#[verifier::external_body]
pub(crate) fn read_bits(reader: &mut BitCursor<'_>, bits: u32) -> (r: Result<u32, std::io::Error>)
    ensures
        r is Ok <==> bits <= 32 && bits <= unread_bits(*old(reader)).len(),
        r matches Ok(v) ==> v == bits_value(unread_bits(*old(reader)).take(bits as int))
            && unread_bits(*final(reader)) == unread_bits(*old(reader)).skip(bits as int),
{
    reader.inner.read_var::<u32>(bits)
}

/// `bitstream_io::BitRead::byte_align`: drops what is left of the byte the
/// reader is in.
#[verifier::external_body]
pub(crate) fn byte_align(reader: &mut BitCursor<'_>)
    ensures
        unread_bits(*final(reader)) == aligned(unread_bits(*old(reader))),
{
    reader.inner.byte_align()
}

/// `bitstream_io::BitReader::into_reader`: the bytes behind the byte the
/// reader is in.
#[verifier::external_body]
pub(crate) fn into_rest<'a>(reader: BitCursor<'a>) -> (rest: &'a [u8])
    ensures
        bytes_bits(rest@) == aligned(unread_bits(reader)),
{
    reader.inner.into_reader()
}

/// A 32-bit pattern read as two's complement.
pub open spec fn as_signed(v: u32) -> i32 {
    if v < 0x8000_0000 {
        v as i32
    } else {
        (v - 0x1_0000_0000) as i32
    }
}

/// The 32-bit pattern of a two's complement number.
pub open spec fn as_unsigned(v: i32) -> u32 {
    if v >= 0 {
        v as u32
    } else {
        (v + 0x1_0000_0000) as u32
    }
}

pub(crate) fn to_signed(v: u32) -> (r: i32)
    ensures
        r == as_signed(v),
{
    assert(v as i32 == if v < 0x8000_0000 {
        v as int
    } else {
        v as int - 0x1_0000_0000
    }) by (bit_vector);
    #[verifier::truncate]
    (v as i32)
}

} // verus!
