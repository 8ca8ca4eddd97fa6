//! A cursor over bytes held in memory, and the big-endian numerals read
//! through it.

use crate::Error;
use byteorder::BigEndian;
use byteorder::ReadBytesExt;
use vstd::arithmetic::power2::lemma2_to64;
use vstd::arithmetic::power2::lemma_pow2_adds;
use vstd::arithmetic::power2::pow2;
use vstd::prelude::*;
use vstd::slice::slice_subrange;

verus! {

/// The number that `octets` spell as a big-endian base-256 numeral.
pub open spec fn be_uint(octets: Seq<u8>) -> nat
    decreases octets.len(),
{
    if octets.len() == 0 {
        0
    } else {
        be_uint(octets.drop_last()) * 256 + octets.last() as nat
    }
}

/// The `width` octets of `bytes` that start at `at`, as a big-endian number.
pub open spec fn be_uint_at(bytes: Seq<u8>, at: int, width: int) -> nat {
    be_uint(bytes.subrange(at, at + width))
}

/// A numeral of one octet is that octet.
pub proof fn lemma_be_uint_1(s: Seq<u8>)
    requires
        s.len() == 1,
    ensures
        be_uint(s) == s[0],
{
    reveal_with_fuel(be_uint, 2);
}

/// A numeral of two octets, octet by octet.
pub proof fn lemma_be_uint_2(s: Seq<u8>)
    requires
        s.len() == 2,
    ensures
        be_uint(s) == s[0] * 0x100 + s[1],
{
    reveal_with_fuel(be_uint, 3);
}

/// A numeral of three octets, octet by octet.
pub proof fn lemma_be_uint_3(s: Seq<u8>)
    requires
        s.len() == 3,
    ensures
        be_uint(s) == s[0] * 0x1_0000 + s[1] * 0x100 + s[2],
{
    reveal_with_fuel(be_uint, 4);
}

/// A numeral of four octets, octet by octet.
pub proof fn lemma_be_uint_4(s: Seq<u8>)
    requires
        s.len() == 4,
    ensures
        be_uint(s) == s[0] * 0x100_0000 + s[1] * 0x1_0000 + s[2] * 0x100 + s[3],
{
    reveal_with_fuel(be_uint, 5);
}

/// A numeral of eight octets, octet by octet.
pub proof fn lemma_be_uint_8(s: Seq<u8>)
    requires
        s.len() == 8,
    ensures
        be_uint(s) == s[0] * 0x100_0000_0000_0000 + s[1] * 0x1_0000_0000_0000 + s[2]
            * 0x100_0000_0000 + s[3] * 0x1_0000_0000 + s[4] * 0x100_0000 + s[5] * 0x1_0000 + s[6]
            * 0x100 + s[7],
{
    reveal_with_fuel(be_uint, 9);
}

/// A numeral of `n` octets is below 256 to the `n`.
pub proof fn lemma_be_uint_bound(s: Seq<u8>)
    ensures
        be_uint(s) < pow2(8 * s.len()),
    decreases s.len(),
{
    lemma2_to64();
    if s.len() > 0 {
        lemma_be_uint_bound(s.drop_last());
        lemma_pow2_adds((8 * (s.len() - 1)) as nat, 8);
        assert((be_uint(s.drop_last()) + 1) * 256 <= pow2((8 * (s.len() - 1)) as nat) * 256)
            by (nonlinear_arith)
            requires
                be_uint(s.drop_last()) + 1 <= pow2((8 * (s.len() - 1)) as nat),
        ;
    }
}

/// `byteorder::ReadBytesExt::read_u8` on a byte slice: the first byte, or a
/// failure where the slice is empty.
#[verifier::external_body]
fn first_u8(bytes: &[u8]) -> (r: Result<u8, std::io::Error>)
    ensures
        r is Ok <==> bytes@.len() >= 1,
        r matches Ok(v) ==> v == bytes@[0],
{
    let mut rest = bytes;
    rest.read_u8()
}

/// `byteorder::ReadBytesExt::read_u16::<BigEndian>` on a byte slice: the
/// first two bytes as a big-endian number, or a failure where the slice holds
/// fewer.
#[verifier::external_body]
fn first_u16(bytes: &[u8]) -> (r: Result<u16, std::io::Error>)
    ensures
        r is Ok <==> bytes@.len() >= 2,
        r matches Ok(v) ==> v == bytes@[0] * 0x100 + bytes@[1],
{
    let mut rest = bytes;
    rest.read_u16::<BigEndian>()
}

/// `byteorder::ReadBytesExt::read_u24::<BigEndian>` on a byte slice: the
/// first three bytes as a big-endian number, or a failure where the slice
/// holds fewer.
#[verifier::external_body]
fn first_u24(bytes: &[u8]) -> (r: Result<u32, std::io::Error>)
    ensures
        r is Ok <==> bytes@.len() >= 3,
        r matches Ok(v) ==> v == bytes@[0] * 0x1_0000 + bytes@[1] * 0x100 + bytes@[2],
{
    let mut rest = bytes;
    rest.read_u24::<BigEndian>()
}

/// `byteorder::ReadBytesExt::read_u32::<BigEndian>` on a byte slice: the
/// first four bytes as a big-endian number, or a failure where the slice
/// holds fewer.
#[verifier::external_body]
fn first_u32(bytes: &[u8]) -> (r: Result<u32, std::io::Error>)
    ensures
        r is Ok <==> bytes@.len() >= 4,
        r matches Ok(v) ==> v == bytes@[0] * 0x100_0000 + bytes@[1] * 0x1_0000 + bytes@[2] * 0x100
            + bytes@[3],
{
    let mut rest = bytes;
    rest.read_u32::<BigEndian>()
}

/// `byteorder::ReadBytesExt::read_u64::<BigEndian>` on a byte slice: the
/// first eight bytes as a big-endian number, or a failure where the slice
/// holds fewer.
#[verifier::external_body]
fn first_u64(bytes: &[u8]) -> (r: Result<u64, std::io::Error>)
    ensures
        r is Ok <==> bytes@.len() >= 8,
        r matches Ok(v) ==> v == bytes@[0] * 0x100_0000_0000_0000 + bytes@[1]
            * 0x1_0000_0000_0000 + bytes@[2] * 0x100_0000_0000 + bytes@[3] * 0x1_0000_0000
            + bytes@[4] * 0x100_0000 + bytes@[5] * 0x1_0000 + bytes@[6] * 0x100 + bytes@[7],
{
    let mut rest = bytes;
    rest.read_u64::<BigEndian>()
}

/// `std::io::Error::from` on `ErrorKind::UnexpectedEof`: the error of a read
/// that met the end of the bytes.
#[verifier::external_body]
fn unexpected_eof() -> std::io::Error {
    std::io::Error::from(std::io::ErrorKind::UnexpectedEof)
}

/// A read position in a sequence of bytes.
#[derive(Debug)]
pub struct ByteReader<'a> {
    data: &'a [u8],
    pos: usize,
}

/// A reader's position is never negative.
pub broadcast proof fn lemma_offset_natural(reader: ByteReader<'_>)
    ensures
        0 <= #[trigger] reader.offset(),
{
}

impl<'a> ByteReader<'a> {
    /// The position lies within the bytes.
    #[verifier::type_invariant]
    pub open spec fn in_bounds(self) -> bool {
        0 <= self.offset() <= self.bytes().len()
    }

    /// All the bytes the reader was made from.
    pub closed spec fn bytes(self) -> Seq<u8> {
        self.data@
    }

    /// How many of them have been read.
    pub closed spec fn offset(self) -> int {
        self.pos as int
    }

    /// How many are left to read.
    pub open spec fn unread(self) -> int {
        self.bytes().len() - self.offset()
    }

    /// The reader moved `n` bytes on, over the same bytes.
    pub open spec fn advanced(self, before: Self, n: int) -> bool {
        &&& self.bytes() == before.bytes()
        &&& self.offset() == before.offset() + n
    }

    /// A reader at the start of `data`.
    pub fn new(data: &'a [u8]) -> (r: Self)
        ensures
            r.bytes() == data@,
            r.offset() == 0,
    {
        ByteReader { data, pos: 0 }
    }

    /// The number of bytes read so far.
    pub fn position(&self) -> (n: usize)
        ensures
            n == self.offset(),
            n <= self.bytes().len(),
    {
        proof {
            use_type_invariant(self);
        }
        self.pos
    }

    /// The number of bytes left to read.
    pub fn remaining(&self) -> (n: usize)
        ensures
            n == self.unread(),
    {
        proof {
            use_type_invariant(self);
        }
        self.data.len() - self.pos
    }

    /// The bytes left to read.
    pub fn rest(&self) -> (r: &'a [u8])
        ensures
            r@ == self.bytes().skip(self.offset()),
    {
        proof {
            use_type_invariant(self);
        }
        slice_subrange(self.data, self.pos, self.data.len())
    }

    /// Moves `n` bytes on.
    pub(crate) fn advance(&mut self, n: usize)
        requires
            n <= old(self).unread(),
        ensures
            final(self).advanced(*old(self), n as int),
    {
        proof {
            use_type_invariant(&*self);
            vstd::slice::axiom_spec_len(self.data);
        }
        self.pos = self.pos + n;
    }

    /// Splits off the next `n` bytes as a reader of their own and moves past
    /// them; fails, without moving, where fewer are left.
    pub fn take(&mut self, n: usize) -> (r: Result<ByteReader<'a>, Error>)
        ensures
            n <= old(self).unread() ==> final(self).advanced(*old(self), n as int) && (r matches Ok(
                part,
            ) && part.offset() == 0 && part.bytes() == old(self).bytes().subrange(
                old(self).offset(),
                old(self).offset() + n,
            )),
            n > old(self).unread() ==> (r matches Err(Error::IO(_))) && *final(self) == *old(self),
    {
        proof {
            use_type_invariant(&*self);
        }
        if n <= self.data.len() - self.pos {
            let part = slice_subrange(self.data, self.pos, self.pos + n);
            self.pos = self.pos + n;
            Ok(ByteReader { data: part, pos: 0 })
        } else {
            Err(Error::IO(unexpected_eof()))
        }
    }

    /// Reads one octet.
    pub fn read_u8(&mut self) -> (r: Result<u8, Error>)
        ensures
            final(self).bytes() == old(self).bytes(),
            old(self).unread() >= 1 ==> (r matches Ok(v) && v == be_uint_at(
                old(self).bytes(),
                old(self).offset(),
                1,
            )) && final(self).advanced(*old(self), 1),
            old(self).unread() < 1 ==> (r matches Err(Error::IO(_))) && *final(self) == *old(self),
    {
        proof {
            use_type_invariant(&*self);
        }
        match first_u8(slice_subrange(self.data, self.pos, self.data.len())) {
            Ok(v) => {
                proof {
                    lemma_be_uint_1(self.data@.subrange(self.pos as int, self.pos + 1));
                }
                self.pos = self.pos + 1;
                Ok(v)
            },
            Err(e) => Err(Error::IO(e)),
        }
    }

    /// Reads two octets as a big-endian number.
    pub fn read_u16(&mut self) -> (r: Result<u16, Error>)
        ensures
            final(self).bytes() == old(self).bytes(),
            old(self).unread() >= 2 ==> (r matches Ok(v) && v == be_uint_at(
                old(self).bytes(),
                old(self).offset(),
                2,
            )) && final(self).advanced(*old(self), 2),
            old(self).unread() < 2 ==> (r matches Err(Error::IO(_))) && *final(self) == *old(self),
    {
        proof {
            use_type_invariant(&*self);
        }
        match first_u16(slice_subrange(self.data, self.pos, self.data.len())) {
            Ok(v) => {
                proof {
                    lemma_be_uint_2(self.data@.subrange(self.pos as int, self.pos + 2));
                }
                self.pos = self.pos + 2;
                Ok(v)
            },
            Err(e) => Err(Error::IO(e)),
        }
    }

    /// Reads three octets as a big-endian number.
    pub fn read_u24(&mut self) -> (r: Result<u32, Error>)
        ensures
            final(self).bytes() == old(self).bytes(),
            old(self).unread() >= 3 ==> (r matches Ok(v) && v == be_uint_at(
                old(self).bytes(),
                old(self).offset(),
                3,
            )) && final(self).advanced(*old(self), 3),
            old(self).unread() < 3 ==> (r matches Err(Error::IO(_))) && *final(self) == *old(self),
    {
        proof {
            use_type_invariant(&*self);
        }
        match first_u24(slice_subrange(self.data, self.pos, self.data.len())) {
            Ok(v) => {
                proof {
                    lemma_be_uint_3(self.data@.subrange(self.pos as int, self.pos + 3));
                }
                self.pos = self.pos + 3;
                Ok(v)
            },
            Err(e) => Err(Error::IO(e)),
        }
    }

    /// Reads four octets as a big-endian number.
    pub fn read_u32(&mut self) -> (r: Result<u32, Error>)
        ensures
            final(self).bytes() == old(self).bytes(),
            old(self).unread() >= 4 ==> (r matches Ok(v) && v == be_uint_at(
                old(self).bytes(),
                old(self).offset(),
                4,
            )) && final(self).advanced(*old(self), 4),
            old(self).unread() < 4 ==> (r matches Err(Error::IO(_))) && *final(self) == *old(self),
    {
        proof {
            use_type_invariant(&*self);
        }
        match first_u32(slice_subrange(self.data, self.pos, self.data.len())) {
            Ok(v) => {
                proof {
                    lemma_be_uint_4(self.data@.subrange(self.pos as int, self.pos + 4));
                }
                self.pos = self.pos + 4;
                Ok(v)
            },
            Err(e) => Err(Error::IO(e)),
        }
    }

    /// Reads eight octets as a big-endian number.
    pub fn read_u64(&mut self) -> (r: Result<u64, Error>)
        ensures
            final(self).bytes() == old(self).bytes(),
            old(self).unread() >= 8 ==> (r matches Ok(v) && v == be_uint_at(
                old(self).bytes(),
                old(self).offset(),
                8,
            )) && final(self).advanced(*old(self), 8),
            old(self).unread() < 8 ==> (r matches Err(Error::IO(_))) && *final(self) == *old(self),
    {
        proof {
            use_type_invariant(&*self);
        }
        match first_u64(slice_subrange(self.data, self.pos, self.data.len())) {
            Ok(v) => {
                proof {
                    lemma_be_uint_8(self.data@.subrange(self.pos as int, self.pos + 8));
                }
                self.pos = self.pos + 8;
                Ok(v)
            },
            Err(e) => Err(Error::IO(e)),
        }
    }
}

} // verus!
