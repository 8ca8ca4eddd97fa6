//! The records of the supported templates and the typed primitives that they
//! are made of. Every number is big-endian; a signed one is a sign bit over a
//! magnitude, not two's complement.

pub mod data;
pub mod data_representation;
pub mod grid_definition;
pub mod product_definition;

pub use data::read_data_7_0;
pub use data::read_data_7_200;
pub use data::read_data_7_3;
pub use data_representation::DataRepresentationTemplate5_0;
pub use data_representation::DataRepresentationTemplate5_2;
pub use data_representation::DataRepresentationTemplate5_200;
pub use data_representation::DataRepresentationTemplate5_3;
pub use grid_definition::GridDefinitionTemplate3_0;
pub use product_definition::ProductDefinitionTemplate4_0;
pub use product_definition::ProductDefinitionTemplate4_1;
pub use product_definition::ProductDefinitionTemplate4_11;
pub use product_definition::ProductDefinitionTemplate4_50000;
pub use product_definition::ProductDefinitionTemplate4_50011;
pub use product_definition::ProductDefinitionTemplate4_50031;
pub use product_definition::ProductDefinitionTemplate4_8;
pub use product_definition::TimeInterval;
pub use product_definition::TimeRange;

use crate::bytes::be_uint;
use crate::bytes::lemma_be_uint_1;
use crate::bytes::lemma_be_uint_bound;
use crate::bytes::ByteReader;
use crate::Error;
use vstd::arithmetic::power2::lemma2_to64;
use vstd::arithmetic::power2::lemma_pow2_adds;
use vstd::arithmetic::power2::lemma_pow2_pos;
use vstd::arithmetic::power2::pow2;
use vstd::prelude::*;

verus! {

broadcast use crate::bytes::lemma_offset_natural;

/// The signed number that `octets` spell: the top bit of the first octet is
/// the sign, the bits below it the magnitude, most significant first.
pub open spec fn sign_magnitude(octets: Seq<u8>) -> int {
    let half = pow2((8 * octets.len() - 1) as nat) as int;
    let all = be_uint(octets) as int;
    if octets.len() == 0 {
        0
    } else if all < half {
        all
    } else {
        half - all
    }
}

/// The primitive of type `T` whose octets start at `at` in `bytes`.
pub open spec fn value_at<T: FromGribValue>(bytes: Seq<u8>, at: int) -> T {
    T::decoded(bytes.subrange(at, at + T::width()))
}

/// A value that can be read from a reader.
///
/// A type that has a fixed width on the wire can say so, with the width and
/// with the value that the octets stand for; its reading is then held to
/// that. The primitives of this library all do. A type that says nothing
/// promises nothing.
pub trait FromGribValue: Sized {
    /// Whether the type has a fixed width and says what its octets stand
    /// for.
    open spec fn fixed_width() -> bool {
        false
    }

    /// The number of octets that the value takes.
    open spec fn width() -> nat {
        0
    }

    /// The value that `width()` octets stand for.
    open spec fn decoded(octets: Seq<u8>) -> Self {
        arbitrary()
    }

    /// Reads the value at the reader's position. For a type of fixed width
    /// it fails, with an I/O error and without moving the reader, exactly
    /// where fewer than `width()` octets are left.
    fn from_grib_reader(reader: &mut ByteReader) -> (r: Result<Self, Error>)
        ensures
            Self::fixed_width() ==> final(reader).bytes() == old(reader).bytes(),
            Self::fixed_width() && old(reader).unread() >= Self::width() ==> (r matches Ok(v) && v
                == Self::decoded(
                old(reader).bytes().subrange(
                    old(reader).offset(),
                    old(reader).offset() + Self::width(),
                ),
            )) && final(reader).advanced(*old(reader), Self::width() as int),
            Self::fixed_width() && old(reader).unread() < Self::width() ==> (r matches Err(
                Error::IO(_),
            )) && *final(reader) == *old(reader),
    ;
}

impl FromGribValue for u8 {
    open spec fn fixed_width() -> bool {
        true
    }

    open spec fn width() -> nat {
        1
    }

    open spec fn decoded(octets: Seq<u8>) -> u8 {
        octets[0]
    }

    fn from_grib_reader(reader: &mut ByteReader) -> (r: Result<u8, Error>) {
        proof {
            if reader.unread() >= 1 {
                lemma_be_uint_1(reader.bytes().subrange(reader.offset(), reader.offset() + 1));
            }
        }
        reader.read_u8()
    }
}

impl FromGribValue for i8 {
    open spec fn fixed_width() -> bool {
        true
    }

    open spec fn width() -> nat {
        1
    }

    open spec fn decoded(octets: Seq<u8>) -> i8 {
        sign_magnitude(octets) as i8
    }

    fn from_grib_reader(reader: &mut ByteReader) -> (r: Result<i8, Error>) {
        let u = reader.read_u8()?;
        proof {
            lemma2_to64();
            assert(u >= 0x80 ==> u & 0x7f == u - 0x80) by (bit_vector);
        }
        Ok(
            if u < 0x80 {
                u as i8
            } else {
                -((u & 0x7F) as i8)
            },
        )
    }
}

impl FromGribValue for u16 {
    open spec fn fixed_width() -> bool {
        true
    }

    open spec fn width() -> nat {
        2
    }

    open spec fn decoded(octets: Seq<u8>) -> u16 {
        be_uint(octets) as u16
    }

    fn from_grib_reader(reader: &mut ByteReader) -> (r: Result<u16, Error>) {
        reader.read_u16()
    }
}

impl FromGribValue for i16 {
    open spec fn fixed_width() -> bool {
        true
    }

    open spec fn width() -> nat {
        2
    }

    open spec fn decoded(octets: Seq<u8>) -> i16 {
        sign_magnitude(octets) as i16
    }

    fn from_grib_reader(reader: &mut ByteReader) -> (r: Result<i16, Error>) {
        let u = reader.read_u16()?;
        proof {
            lemma2_to64();
            assert(u >= 0x8000 ==> u & 0x7fff == u - 0x8000) by (bit_vector);
        }
        Ok(
            if u < 0x8000 {
                u as i16
            } else {
                -((u & 0x7fff) as i16)
            },
        )
    }
}

impl FromGribValue for u32 {
    open spec fn fixed_width() -> bool {
        true
    }

    open spec fn width() -> nat {
        4
    }

    open spec fn decoded(octets: Seq<u8>) -> u32 {
        be_uint(octets) as u32
    }

    fn from_grib_reader(reader: &mut ByteReader) -> (r: Result<u32, Error>) {
        reader.read_u32()
    }
}

impl FromGribValue for i32 {
    open spec fn fixed_width() -> bool {
        true
    }

    open spec fn width() -> nat {
        4
    }

    open spec fn decoded(octets: Seq<u8>) -> i32 {
        sign_magnitude(octets) as i32
    }

    fn from_grib_reader(reader: &mut ByteReader) -> (r: Result<i32, Error>) {
        let u = reader.read_u32()?;
        proof {
            lemma2_to64();
            assert(u >= 0x8000_0000 ==> u & 0x7fff_ffff == u - 0x8000_0000) by (bit_vector);
        }
        Ok(
            if u < 0x8000_0000 {
                u as i32
            } else {
                -((u & 0x7FFF_FFFF) as i32)
            },
        )
    }
}

impl FromGribValue for u64 {
    open spec fn fixed_width() -> bool {
        true
    }

    open spec fn width() -> nat {
        8
    }

    open spec fn decoded(octets: Seq<u8>) -> u64 {
        be_uint(octets) as u64
    }

    fn from_grib_reader(reader: &mut ByteReader) -> (r: Result<u64, Error>) {
        reader.read_u64()
    }
}

/// A reader that primitives can be pulled from by type.
pub trait GribRead {
    /// Reads the primitive of type `T` at the reader's position.
    fn read_grib_value<T: FromGribValue>(&mut self) -> Result<T, Error>;
}

impl<'a> GribRead for ByteReader<'a> {
    /// Reads the value of type `T` at the reader's position. For a type of
    /// fixed width it fails, with an I/O error and without moving the reader,
    /// exactly where fewer octets are left than the type takes.
    fn read_grib_value<T: FromGribValue>(&mut self) -> (r: Result<T, Error>)
        ensures
            T::fixed_width() ==> final(self).bytes() == old(self).bytes(),
            T::fixed_width() && old(self).unread() >= T::width() ==> (r matches Ok(v) && v
                == value_at::<T>(old(self).bytes(), old(self).offset())) && final(self).advanced(
                *old(self),
                T::width() as int,
            ),
            T::fixed_width() && old(self).unread() < T::width() ==> (r matches Err(Error::IO(_)))
                && *final(self) == *old(self),
    {
        T::from_grib_reader(self)
    }
}

/// The signed number in the `n` octets of `bytes` that start at `at`.
pub open spec fn sign_magnitude_at(bytes: Seq<u8>, at: int, n: int) -> int {
    sign_magnitude(bytes.subrange(at, at + n))
}

/// Reads a signed number of `n` octets, sign bit over magnitude.
///
/// It fails, with an I/O error and without moving the reader, exactly where
/// fewer than `n` octets are left.
pub fn read_octets(reader: &mut ByteReader, n: u8) -> (r: Result<i32, Error>)
    requires
        1 <= n <= 4,
    ensures
        final(reader).bytes() == old(reader).bytes(),
        old(reader).unread() >= n ==> (r matches Ok(v) && v == sign_magnitude_at(
            old(reader).bytes(),
            old(reader).offset(),
            n as int,
        )) && final(reader).advanced(*old(reader), n as int),
        old(reader).unread() < n ==> (r matches Err(Error::IO(_))) && *final(reader) == *old(
            reader,
        ),
{
    proof {
        lemma2_to64();
        if reader.unread() >= n {
            lemma_be_uint_bound(reader.bytes().subrange(reader.offset(), reader.offset() + n));
        }
    }
    if n == 1 {
        let v: i8 = reader.read_grib_value()?;
        Ok(v as i32)
    } else if n == 2 {
        let v: i16 = reader.read_grib_value()?;
        Ok(v as i32)
    } else if n == 3 {
        let u = reader.read_u24()?;
        proof {
            assert(0x80_0000 <= u < 0x100_0000 ==> u & 0x7f_ffff == u - 0x80_0000) by (bit_vector);
        }
        Ok(
            if u < 0x80_0000 {
                u as i32
            } else {
                -((u & 0x7F_FFFF) as i32)
            },
        )
    } else {
        reader.read_grib_value()
    }
}

/// The `n` octets that spell `v` as a big-endian numeral, the most
/// significant first.
pub open spec fn be_octets(v: nat, n: nat) -> Seq<u8>
    decreases n,
{
    if n == 0 {
        Seq::empty()
    } else {
        be_octets(v / 256, (n - 1) as nat).push((v % 256) as u8)
    }
}

/// The `n` octets that spell `v` with a sign bit over the magnitude.
pub open spec fn sign_magnitude_octets(v: int, n: nat) -> Seq<u8> {
    if v < 0 {
        be_octets((pow2((8 * n - 1) as nat) - v) as nat, n)
    } else {
        be_octets(v as nat, n)
    }
}

/// A number below 256 to the `n`, written in `n` octets, reads back as
/// itself.
pub proof fn lemma_be_octets_read_back(v: nat, n: nat)
    requires
        v < pow2(8 * n),
    ensures
        be_octets(v, n).len() == n,
        be_uint(be_octets(v, n)) == v,
    decreases n,
{
    lemma2_to64();
    if n > 0 {
        let rest = be_octets(v / 256, (n - 1) as nat);
        lemma_pow2_adds((8 * (n - 1)) as nat, 8);
        assert(v / 256 < pow2((8 * (n - 1)) as nat)) by (nonlinear_arith)
            requires
                v < pow2((8 * (n - 1)) as nat) * 256,
        ;
        lemma_be_octets_read_back(v / 256, (n - 1) as nat);
        assert(rest.push((v % 256) as u8).drop_last() == rest);
    }
}

/// Every number whose magnitude fits in the bits below the sign bit of `n`
/// octets reads back as itself once it is written with a sign bit over its
/// magnitude.
pub proof fn lemma_sign_magnitude_round_trip(v: int, n: nat)
    requires
        n >= 1,
        -pow2((8 * n - 1) as nat) < v < pow2((8 * n - 1) as nat),
    ensures
        sign_magnitude_octets(v, n).len() == n,
        sign_magnitude(sign_magnitude_octets(v, n)) == v,
{
    let half = pow2((8 * n - 1) as nat);
    lemma_pow2_adds((8 * n - 1) as nat, 1);
    lemma2_to64();
    if v < 0 {
        lemma_be_octets_read_back((half - v) as nat, n);
    } else {
        lemma_be_octets_read_back(v as nat, n);
    }
}

/// The signed primitives of one, two and four octets read back every number
/// that can be written in them.
pub proof fn lemma_signed_values_round_trip(v: int)
    ensures
        -0x80 < v < 0x80 ==> <i8 as FromGribValue>::decoded(sign_magnitude_octets(v, 1)) == v,
        -0x8000 < v < 0x8000 ==> <i16 as FromGribValue>::decoded(sign_magnitude_octets(v, 2))
            == v,
        -0x8000_0000 < v < 0x8000_0000 ==> <i32 as FromGribValue>::decoded(
            sign_magnitude_octets(v, 4),
        ) == v,
{
    lemma2_to64();
    if -0x80 < v < 0x80 {
        lemma_sign_magnitude_round_trip(v, 1);
    }
    if -0x8000 < v < 0x8000 {
        lemma_sign_magnitude_round_trip(v, 2);
    }
    if -0x8000_0000 < v < 0x8000_0000 {
        lemma_sign_magnitude_round_trip(v, 4);
    }
}

/// The sign bit over a magnitude of zero reads as zero.
pub proof fn lemma_negative_zero(n: nat)
    requires
        n >= 1,
    ensures
        sign_magnitude(be_octets(pow2((8 * n - 1) as nat), n)) == 0,
{
    lemma_pow2_adds((8 * n - 1) as nat, 1);
    lemma_pow2_pos((8 * n - 1) as nat);
    lemma2_to64();
    lemma_be_octets_read_back(pow2((8 * n - 1) as nat), n);
}

} // verus!
