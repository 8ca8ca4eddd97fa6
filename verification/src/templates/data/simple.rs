//! Template 7.0, simple packing: numbers of one width, one after the other
//! with no padding between them.

use crate::bits::as_signed;
use crate::bits::as_unsigned;
use crate::bits::bit_reader;
use crate::bits::bits_value;
use crate::bits::bytes_bits;
use crate::bits::into_rest;
use crate::bits::read_bits;
use crate::bits::to_signed;
use crate::bits::unread_bits;
use crate::bits::BitCursor;
use crate::bytes::ByteReader;
use crate::templates::data_representation::DataRepresentationTemplate5_0;
use crate::Error;
use vstd::arithmetic::power2::lemma2_to64;
use vstd::arithmetic::power2::lemma_pow2_adds;
use vstd::arithmetic::power2::lemma_pow2_strictly_increases;
use vstd::arithmetic::power2::pow2;
use vstd::prelude::*;

verus! {

broadcast use crate::bytes::lemma_offset_natural;

/// The number in place `i` among numbers of `width` bits each that `bits`
/// spell.
pub open spec fn packed_value(bits: Seq<bool>, width: int, i: int) -> nat {
    bits_value(bits.subrange(i * width, i * width + width))
}

/// The first `count` numbers of `width` bits each that `bits` spell.
pub open spec fn packed_values(bits: Seq<bool>, count: int, width: int) -> Seq<u32> {
    Seq::new(count as nat, |i: int| packed_value(bits, width, i) as u32)
}

/// Whether `count` numbers of `width` bits each can be read from `bits`: the
/// width is 32 at most and the bits are there. No number at all can always
/// be read.
pub open spec fn packed_values_fit(bits: Seq<bool>, count: int, width: int) -> bool {
    count == 0 || (width <= 32 && count * width <= bits.len())
}

/// Reads `count` numbers of `width` bits each.
pub(crate) fn read_packed(bits: &mut BitCursor<'_>, count: u32, width: u8) -> (r: Result<
    Vec<u32>,
    Error,
>)
    ensures
        packed_values_fit(unread_bits(*old(bits)), count as int, width as int) ==> (r matches Ok(
            values,
        ) && values@ == packed_values(unread_bits(*old(bits)), count as int, width as int))
            && unread_bits(*final(bits)) == unread_bits(*old(bits)).skip(count * width),
        !packed_values_fit(unread_bits(*old(bits)), count as int, width as int) ==> r matches Err(
            Error::IO(_),
        ),
{
    let ghost all = unread_bits(*bits);
    let mut values: Vec<u32> = Vec::new();
    let mut i: u32 = 0;
    while i < count
        invariant
            i <= count,
            all == unread_bits(*old(bits)),
            i * width <= all.len(),
            i > 0 ==> width <= 32,
            unread_bits(*bits) == all.skip(i * width),
            values@ == packed_values(all, i as int, width as int),
        decreases count - i,
    {
        proof {
            assert((i + 1) * width == i * width + width) by (nonlinear_arith);
            assert((i + 1) * width <= count * width) by (nonlinear_arith)
                requires
                    i + 1 <= count,
            ;
        }
        match read_bits(bits, width as u32) {
            Ok(v) => {
                proof {
                    assert(all.skip(i * width).take(width as int) == all.subrange(
                        i * width,
                        i * width + width,
                    ));
                }
                values.push(v);
            },
            Err(e) => {
                return Err(Error::IO(e));
            },
        }
        i += 1;
    }
    Ok(values)
}

/// The samples of template 7.0 in `bits`: `count` numbers of `width` bits
/// each, one after the other, each read as two's complement in 32 bits.
pub open spec fn simple_samples(bits: Seq<bool>, count: int, width: int) -> Seq<i32> {
    Seq::new(count as nat, |i: int| as_signed(packed_values(bits, count, width)[i]))
}

/// Template 7.0: Grid point data - simple packing
///
/// Reads `number_of_values` numbers of `bits_per_value` bits each, with no
/// padding between them, and leaves the reader behind the last octet that
/// holds one of their bits. It fails, with an I/O error and without moving
/// the reader, exactly where the width is over 32 or the octets end before
/// the last number does.
pub fn read_data_7_0(
    reader: &mut ByteReader,
    number_of_values: u32,
    tmpl: &DataRepresentationTemplate5_0,
) -> (r: Result<Vec<i32>, Error>)
    ensures
        final(reader).bytes() == old(reader).bytes(),
        packed_values_fit(
            bytes_bits(old(reader).bytes().skip(old(reader).offset())),
            number_of_values as int,
            tmpl.bits_per_value as int,
        ) ==> (r matches Ok(values) && values@ == simple_samples(
            bytes_bits(old(reader).bytes().skip(old(reader).offset())),
            number_of_values as int,
            tmpl.bits_per_value as int,
        )) && final(reader).advanced(
            *old(reader),
            (number_of_values * tmpl.bits_per_value + 7) / 8,
        ),
        !packed_values_fit(
            bytes_bits(old(reader).bytes().skip(old(reader).offset())),
            number_of_values as int,
            tmpl.bits_per_value as int,
        ) ==> (r matches Err(Error::IO(_))) && *final(reader) == *old(reader),
{
    let ghost all = bytes_bits(reader.bytes().skip(reader.offset()));
    let left = reader.remaining();
    let mut bits = bit_reader(reader.rest());
    let packed = read_packed(&mut bits, number_of_values, tmpl.bits_per_value)?;
    let mut values: Vec<i32> = Vec::new();
    let mut i: usize = 0;
    while i < packed.len()
        invariant
            i <= packed.len(),
            values@.len() == i,
            forall|j: int| 0 <= j < i ==> values@[j] == as_signed(packed@[j]),
        decreases packed.len() - i,
    {
        values.push(to_signed(packed[i]));
        i += 1;
    }
    let rest = into_rest(bits);
    proof {
        let used = number_of_values * tmpl.bits_per_value;
        assert(0 <= used <= all.len()) by (nonlinear_arith)
            requires
                used == number_of_values * tmpl.bits_per_value,
                number_of_values == 0 || number_of_values * tmpl.bits_per_value <= all.len(),
        ;
        assert(bytes_bits(rest@).len() == 8 * rest@.len());
        assert(values@ =~= simple_samples(
            all,
            number_of_values as int,
            tmpl.bits_per_value as int,
        ));
    }
    reader.advance(left - rest.len());
    Ok(values)
}

/// The `width` lowest bits of `v`, the most significant first.
pub open spec fn value_bits(v: nat, width: nat) -> Seq<bool>
    decreases width,
{
    if width == 0 {
        Seq::empty()
    } else {
        value_bits(v / 2, (width - 1) as nat).push(v % 2 == 1)
    }
}

/// The bits of `values`, each written in `width` bits, one after the other.
pub open spec fn packed_bits(values: Seq<u32>, width: nat) -> Seq<bool>
    decreases values.len(),
{
    if values.len() == 0 {
        Seq::empty()
    } else {
        packed_bits(values.drop_last(), width) + value_bits(values.last() as nat, width)
    }
}

/// The number that bits spell, written in as many bits, gives the bits
/// again.
pub proof fn lemma_value_bits_read_back(bits: Seq<bool>)
    ensures
        value_bits(bits_value(bits), bits.len()) == bits,
        bits_value(bits) < pow2(bits.len()),
    decreases bits.len(),
{
    lemma2_to64();
    if bits.len() > 0 {
        lemma_value_bits_read_back(bits.drop_last());
        lemma_pow2_adds((bits.len() - 1) as nat, 1);
    }
}

/// Numbers of `width` bits each that are read from bits and written again
/// at that width give the bits again.
pub proof fn lemma_packed_values_round_trip(bits: Seq<bool>, count: nat, width: nat)
    requires
        width <= 32,
        bits.len() == count * width,
    ensures
        packed_bits(packed_values(bits, count as int, width as int), width) == bits,
    decreases count,
{
    let values = packed_values(bits, count as int, width as int);
    if count > 0 {
        let before = (count - 1) * width;
        assert(before + width == count * width && 0 <= before) by (nonlinear_arith)
            requires
                before == (count - 1) * width,
                count >= 1,
        ;
        let head = bits.take(before);
        let tail = bits.subrange(before, before + width);
        assert forall|i: int| 0 <= i < count - 1 implies #[trigger] packed_value(
            head,
            width as int,
            i,
        ) == packed_value(bits, width as int, i) by {
            assert(0 <= i * width && i * width + width <= before) by (nonlinear_arith)
                requires
                    0 <= i < count - 1,
                    before == (count - 1) * width,
            ;
            assert(head.subrange(i * width, i * width + width) == bits.subrange(
                i * width,
                i * width + width,
            ));
        }
        assert(values.drop_last() == packed_values(head, count - 1, width as int));
        lemma_packed_values_round_trip(head, (count - 1) as nat, width);
        lemma_value_bits_read_back(tail);
        lemma2_to64();
        if width < 32 {
            lemma_pow2_strictly_increases(width, 32);
        }
    } else {
        assert(bits.len() == 0) by (nonlinear_arith)
            requires
                bits.len() == count * width,
                count == 0,
        ;
    }
}

/// What template 7.0 reads from bits that hold `count` numbers of `width`
/// bits each and nothing else gives the bits again, once each sample is
/// written at that width.
pub proof fn lemma_simple_packing_round_trip(bits: Seq<bool>, count: nat, width: nat)
    requires
        width <= 32,
        bits.len() == count * width,
    ensures
        packed_bits(
            Seq::new(
                count,
                |i: int| as_unsigned(simple_samples(bits, count as int, width as int)[i]),
            ),
            width,
        ) == bits,
{
    let values = packed_values(bits, count as int, width as int);
    let samples = simple_samples(bits, count as int, width as int);
    assert(Seq::new(count, |i: int| as_unsigned(samples[i])) == values);
    lemma_packed_values_round_trip(bits, count, width);
}

} // verus!
