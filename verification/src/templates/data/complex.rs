//! Template 7.3, complex packing with spatial differencing: groups of
//! samples, each group with a reference, a width and a length of its own,
//! behind the first two samples and the tables of the groups.

use crate::bits::aligned;
use crate::bits::bit_reader;
use crate::bits::bits_value;
use crate::bits::byte_align;
use crate::bits::bytes_bits;
use crate::bits::into_rest;
use crate::bits::read_bits;
use crate::bits::unread_bits;
use crate::bits::BitCursor;
use crate::bytes::ByteReader;
use crate::invalid_data;
use crate::templates::data::simple::packed_values;
use crate::templates::data::simple::packed_values_fit;
use crate::templates::data::simple::read_packed;
use crate::templates::data_representation::DataRepresentationTemplate5_2;
use crate::templates::data_representation::DataRepresentationTemplate5_3;
use crate::templates::read_octets;
use crate::templates::sign_magnitude_at;
use crate::unsupported;
use crate::Error;
use crate::Failure;
use itertools::Itertools;
use vstd::prelude::*;

verus! {

broadcast use crate::bytes::lemma_offset_natural;

/// `itertools::Itertools::zip_eq` on two vectors of one length: the pairs of
/// their items, in order.
#[verifier::external_body]
fn zip_eq<A, B>(a: Vec<A>, b: Vec<B>) -> (pairs: Vec<(A, B)>)
    requires
        a@.len() == b@.len(),
    ensures
        pairs@.len() == a@.len(),
        forall|i: int| 0 <= i < pairs@.len() ==> pairs@[i] == (a@[i], b@[i]),
{
    a.into_iter().zip_eq(b).collect()
}

/// Whether `v` is a signed 32-bit number.
pub open spec fn in_i32(v: int) -> bool {
    i32::MIN <= v <= i32::MAX
}

/// The numbers of `v` as integers.
pub open spec fn as_ints(v: Seq<i32>) -> Seq<int> {
    Seq::new(v.len(), |i: int| v[i] as int)
}

/// Whether `bits` hold sample `k` of a group of the given width that starts
/// at their front.
pub open spec fn sample_held(bits: Seq<bool>, width: int, k: int) -> bool {
    width <= 32 && (k + 1) * width <= bits.len()
}

/// Sample `k` of a group of the given width that starts at the front of
/// `bits`, added to `base`.
pub open spec fn group_sample(bits: Seq<bool>, width: int, base: int, k: int) -> int {
    base + bits_value(bits.subrange(k * width, k * width + width))
}

/// The samples of one group of complex packing, which starts at the front of
/// `bits`: `length` numbers of `width` bits each, every one added to `base`.
///
/// A sample that the bits hold and that is no signed 32-bit number is invalid
/// data; bits that end inside the group, or a width over 32, are an I/O
/// error.
pub open spec fn group_unpacked(bits: Seq<bool>, width: int, length: int, base: int) -> Result<
    Seq<int>,
    Failure,
> {
    if exists|k: int|
        0 <= k < length && sample_held(bits, width, k) && !in_i32(
            #[trigger] group_sample(bits, width, base, k),
        ) {
        Err(Failure::InvalidData("a sample is no signed 32-bit number"@))
    } else if length > 0 && !sample_held(bits, width, length - 1) {
        Err(Failure::Io)
    } else {
        Ok(Seq::new(length as nat, |k: int| group_sample(bits, width, base, k)))
    }
}

/// The number of bits of group `i`: the reference for the widths and what
/// the table of widths adds to it.
pub open spec fn group_width(t: DataRepresentationTemplate5_2, widths: Seq<u32>, i: int) -> int {
    t.reference_for_group_widths + widths[i]
}

/// The number of samples of group `i`: for the last group the length that
/// the template gives, for the others the reference for the lengths and the
/// scaled length times the increment.
pub open spec fn group_length(t: DataRepresentationTemplate5_2, lengths: Seq<u32>, i: int) -> int {
    if i < t.number_of_groups_of_data_values - 1 {
        t.reference_for_group_lengths + t.length_increment_for_the_group_lengths * lengths[i]
    } else {
        t.true_length_of_last_group as int
    }
}

/// The samples of the first `upto` groups, which start at the front of
/// `bits`, and the bits behind them.
///
/// A width or a length that is no unsigned 32-bit number is invalid data.
/// The first group that fails decides the failure.
pub open spec fn groups_unpacked(
    t: DataRepresentationTemplate5_2,
    z_min: int,
    refs: Seq<u32>,
    widths: Seq<u32>,
    lengths: Seq<u32>,
    bits: Seq<bool>,
    upto: nat,
) -> Result<(Seq<int>, Seq<bool>), Failure>
    decreases upto,
{
    if upto == 0 {
        Ok((Seq::empty(), bits))
    } else {
        let i = upto - 1;
        let width = group_width(t, widths, i);
        let length = group_length(t, lengths, i);
        match groups_unpacked(t, z_min, refs, widths, lengths, bits, i as nat) {
            Err(f) => Err(f),
            Ok((before, rest)) => if width > u32::MAX || length > u32::MAX {
                Err(
                    Failure::InvalidData(
                        "a group's width or length is no unsigned 32-bit number"@,
                    ),
                )
            } else {
                match group_unpacked(rest, width, length, z_min + refs[i]) {
                    Err(f) => Err(f),
                    Ok(samples) => Ok((before + samples, rest.skip(length * width))),
                }
            },
        }
    }
}

/// Sample `i` of the sequence whose first two samples are `z1` and `z2` and
/// whose second differences are `g`.
pub open spec fn second_order(z1: int, z2: int, g: Seq<int>, i: int) -> int
    decreases i,
{
    if i <= 0 {
        z1
    } else if i == 1 {
        z2
    } else {
        g[i] + 2 * second_order(z1, z2, g, i - 1) - second_order(z1, z2, g, i - 2)
    }
}

/// The sequence, as long as `g`, whose first two samples are `z1` and `z2`
/// and whose second differences are `g` from the third sample on.
pub open spec fn undifferenced(z1: int, z2: int, g: Seq<int>) -> Seq<int> {
    Seq::new(g.len(), |i: int| second_order(z1, z2, g, i))
}

/// What template 7.3 makes of the body `body` under the template `t`: the
/// samples and the bits of the body that stay unread, or the kind of failure.
///
/// The body starts with three signed numbers of two octets: the first two
/// samples and the minimum that every group sample is added to. Three tables
/// follow, each `number_of_groups_of_data_values` long and each padded to a
/// whole octet: the group references, the widths and the scaled lengths.
/// Then come the groups, with no padding between them.
pub open spec fn complex_unpacked(t: DataRepresentationTemplate5_3, body: Seq<u8>) -> Result<
    (Seq<int>, Seq<bool>),
    Failure,
> {
    let t2 = t.template_2;
    let groups = t2.number_of_groups_of_data_values as int;
    let z1 = sign_magnitude_at(body, 0, 2);
    let z2 = sign_magnitude_at(body, 2, 2);
    let z_min = sign_magnitude_at(body, 4, 2);
    let ref_bits = bytes_bits(body.skip(6));
    let ref_width = t2.template_0.bits_per_value as int;
    let width_bits = aligned(ref_bits.skip(groups * ref_width));
    let width_width = t2.number_of_bits_used_for_the_group_widths as int;
    let length_bits = aligned(width_bits.skip(groups * width_width));
    let length_width = t2.number_of_bits_for_scaled_group_lengths as int;
    let data_bits = aligned(length_bits.skip(groups * length_width));
    if t.order_of_spatial_differencing != 2 {
        Err(Failure::Unsupported("Only 2nd order is supported"@))
    } else if t.number_of_octets_extra_descriptors != 2 {
        Err(Failure::Unsupported("Only extra descriptors of 2 octets are supported"@))
    } else if body.len() < 6 {
        Err(Failure::Io)
    } else if !packed_values_fit(ref_bits, groups, ref_width) {
        Err(Failure::Io)
    } else if !packed_values_fit(width_bits, groups, width_width) {
        Err(Failure::Io)
    } else if !packed_values_fit(length_bits, groups, length_width) {
        Err(Failure::Io)
    } else {
        match groups_unpacked(
            t2,
            z_min,
            packed_values(ref_bits, groups, ref_width),
            packed_values(width_bits, groups, width_width),
            packed_values(length_bits, groups, length_width),
            data_bits,
            groups as nat,
        ) {
            Err(f) => Err(f),
            Ok((g, rest)) => if g.len() < 2 {
                Err(Failure::InvalidData("fewer than two samples to start the differences from"@))
            } else if exists|i: int|
                0 <= i < g.len() && !in_i32(#[trigger] second_order(z1, z2, g, i)) {
                Err(Failure::InvalidData("a sample is no signed 32-bit number"@))
            } else {
                Ok((undifferenced(z1, z2, g), rest))
            },
        }
    }
}

/// Reads one group of `length` samples of `width` bits each and appends
/// each, added to `base`, to `values`.
fn read_group(
    bits: &mut BitCursor<'_>,
    width: u32,
    length: u32,
    base: i64,
    values: &mut Vec<i32>,
) -> (r: Result<(), Error>)
    requires
        -0x1_0000_0000 <= base <= 0x2_0000_0000,
    ensures
        match group_unpacked(unread_bits(*old(bits)), width as int, length as int, base as int) {
            Ok(samples) => r is Ok && as_ints(final(values)@) == as_ints(old(values)@) + samples
                && unread_bits(*final(bits)) == unread_bits(*old(bits)).skip(length * width),
            Err(f) => r matches Err(e) && e.failure() == f,
        },
{
    let ghost all = unread_bits(*bits);
    let ghost before = as_ints(values@);
    let mut k: u32 = 0;
    while k < length
        invariant
            k <= length,
            all == unread_bits(*old(bits)),
            before == as_ints(old(values)@),
            -0x1_0000_0000 <= base <= 0x2_0000_0000,
            k > 0 ==> sample_held(all, width as int, k - 1),
            unread_bits(*bits) == all.skip(k * width),
            forall|j: int|
                0 <= j < k ==> in_i32(#[trigger] group_sample(all, width as int, base as int, j)),
            as_ints(values@) == before + Seq::new(
                k as nat,
                |j: int| group_sample(all, width as int, base as int, j),
            ),
        decreases length - k,
    {
        proof {
            assert((k + 1) * width == k * width + width) by (nonlinear_arith);
            if k > 0 {
                assert(k * width <= all.len()) by (nonlinear_arith)
                    requires
                        (k - 1 + 1) * width <= all.len(),
                ;
            }
            assert((k + 1) * width <= (length - 1 + 1) * width) by (nonlinear_arith)
                requires
                    k + 1 <= length,
            ;
        }
        match read_bits(bits, width) {
            Ok(v) => {
                proof {
                    assert(all.skip(k * width).take(width as int) == all.subrange(
                        k * width,
                        k * width + width,
                    ));
                }
                let sample = base + v as i64;
                if sample < i32::MIN as i64 || sample > i32::MAX as i64 {
                    assert(!in_i32(group_sample(all, width as int, base as int, k as int)));
                    return Err(invalid_data("a sample is no signed 32-bit number"));
                }
                let ghost so_far = as_ints(values@);
                values.push(sample as i32);
                assert(as_ints(values@) =~= so_far.push(sample as int));
                assert(as_ints(values@) =~= before + Seq::new(
                    (k + 1) as nat,
                    |j: int| group_sample(all, width as int, base as int, j),
                ));
            },
            Err(e) => {
                assert forall|j: int| k <= j implies !sample_held(all, width as int, j) by {
                    assert(width > 32 || (j + 1) * width >= (k + 1) * width) by (nonlinear_arith)
                        requires
                            k <= j,
                            0 <= width,
                    ;
                }
                return Err(Error::IO(e));
            },
        }
        k += 1;
    }
    Ok(())
}

/// Puts `z1` and `z2` in the first two places of `values` and replaces each
/// later sample by the sum of itself, twice the sample before it and the
/// negative of the sample two before it.
fn undifference(values: &mut Vec<i32>, z1: i32, z2: i32) -> (r: Result<(), Error>)
    ensures
        old(values)@.len() >= 2 && (forall|i: int|
            0 <= i < old(values)@.len() ==> in_i32(
                #[trigger] second_order(z1 as int, z2 as int, as_ints(old(values)@), i),
            )) ==> r is Ok && as_ints(final(values)@) == undifferenced(
            z1 as int,
            z2 as int,
            as_ints(old(values)@),
        ),
        old(values)@.len() < 2 ==> (r matches Err(e) && e.failure() == Failure::InvalidData(
            "fewer than two samples to start the differences from"@,
        )),
        old(values)@.len() >= 2 && (exists|i: int|
            0 <= i < old(values)@.len() && !in_i32(
                #[trigger] second_order(z1 as int, z2 as int, as_ints(old(values)@), i),
            )) ==> (r matches Err(e) && e.failure() == Failure::InvalidData(
            "a sample is no signed 32-bit number"@,
        )),
{
    if values.len() < 2 {
        return Err(invalid_data("fewer than two samples to start the differences from"));
    }
    let ghost g = as_ints(values@);
    values[0] = z1;
    values[1] = z2;
    let mut i: usize = 2;
    while i < values.len()
        invariant
            2 <= i <= values@.len(),
            g == as_ints(old(values)@),
            values@.len() == g.len(),
            forall|j: int|
                0 <= j < i ==> values@[j] == #[trigger] second_order(z1 as int, z2 as int, g, j),
            forall|j: int| i <= j < values@.len() ==> values@[j] == g[j],
        decreases values@.len() - i,
    {
        let sample = values[i] as i64 + 2 * (values[i - 1] as i64) - values[i - 2] as i64;
        assert(values@[i - 1] == second_order(z1 as int, z2 as int, g, i - 1));
        assert(values@[i - 2] == second_order(z1 as int, z2 as int, g, i - 2));
        assert(sample == second_order(z1 as int, z2 as int, g, i as int));
        if sample < i32::MIN as i64 || sample > i32::MAX as i64 {
            return Err(invalid_data("a sample is no signed 32-bit number"));
        }
        values[i] = sample as i32;
        i += 1;
    }
    Ok(())
}

/// Once one of the first groups has failed, taking more groups in does not
/// change the failure.
proof fn lemma_group_failure_stays(
    t: DataRepresentationTemplate5_2,
    z_min: int,
    refs: Seq<u32>,
    widths: Seq<u32>,
    lengths: Seq<u32>,
    bits: Seq<bool>,
    failed: nat,
    upto: nat,
)
    requires
        failed <= upto,
    ensures
        groups_unpacked(t, z_min, refs, widths, lengths, bits, failed) is Err ==> groups_unpacked(
            t,
            z_min,
            refs,
            widths,
            lengths,
            bits,
            upto,
        ) == groups_unpacked(t, z_min, refs, widths, lengths, bits, failed),
    decreases upto,
{
    if failed < upto {
        lemma_group_failure_stays(t, z_min, refs, widths, lengths, bits, failed, (upto - 1) as nat);
    }
}

/// Reads the groups of complex packing, whose tables have been read.
fn read_groups(
    bits: &mut BitCursor<'_>,
    tmpl2: &DataRepresentationTemplate5_2,
    z_min: i32,
    group_refs: Vec<u32>,
    group_widths: Vec<u32>,
    group_lengths: Vec<u32>,
) -> (r: Result<Vec<i32>, Error>)
    requires
        group_refs@.len() == tmpl2.number_of_groups_of_data_values,
        group_widths@.len() == tmpl2.number_of_groups_of_data_values,
        group_lengths@.len() == tmpl2.number_of_groups_of_data_values,
    ensures
        match groups_unpacked(
            *tmpl2,
            z_min as int,
            group_refs@,
            group_widths@,
            group_lengths@,
            unread_bits(*old(bits)),
            tmpl2.number_of_groups_of_data_values as nat,
        ) {
            Ok((samples, rest)) => (r matches Ok(values) && as_ints(values@) == samples)
                && unread_bits(*final(bits)) == rest && rest.len() <= unread_bits(*old(bits)).len(),
            Err(f) => r matches Err(e) && e.failure() == f,
        },
{
    let ng = tmpl2.number_of_groups_of_data_values;
    let ghost refs = group_refs@;
    let ghost widths = group_widths@;
    let ghost lengths = group_lengths@;
    let ghost data_bits = unread_bits(*bits);
    let groups = zip_eq(zip_eq(group_refs, group_widths), group_lengths);
    let mut values: Vec<i32> = Vec::new();
    let mut gi: usize = 0;
    assert(as_ints(values@) =~= Seq::<int>::empty());
    while gi < groups.len()
        invariant
            gi <= groups@.len() == ng,
            ng == tmpl2.number_of_groups_of_data_values,
            refs.len() == ng,
            widths.len() == ng,
            lengths.len() == ng,
            data_bits == unread_bits(*old(bits)),
            refs == group_refs@,
            widths == group_widths@,
            lengths == group_lengths@,
            forall|i: int| 0 <= i < ng ==> groups@[i] == ((refs[i], widths[i]), lengths[i]),
            unread_bits(*bits).len() <= data_bits.len(),
            groups_unpacked(*tmpl2, z_min as int, refs, widths, lengths, data_bits, gi as nat)
                == Ok::<(Seq<int>, Seq<bool>), Failure>((as_ints(values@), unread_bits(*bits))),
        decreases groups@.len() - gi,
    {
        let ((gref, gw), gl) = groups[gi];
        proof {
            assert(groups@[gi as int] == (
                (refs[gi as int], widths[gi as int]),
                lengths[gi as int],
            ));
        }
        let width = tmpl2.reference_for_group_widths as u64 + gw as u64;
        let length = if (gi as u32) < ng - 1 {
            proof {
                assert(0 <= tmpl2.length_increment_for_the_group_lengths * gl <= 255 * 0xffff_ffff)
                    by (nonlinear_arith)
                    requires
                        0 <= tmpl2.length_increment_for_the_group_lengths <= 255,
                        0 <= gl <= 0xffff_ffff,
                ;
            }
            tmpl2.reference_for_group_lengths as u64 + (
            tmpl2.length_increment_for_the_group_lengths as u64 * gl as u64)
        } else {
            tmpl2.true_length_of_last_group as u64
        };
        proof {
            lemma_group_failure_stays(
                *tmpl2,
                z_min as int,
                refs,
                widths,
                lengths,
                data_bits,
                (gi + 1) as nat,
                ng as nat,
            );
        }
        if width > u32::MAX as u64 || length > u32::MAX as u64 {
            return Err(invalid_data("a group's width or length is no unsigned 32-bit number"));
        }
        let ghost before = unread_bits(*bits);
        read_group(bits, width as u32, length as u32, z_min as i64 + gref as i64, &mut values)?;
        proof {
            if length > 0 {
                assert(length * width <= before.len()) by (nonlinear_arith)
                    requires
                        (length - 1 + 1) * width <= before.len(),
                ;
            }
            assert(0 <= length * width && (length == 0 ==> length * width == 0))
                by (nonlinear_arith)
                requires
                    0 <= length,
                    0 <= width,
            ;
        }
        gi += 1;
    }
    Ok(values)
}

/// Template 7.3: Grid point data - complex packing and spatial differencing
///
/// Only second-order differencing with extra descriptors of two octets is
/// supported; anything else is refused with nothing read. What comes back,
/// and what failure on which body, is what [`complex_unpacked`] says; after
/// a success the reader stands behind the last octet that holds a bit of a
/// sample, after any other failure behind the last of the three numbers at
/// the front of the body that was read whole.
pub fn read_data_7_3(reader: &mut ByteReader, tmpl: &DataRepresentationTemplate5_3) -> (r: Result<
    Vec<i32>,
    Error,
>)
    ensures
        final(reader).bytes() == old(reader).bytes(),
        match complex_unpacked(*tmpl, old(reader).bytes().skip(old(reader).offset())) {
            Ok((samples, rest)) => (r matches Ok(values) && as_ints(values@) == samples)
                && final(reader).unread() == rest.len() / 8,
            Err(f) => r matches Err(e) && e.failure() == f,
        },
        tmpl.order_of_spatial_differencing != 2 || tmpl.number_of_octets_extra_descriptors != 2
            ==> *final(reader) == *old(reader),
        tmpl.order_of_spatial_differencing == 2 && tmpl.number_of_octets_extra_descriptors == 2
            && r is Err ==> final(reader).advanced(
            *old(reader),
            if old(reader).unread() >= 6 {
                6
            } else {
                2 * (old(reader).unread() / 2)
            },
        ),
{
    let tmpl2 = &tmpl.template_2;
    let tmpl0 = &tmpl2.template_0;
    let ghost bytes = reader.bytes();
    let ghost at = reader.offset();
    let ghost body = bytes.skip(at);
    if tmpl.order_of_spatial_differencing != 2 {
        return Err(unsupported("Only 2nd order is supported"));
    }
    if tmpl.number_of_octets_extra_descriptors != 2 {
        return Err(unsupported("Only extra descriptors of 2 octets are supported"));
    }
    proof {
        use_type_invariant(&*reader);
        if body.len() >= 6 {
            assert(body.subrange(0, 2) == bytes.subrange(at, at + 2));
            assert(body.subrange(2, 4) == bytes.subrange(at + 2, at + 4));
            assert(body.subrange(4, 6) == bytes.subrange(at + 4, at + 6));
        }
    }
    let z1: i32 = read_octets(reader, tmpl.number_of_octets_extra_descriptors)?;
    let z2: i32 = read_octets(reader, tmpl.number_of_octets_extra_descriptors)?;
    let z_min: i32 = read_octets(reader, tmpl.number_of_octets_extra_descriptors)?;
    let ng = tmpl2.number_of_groups_of_data_values;
    let left = reader.remaining();
    let mut bits = bit_reader(reader.rest());
    let ghost ref_bits = bytes_bits(body.skip(6));
    proof {
        assert(bytes.skip(at + 6) == body.skip(6));
    }
    let group_refs = read_packed(&mut bits, ng, tmpl0.bits_per_value)?;
    byte_align(&mut bits);
    let ghost width_bits = unread_bits(bits);
    let group_widths = read_packed(&mut bits, ng, tmpl2.number_of_bits_used_for_the_group_widths)?;
    byte_align(&mut bits);
    let ghost length_bits = unread_bits(bits);
    let group_lengths = read_packed(&mut bits, ng, tmpl2.number_of_bits_for_scaled_group_lengths)?;
    byte_align(&mut bits);
    proof {
        lemma_packed_values_shorten(ref_bits, ng as int, tmpl0.bits_per_value as int);
        lemma_packed_values_shorten(
            width_bits,
            ng as int,
            tmpl2.number_of_bits_used_for_the_group_widths as int,
        );
        lemma_packed_values_shorten(
            length_bits,
            ng as int,
            tmpl2.number_of_bits_for_scaled_group_lengths as int,
        );
    }
    let mut values = read_groups(&mut bits, tmpl2, z_min, group_refs, group_widths, group_lengths)?;
    undifference(&mut values, z1, z2)?;
    let rest = into_rest(bits);
    proof {
        assert(bytes_bits(rest@).len() == 8 * rest@.len());
    }
    reader.advance(left - rest.len());
    Ok(values)
}

/// Reading a table of numbers takes bits away.
proof fn lemma_packed_values_shorten(bits: Seq<bool>, count: int, width: int)
    requires
        0 <= count,
        0 <= width,
        packed_values_fit(bits, count, width),
    ensures
        0 <= count * width <= bits.len(),
        aligned(bits.skip(count * width)).len() <= bits.len(),
{
    assert(0 <= count * width && (count == 0 ==> count * width == 0)) by (nonlinear_arith)
        requires
            0 <= count,
            0 <= width,
    ;
}

/// The sequence that second-order differencing is undone to starts with
/// `z1` and `z2`, and from its third sample on its second differences are
/// the samples it was made from.
pub proof fn lemma_second_differences(z1: int, z2: int, g: Seq<int>)
    requires
        g.len() >= 2,
    ensures
        undifferenced(z1, z2, g).len() == g.len(),
        undifferenced(z1, z2, g)[0] == z1,
        undifferenced(z1, z2, g)[1] == z2,
        forall|i: int|
            2 <= i < g.len() ==> undifferenced(z1, z2, g)[i] - 2 * undifferenced(z1, z2, g)[i - 1]
                + undifferenced(z1, z2, g)[i - 2] == #[trigger] g[i],
{
}

} // verus!
