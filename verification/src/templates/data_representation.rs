//! Data representation templates.

use crate::bytes::ByteReader;
use crate::templates::value_at;
use crate::templates::GribRead;
use crate::Error;
use vstd::prelude::*;

verus! {

broadcast use crate::bytes::lemma_offset_natural;

/// Template 5.0 (Grid point data - simple packing)
///
/// The reference value is kept as the four octets of its IEEE 754
/// single-precision pattern.
#[derive(Debug)]
pub struct DataRepresentationTemplate5_0 {
    pub reference_value_bits: u32,
    pub binary_scale_factor: i16,
    pub decimal_scale_factor: i16,
    pub bits_per_value: u8,
    pub type_of_original_field_values: u8,
}

impl DataRepresentationTemplate5_0 {
    /// The number of octets of the template.
    pub open spec fn octets() -> int {
        10
    }

    /// The record whose octets start at `at` in `bytes`.
    pub open spec fn parsed(bytes: Seq<u8>, at: int) -> Self {
        DataRepresentationTemplate5_0 {
            reference_value_bits: value_at(bytes, at),
            binary_scale_factor: value_at(bytes, at + 4),
            decimal_scale_factor: value_at(bytes, at + 6),
            bits_per_value: value_at(bytes, at + 8),
            type_of_original_field_values: value_at(bytes, at + 9),
        }
    }

    /// Reads the template: 10 octets. It fails, with an I/O error, exactly
    /// where fewer are left.
    pub fn read(reader: &mut ByteReader) -> (r: Result<Self, Error>)
        ensures
            final(reader).bytes() == old(reader).bytes(),
            old(reader).unread() >= Self::octets() ==> (r matches Ok(t) && t == Self::parsed(
                old(reader).bytes(),
                old(reader).offset(),
            )) && final(reader).advanced(*old(reader), Self::octets()),
            old(reader).unread() < Self::octets() ==> r matches Err(Error::IO(_)),
    {
        Ok(
            Self {
                reference_value_bits: reader.read_grib_value()?,
                binary_scale_factor: reader.read_grib_value()?,
                decimal_scale_factor: reader.read_grib_value()?,
                bits_per_value: reader.read_grib_value()?,
                type_of_original_field_values: reader.read_grib_value()?,
            },
        )
    }
}

/// Template 5.2 (Grid point data - complex packing)
#[derive(Debug)]
pub struct DataRepresentationTemplate5_2 {
    pub template_0: DataRepresentationTemplate5_0,
    pub group_splitting_method_used: u8,
    pub missing_value_management_used: u8,
    pub primary_missing_value_substitute: u32,
    pub secondary_missing_value_substitute: u32,
    pub number_of_groups_of_data_values: u32,
    pub reference_for_group_widths: u8,
    pub number_of_bits_used_for_the_group_widths: u8,
    pub reference_for_group_lengths: u32,
    pub length_increment_for_the_group_lengths: u8,
    pub true_length_of_last_group: u32,
    pub number_of_bits_for_scaled_group_lengths: u8,
}

impl DataRepresentationTemplate5_2 {
    /// The number of octets of the template.
    pub open spec fn octets() -> int {
        36
    }

    /// The record whose octets start at `at` in `bytes`.
    pub open spec fn parsed(bytes: Seq<u8>, at: int) -> Self {
        DataRepresentationTemplate5_2 {
            template_0: DataRepresentationTemplate5_0::parsed(bytes, at),
            group_splitting_method_used: value_at(bytes, at + 10),
            missing_value_management_used: value_at(bytes, at + 11),
            primary_missing_value_substitute: value_at(bytes, at + 12),
            secondary_missing_value_substitute: value_at(bytes, at + 16),
            number_of_groups_of_data_values: value_at(bytes, at + 20),
            reference_for_group_widths: value_at(bytes, at + 24),
            number_of_bits_used_for_the_group_widths: value_at(bytes, at + 25),
            reference_for_group_lengths: value_at(bytes, at + 26),
            length_increment_for_the_group_lengths: value_at(bytes, at + 30),
            true_length_of_last_group: value_at(bytes, at + 31),
            number_of_bits_for_scaled_group_lengths: value_at(bytes, at + 35),
        }
    }

    /// Reads the template: 36 octets. It fails, with an I/O error, exactly
    /// where fewer are left.
    pub fn read(reader: &mut ByteReader) -> (r: Result<Self, Error>)
        ensures
            final(reader).bytes() == old(reader).bytes(),
            old(reader).unread() >= Self::octets() ==> (r matches Ok(t) && t == Self::parsed(
                old(reader).bytes(),
                old(reader).offset(),
            )) && final(reader).advanced(*old(reader), Self::octets()),
            old(reader).unread() < Self::octets() ==> r matches Err(Error::IO(_)),
    {
        Ok(
            Self {
                template_0: DataRepresentationTemplate5_0::read(reader)?,
                group_splitting_method_used: reader.read_grib_value()?,
                missing_value_management_used: reader.read_grib_value()?,
                primary_missing_value_substitute: reader.read_grib_value()?,
                secondary_missing_value_substitute: reader.read_grib_value()?,
                number_of_groups_of_data_values: reader.read_grib_value()?,
                reference_for_group_widths: reader.read_grib_value()?,
                number_of_bits_used_for_the_group_widths: reader.read_grib_value()?,
                reference_for_group_lengths: reader.read_grib_value()?,
                length_increment_for_the_group_lengths: reader.read_grib_value()?,
                true_length_of_last_group: reader.read_grib_value()?,
                number_of_bits_for_scaled_group_lengths: reader.read_grib_value()?,
            },
        )
    }
}

/// Template 5.3 (Grid point data - complex packing and spatial differencing)
#[derive(Debug)]
pub struct DataRepresentationTemplate5_3 {
    pub template_2: DataRepresentationTemplate5_2,
    pub order_of_spatial_differencing: u8,
    pub number_of_octets_extra_descriptors: u8,
}

impl DataRepresentationTemplate5_3 {
    /// The number of octets of the template.
    pub open spec fn octets() -> int {
        38
    }

    /// The record whose octets start at `at` in `bytes`.
    pub open spec fn parsed(bytes: Seq<u8>, at: int) -> Self {
        DataRepresentationTemplate5_3 {
            template_2: DataRepresentationTemplate5_2::parsed(bytes, at),
            order_of_spatial_differencing: value_at(bytes, at + 36),
            number_of_octets_extra_descriptors: value_at(bytes, at + 37),
        }
    }

    /// Reads the template: 38 octets. It fails, with an I/O error, exactly
    /// where fewer are left.
    pub fn read(reader: &mut ByteReader) -> (r: Result<Self, Error>)
        ensures
            final(reader).bytes() == old(reader).bytes(),
            old(reader).unread() >= Self::octets() ==> (r matches Ok(t) && t == Self::parsed(
                old(reader).bytes(),
                old(reader).offset(),
            )) && final(reader).advanced(*old(reader), Self::octets()),
            old(reader).unread() < Self::octets() ==> r matches Err(Error::IO(_)),
    {
        Ok(
            Self {
                template_2: DataRepresentationTemplate5_2::read(reader)?,
                order_of_spatial_differencing: reader.read_grib_value()?,
                number_of_octets_extra_descriptors: reader.read_grib_value()?,
            },
        )
    }
}
/// Template 5.200 (Run length packing with level values)
#[derive(Debug)]
pub struct DataRepresentationTemplate5_200 {
    pub number_of_bits: u8,
    pub mv: u16,
    pub mvl: u16,
    pub decimal_scale_factor: i8,
    pub mvl_scaled_representative_values: Vec<i16>,
}

/// A [`DataRepresentationTemplate5_200`] with its level values as a sequence.
pub struct DataRepresentationTemplate5_200View {
    pub number_of_bits: u8,
    pub mv: u16,
    pub mvl: u16,
    pub decimal_scale_factor: i8,
    pub mvl_scaled_representative_values: Seq<i16>,
}

impl View for DataRepresentationTemplate5_200 {
    type V = DataRepresentationTemplate5_200View;

    open spec fn view(&self) -> DataRepresentationTemplate5_200View {
        DataRepresentationTemplate5_200View {
            number_of_bits: self.number_of_bits,
            mv: self.mv,
            mvl: self.mvl,
            decimal_scale_factor: self.decimal_scale_factor,
            mvl_scaled_representative_values: self.mvl_scaled_representative_values@,
        }
    }
}

impl DataRepresentationTemplate5_200 {
    /// The number of level values that the template at `at` announces.
    pub open spec fn levels_at(bytes: Seq<u8>, at: int) -> u16 {
        value_at(bytes, at + 3)
    }

    /// The number of octets of the template at `at`: six, and two for each
    /// level value.
    pub open spec fn octets(bytes: Seq<u8>, at: int) -> int {
        6 + 2 * Self::levels_at(bytes, at)
    }

    /// Whether `bytes` hold the whole template from `at` on.
    pub open spec fn fits(bytes: Seq<u8>, at: int) -> bool {
        bytes.len() - at >= 5 && bytes.len() - at >= Self::octets(bytes, at)
    }

    /// The record whose octets start at `at` in `bytes`.
    pub open spec fn parsed(bytes: Seq<u8>, at: int) -> DataRepresentationTemplate5_200View {
        DataRepresentationTemplate5_200View {
            number_of_bits: value_at(bytes, at),
            mv: value_at(bytes, at + 1),
            mvl: value_at(bytes, at + 3),
            decimal_scale_factor: value_at(bytes, at + 5),
            mvl_scaled_representative_values: Seq::new(
                Self::levels_at(bytes, at) as nat,
                |i: int| value_at(bytes, at + 6 + 2 * i),
            ),
        }
    }

    /// Reads the template: its six fixed octets, then as many level values
    /// as it announces. It fails, with an I/O error, exactly where the
    /// reader ends before the template does.
    pub fn read(reader: &mut ByteReader) -> (r: Result<Self, Error>)
        ensures
            final(reader).bytes() == old(reader).bytes(),
            Self::fits(old(reader).bytes(), old(reader).offset()) ==> (r matches Ok(t) && t@
                == Self::parsed(old(reader).bytes(), old(reader).offset())) && final(
                reader
            ).advanced(*old(reader), Self::octets(old(reader).bytes(), old(reader).offset())),
            !Self::fits(old(reader).bytes(), old(reader).offset()) ==> r matches Err(Error::IO(_)),
    {
        let ghost bytes = reader.bytes();
        let ghost at = reader.offset();
        let number_of_bits: u8 = reader.read_grib_value()?;
        let mv: u16 = reader.read_grib_value()?;
        let mvl: u16 = reader.read_grib_value()?;
        let decimal_scale_factor: i8 = reader.read_grib_value()?;
        let mut values: Vec<i16> = Vec::new();
        values.reserve(mvl as usize);
        let mut i: u16 = 0;
        while i < mvl
            invariant
                i <= mvl,
                bytes == old(reader).bytes(),
                at == old(reader).offset(),
                mvl == Self::levels_at(bytes, at),
                bytes.len() - at >= 6,
                reader.bytes() == bytes,
                reader.offset() == at + 6 + 2 * i,
                values@.len() == i,
                forall|j: int| 0 <= j < i ==> values@[j] == value_at::<i16>(bytes, at + 6 + 2 * j),
            decreases mvl - i,
        {
            values.push(reader.read_grib_value()?);
            i += 1;
        }
        let tmpl = DataRepresentationTemplate5_200 {
            number_of_bits,
            mv,
            mvl,
            decimal_scale_factor,
            mvl_scaled_representative_values: values,
        };
        proof {
            use_type_invariant(&*reader);
        }
        assert(tmpl@.mvl_scaled_representative_values =~= Self::parsed(
            bytes,
            at,
        ).mvl_scaled_representative_values);
        Ok(tmpl)
    }
}

} // verus!
