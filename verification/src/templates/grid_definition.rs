//! Grid definition templates.

use crate::bytes::ByteReader;
use crate::templates::value_at;
use crate::templates::GribRead;
use crate::Error;
use vstd::prelude::*;

verus! {

broadcast use crate::bytes::lemma_offset_natural;

/// Template 3.0 (Latitude/longitude)
#[derive(Debug)]
pub struct GridDefinitionTemplate3_0 {
    pub shape_of_earth: u8,
    pub scale_factor_of_radius: u8,
    pub scale_value_of_radius: u32,
    pub scale_factor_of_major_axis: u8,
    pub scale_value_of_major_axis: u32,
    pub scale_factor_of_minor_axis: u8,
    pub scale_value_of_minor_axis: u32,
    pub n_i: u32,
    pub n_j: u32,
    pub basic_angle: u32,
    pub subdivisions_of_basic_angle: u32,
    pub la1: i32,
    pub lo1: i32,
    pub resolution_and_component_flags: u8,
    pub la2: i32,
    pub lo2: i32,
    pub d_i: u32,
    pub d_j: u32,
    pub scanning_mode: u8,
}

impl GridDefinitionTemplate3_0 {
    /// The number of octets of the template.
    pub open spec fn octets() -> int {
        58
    }

    /// The record whose octets start at `at` in `bytes`.
    pub open spec fn parsed(bytes: Seq<u8>, at: int) -> Self {
        GridDefinitionTemplate3_0 {
            shape_of_earth: value_at(bytes, at),
            scale_factor_of_radius: value_at(bytes, at + 1),
            scale_value_of_radius: value_at(bytes, at + 2),
            scale_factor_of_major_axis: value_at(bytes, at + 6),
            scale_value_of_major_axis: value_at(bytes, at + 7),
            scale_factor_of_minor_axis: value_at(bytes, at + 11),
            scale_value_of_minor_axis: value_at(bytes, at + 12),
            n_i: value_at(bytes, at + 16),
            n_j: value_at(bytes, at + 20),
            basic_angle: value_at(bytes, at + 24),
            subdivisions_of_basic_angle: value_at(bytes, at + 28),
            la1: value_at(bytes, at + 32),
            lo1: value_at(bytes, at + 36),
            resolution_and_component_flags: value_at(bytes, at + 40),
            la2: value_at(bytes, at + 41),
            lo2: value_at(bytes, at + 45),
            d_i: value_at(bytes, at + 49),
            d_j: value_at(bytes, at + 53),
            scanning_mode: value_at(bytes, at + 57),
        }
    }

    /// Reads the template: 58 octets. It fails, with an I/O error, exactly
    /// where fewer are left.
    pub fn read(reader: &mut ByteReader) -> (r: Result<Self, Error>)
        ensures
            final(reader).bytes() == old(reader).bytes(),
            old(reader).unread() >= Self::octets() ==> (r matches Ok(t) && t == Self::parsed(
                old(reader).bytes(),
                old(reader).offset(),
            )) && final(reader).advanced(*old(reader), Self::octets()),
            old(reader).unread() < Self::octets() ==> r matches Err(Error::IO(_)),
    {
        Ok(
            Self {
                shape_of_earth: reader.read_grib_value()?,
                scale_factor_of_radius: reader.read_grib_value()?,
                scale_value_of_radius: reader.read_grib_value()?,
                scale_factor_of_major_axis: reader.read_grib_value()?,
                scale_value_of_major_axis: reader.read_grib_value()?,
                scale_factor_of_minor_axis: reader.read_grib_value()?,
                scale_value_of_minor_axis: reader.read_grib_value()?,
                n_i: reader.read_grib_value()?,
                n_j: reader.read_grib_value()?,
                basic_angle: reader.read_grib_value()?,
                subdivisions_of_basic_angle: reader.read_grib_value()?,
                la1: reader.read_grib_value()?,
                lo1: reader.read_grib_value()?,
                resolution_and_component_flags: reader.read_grib_value()?,
                la2: reader.read_grib_value()?,
                lo2: reader.read_grib_value()?,
                d_i: reader.read_grib_value()?,
                d_j: reader.read_grib_value()?,
                scanning_mode: reader.read_grib_value()?,
            },
        )
    }
}
} // verus!
