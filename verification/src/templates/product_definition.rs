//! Product definition templates.

use crate::bytes::ByteReader;
use crate::templates::value_at;
use crate::templates::GribRead;
use crate::Error;
use vstd::prelude::*;

verus! {

broadcast use crate::bytes::lemma_offset_natural;

/// Template 4.0 (analysis or forecast at a horizontal level or in a
/// horizontal layer at a point in time)
#[derive(Debug)]
pub struct ProductDefinitionTemplate4_0 {
    pub parameter_category: u8,
    pub parameter_number: u8,
    pub type_of_generating_process: u8,
    pub background_process: u8,
    pub generating_process_identifier: u8,
    pub hours_after_data_cutoff: u16,
    pub minutes_after_data_cutoff: u8,
    pub indicator_of_unit_of_time_range: u8,
    pub forecast_time: i32,
    pub type_of_first_fixed_surface: u8,
    pub scale_factor_of_first_fixed_surface: i8,
    pub scaled_value_of_first_fixed_surface: u32,
    pub type_of_second_fixed_surface: u8,
    pub scale_factor_of_second_fixed_surface: i8,
    pub scaled_value_of_second_fixed_surface: u32,
}

impl ProductDefinitionTemplate4_0 {
    /// The number of octets of the template.
    pub open spec fn octets() -> int {
        25
    }

    /// The record whose octets start at `at` in `bytes`.
    pub open spec fn parsed(bytes: Seq<u8>, at: int) -> Self {
        ProductDefinitionTemplate4_0 {
            parameter_category: value_at(bytes, at),
            parameter_number: value_at(bytes, at + 1),
            type_of_generating_process: value_at(bytes, at + 2),
            background_process: value_at(bytes, at + 3),
            generating_process_identifier: value_at(bytes, at + 4),
            hours_after_data_cutoff: value_at(bytes, at + 5),
            minutes_after_data_cutoff: value_at(bytes, at + 7),
            indicator_of_unit_of_time_range: value_at(bytes, at + 8),
            forecast_time: value_at(bytes, at + 9),
            type_of_first_fixed_surface: value_at(bytes, at + 13),
            scale_factor_of_first_fixed_surface: value_at(bytes, at + 14),
            scaled_value_of_first_fixed_surface: value_at(bytes, at + 15),
            type_of_second_fixed_surface: value_at(bytes, at + 19),
            scale_factor_of_second_fixed_surface: value_at(bytes, at + 20),
            scaled_value_of_second_fixed_surface: value_at(bytes, at + 21),
        }
    }

    /// Reads the template: 25 octets. It fails, with an I/O error, exactly
    /// where fewer are left.
    pub fn read(reader: &mut ByteReader) -> (r: Result<Self, Error>)
        ensures
            final(reader).bytes() == old(reader).bytes(),
            old(reader).unread() >= Self::octets() ==> (r matches Ok(t) && t == Self::parsed(
                old(reader).bytes(),
                old(reader).offset(),
            )) && final(reader).advanced(*old(reader), Self::octets()),
            old(reader).unread() < Self::octets() ==> r matches Err(Error::IO(_)),
    {
        Ok(
            Self {
                parameter_category: reader.read_grib_value()?,
                parameter_number: reader.read_grib_value()?,
                type_of_generating_process: reader.read_grib_value()?,
                background_process: reader.read_grib_value()?,
                generating_process_identifier: reader.read_grib_value()?,
                hours_after_data_cutoff: reader.read_grib_value()?,
                minutes_after_data_cutoff: reader.read_grib_value()?,
                indicator_of_unit_of_time_range: reader.read_grib_value()?,
                forecast_time: reader.read_grib_value()?,
                type_of_first_fixed_surface: reader.read_grib_value()?,
                scale_factor_of_first_fixed_surface: reader.read_grib_value()?,
                scaled_value_of_first_fixed_surface: reader.read_grib_value()?,
                type_of_second_fixed_surface: reader.read_grib_value()?,
                scale_factor_of_second_fixed_surface: reader.read_grib_value()?,
                scaled_value_of_second_fixed_surface: reader.read_grib_value()?,
            },
        )
    }
}

/// Template 4.1 (individual ensemble forecast at a horizontal level or in a
/// horizontal layer at a point in time)
#[derive(Debug)]
pub struct ProductDefinitionTemplate4_1 {
    pub template_0: ProductDefinitionTemplate4_0,
    pub type_of_ensemble_forecast: u8,
    pub perturbation_number: u8,
    pub number_of_forecasts_in_ensemble: u8,
}

impl ProductDefinitionTemplate4_1 {
    /// The number of octets of the template.
    pub open spec fn octets() -> int {
        28
    }

    /// The record whose octets start at `at` in `bytes`.
    pub open spec fn parsed(bytes: Seq<u8>, at: int) -> Self {
        ProductDefinitionTemplate4_1 {
            template_0: ProductDefinitionTemplate4_0::parsed(bytes, at),
            type_of_ensemble_forecast: value_at(bytes, at + 25),
            perturbation_number: value_at(bytes, at + 26),
            number_of_forecasts_in_ensemble: value_at(bytes, at + 27),
        }
    }

    /// Reads the template: 28 octets. It fails, with an I/O error, exactly
    /// where fewer are left.
    pub fn read(reader: &mut ByteReader) -> (r: Result<Self, Error>)
        ensures
            final(reader).bytes() == old(reader).bytes(),
            old(reader).unread() >= Self::octets() ==> (r matches Ok(t) && t == Self::parsed(
                old(reader).bytes(),
                old(reader).offset(),
            )) && final(reader).advanced(*old(reader), Self::octets()),
            old(reader).unread() < Self::octets() ==> r matches Err(Error::IO(_)),
    {
        Ok(
            Self {
                template_0: ProductDefinitionTemplate4_0::read(reader)?,
                type_of_ensemble_forecast: reader.read_grib_value()?,
                perturbation_number: reader.read_grib_value()?,
                number_of_forecasts_in_ensemble: reader.read_grib_value()?,
            },
        )
    }
}

/// Template 4.50000 (a product made of two base products)
#[derive(Debug)]
pub struct ProductDefinitionTemplate4_50000 {
    pub template_0: ProductDefinitionTemplate4_0,
    pub base_product1: u8,
    pub hour_difference1: u16,
    pub minute_difference1: u8,
    pub base_product2: u8,
    pub hour_difference2: u16,
    pub minute_difference2: u8,
}

impl ProductDefinitionTemplate4_50000 {
    /// The number of octets of the template.
    pub open spec fn octets() -> int {
        33
    }

    /// The record whose octets start at `at` in `bytes`.
    pub open spec fn parsed(bytes: Seq<u8>, at: int) -> Self {
        ProductDefinitionTemplate4_50000 {
            template_0: ProductDefinitionTemplate4_0::parsed(bytes, at),
            base_product1: value_at(bytes, at + 25),
            hour_difference1: value_at(bytes, at + 26),
            minute_difference1: value_at(bytes, at + 28),
            base_product2: value_at(bytes, at + 29),
            hour_difference2: value_at(bytes, at + 30),
            minute_difference2: value_at(bytes, at + 32),
        }
    }

    /// Reads the template: 33 octets. It fails, with an I/O error, exactly
    /// where fewer are left.
    pub fn read(reader: &mut ByteReader) -> (r: Result<Self, Error>)
        ensures
            final(reader).bytes() == old(reader).bytes(),
            old(reader).unread() >= Self::octets() ==> (r matches Ok(t) && t == Self::parsed(
                old(reader).bytes(),
                old(reader).offset(),
            )) && final(reader).advanced(*old(reader), Self::octets()),
            old(reader).unread() < Self::octets() ==> r matches Err(Error::IO(_)),
    {
        Ok(
            Self {
                template_0: ProductDefinitionTemplate4_0::read(reader)?,
                base_product1: reader.read_grib_value()?,
                hour_difference1: reader.read_grib_value()?,
                minute_difference1: reader.read_grib_value()?,
                base_product2: reader.read_grib_value()?,
                hour_difference2: reader.read_grib_value()?,
                minute_difference2: reader.read_grib_value()?,
            },
        )
    }
}

/// Template 4.50031 (tropical cyclone)
#[derive(Debug)]
pub struct ProductDefinitionTemplate4_50031 {
    pub parameter_category: u8,
    pub parameter_number: u8,
    pub type_of_generating_process: u8,
    pub background_process: u8,
    pub generating_process_identifier: u8,
    pub tc_number: u16,
    pub typhoon_number: u16,
    pub indicator_of_unit_of_time_range_start: u8,
    pub start_time: i32,
    pub indicator_of_unit_of_time_range_forecast: u8,
    pub forecast_time: i32,
    pub type_of_first_fixed_surface: u8,
    pub scale_factor_of_first_fixed_surface: i8,
    pub scaled_value_of_first_fixed_surface: u32,
    pub type_of_second_fixed_surface: u8,
    pub scale_factor_of_second_fixed_surface: i8,
    pub scaled_value_of_second_fixed_surface: u32,
}

impl ProductDefinitionTemplate4_50031 {
    /// The number of octets of the template.
    pub open spec fn octets() -> int {
        31
    }

    /// The record whose octets start at `at` in `bytes`.
    pub open spec fn parsed(bytes: Seq<u8>, at: int) -> Self {
        ProductDefinitionTemplate4_50031 {
            parameter_category: value_at(bytes, at),
            parameter_number: value_at(bytes, at + 1),
            type_of_generating_process: value_at(bytes, at + 2),
            background_process: value_at(bytes, at + 3),
            generating_process_identifier: value_at(bytes, at + 4),
            tc_number: value_at(bytes, at + 5),
            typhoon_number: value_at(bytes, at + 7),
            indicator_of_unit_of_time_range_start: value_at(bytes, at + 9),
            start_time: value_at(bytes, at + 10),
            indicator_of_unit_of_time_range_forecast: value_at(bytes, at + 14),
            forecast_time: value_at(bytes, at + 15),
            type_of_first_fixed_surface: value_at(bytes, at + 19),
            scale_factor_of_first_fixed_surface: value_at(bytes, at + 20),
            scaled_value_of_first_fixed_surface: value_at(bytes, at + 21),
            type_of_second_fixed_surface: value_at(bytes, at + 25),
            scale_factor_of_second_fixed_surface: value_at(bytes, at + 26),
            scaled_value_of_second_fixed_surface: value_at(bytes, at + 27),
        }
    }

    /// Reads the template: 31 octets. It fails, with an I/O error, exactly
    /// where fewer are left.
    pub fn read(reader: &mut ByteReader) -> (r: Result<Self, Error>)
        ensures
            final(reader).bytes() == old(reader).bytes(),
            old(reader).unread() >= Self::octets() ==> (r matches Ok(t) && t == Self::parsed(
                old(reader).bytes(),
                old(reader).offset(),
            )) && final(reader).advanced(*old(reader), Self::octets()),
            old(reader).unread() < Self::octets() ==> r matches Err(Error::IO(_)),
    {
        Ok(
            Self {
                parameter_category: reader.read_grib_value()?,
                parameter_number: reader.read_grib_value()?,
                type_of_generating_process: reader.read_grib_value()?,
                background_process: reader.read_grib_value()?,
                generating_process_identifier: reader.read_grib_value()?,
                tc_number: reader.read_grib_value()?,
                typhoon_number: reader.read_grib_value()?,
                indicator_of_unit_of_time_range_start: reader.read_grib_value()?,
                start_time: reader.read_grib_value()?,
                indicator_of_unit_of_time_range_forecast: reader.read_grib_value()?,
                forecast_time: reader.read_grib_value()?,
                type_of_first_fixed_surface: reader.read_grib_value()?,
                scale_factor_of_first_fixed_surface: reader.read_grib_value()?,
                scaled_value_of_first_fixed_surface: reader.read_grib_value()?,
                type_of_second_fixed_surface: reader.read_grib_value()?,
                scale_factor_of_second_fixed_surface: reader.read_grib_value()?,
                scaled_value_of_second_fixed_surface: reader.read_grib_value()?,
            },
        )
    }
}

/// One time range of a statistical process: twelve octets.
#[derive(Debug)]
pub struct TimeRange {
    pub statistical_process: u8,
    pub type_of_time_increment: u8,
    pub indicator_of_unit_of_time: u8,
    pub length_of_the_time_range: u32,
    pub indicator_of_unit_of_length_of_time_range: u8,
    pub time_increment: u32,
}

impl TimeRange {
    /// The number of octets of the template.
    pub open spec fn octets() -> int {
        12
    }

    /// The record whose octets start at `at` in `bytes`.
    pub open spec fn parsed(bytes: Seq<u8>, at: int) -> Self {
        TimeRange {
            statistical_process: value_at(bytes, at),
            type_of_time_increment: value_at(bytes, at + 1),
            indicator_of_unit_of_time: value_at(bytes, at + 2),
            length_of_the_time_range: value_at(bytes, at + 3),
            indicator_of_unit_of_length_of_time_range: value_at(bytes, at + 7),
            time_increment: value_at(bytes, at + 8),
        }
    }

    /// Reads the template: 12 octets. It fails, with an I/O error, exactly
    /// where fewer are left.
    pub fn read(reader: &mut ByteReader) -> (r: Result<Self, Error>)
        ensures
            final(reader).bytes() == old(reader).bytes(),
            old(reader).unread() >= Self::octets() ==> (r matches Ok(t) && t == Self::parsed(
                old(reader).bytes(),
                old(reader).offset(),
            )) && final(reader).advanced(*old(reader), Self::octets()),
            old(reader).unread() < Self::octets() ==> r matches Err(Error::IO(_)),
    {
        Ok(
            Self {
                statistical_process: reader.read_grib_value()?,
                type_of_time_increment: reader.read_grib_value()?,
                indicator_of_unit_of_time: reader.read_grib_value()?,
                length_of_the_time_range: reader.read_grib_value()?,
                indicator_of_unit_of_length_of_time_range: reader.read_grib_value()?,
                time_increment: reader.read_grib_value()?,
            },
        )
    }
}
/// The end of the overall time interval of a statistical process, and its
/// time ranges.
///
/// On the wire: the date in seven octets, the number of time ranges in one,
/// then twelve octets for each range.
#[derive(Debug)]
pub struct TimeInterval {
    pub year: u16,
    pub month: u8,
    pub day: u8,
    pub hour: u8,
    pub minute: u8,
    pub second: u8,
    pub time_ranges: Vec<TimeRange>,
}

/// A [`TimeInterval`] with its time ranges as a sequence.
pub struct TimeIntervalView {
    pub year: u16,
    pub month: u8,
    pub day: u8,
    pub hour: u8,
    pub minute: u8,
    pub second: u8,
    pub time_ranges: Seq<TimeRange>,
}

impl View for TimeInterval {
    type V = TimeIntervalView;

    open spec fn view(&self) -> TimeIntervalView {
        TimeIntervalView {
            year: self.year,
            month: self.month,
            day: self.day,
            hour: self.hour,
            minute: self.minute,
            second: self.second,
            time_ranges: self.time_ranges@,
        }
    }
}

impl TimeInterval {
    /// The number of time ranges that the record at `at` announces.
    pub open spec fn ranges_at(bytes: Seq<u8>, at: int) -> u8 {
        value_at(bytes, at + 7)
    }

    /// The number of octets of the record at `at`: eight, and twelve for
    /// each time range.
    pub open spec fn octets(bytes: Seq<u8>, at: int) -> int {
        8 + 12 * Self::ranges_at(bytes, at)
    }

    /// Whether `bytes` hold the whole record from `at` on.
    pub open spec fn fits(bytes: Seq<u8>, at: int) -> bool {
        bytes.len() - at >= 8 && bytes.len() - at >= Self::octets(bytes, at)
    }

    /// The record whose octets start at `at` in `bytes`.
    pub open spec fn parsed(bytes: Seq<u8>, at: int) -> TimeIntervalView {
        TimeIntervalView {
            year: value_at(bytes, at),
            month: value_at(bytes, at + 2),
            day: value_at(bytes, at + 3),
            hour: value_at(bytes, at + 4),
            minute: value_at(bytes, at + 5),
            second: value_at(bytes, at + 6),
            time_ranges: Seq::new(
                Self::ranges_at(bytes, at) as nat,
                |i: int| TimeRange::parsed(bytes, at + 8 + 12 * i),
            ),
        }
    }

    /// Reads the record. It fails, with an I/O error, exactly where the
    /// reader ends before the record does.
    pub fn read(reader: &mut ByteReader) -> (r: Result<Self, Error>)
        ensures
            final(reader).bytes() == old(reader).bytes(),
            Self::fits(old(reader).bytes(), old(reader).offset()) ==> (r matches Ok(t) && t@
                == Self::parsed(old(reader).bytes(), old(reader).offset())) && final(
                reader
            ).advanced(*old(reader), Self::octets(old(reader).bytes(), old(reader).offset())),
            !Self::fits(old(reader).bytes(), old(reader).offset()) ==> r matches Err(Error::IO(_)),
    {
        let ghost bytes = reader.bytes();
        let ghost at = reader.offset();
        let year: u16 = reader.read_grib_value()?;
        let month: u8 = reader.read_grib_value()?;
        let day: u8 = reader.read_grib_value()?;
        let hour: u8 = reader.read_grib_value()?;
        let minute: u8 = reader.read_grib_value()?;
        let second: u8 = reader.read_grib_value()?;
        let count: u8 = reader.read_grib_value()?;
        let mut time_ranges: Vec<TimeRange> = Vec::new();
        let mut i: u8 = 0;
        while i < count
            invariant
                i <= count,
                bytes == old(reader).bytes(),
                at == old(reader).offset(),
                count == Self::ranges_at(bytes, at),
                bytes.len() - at >= 8,
                reader.bytes() == bytes,
                reader.offset() == at + 8 + 12 * i,
                time_ranges@.len() == i,
                forall|j: int|
                    0 <= j < i ==> time_ranges@[j] == TimeRange::parsed(bytes, at + 8 + 12 * j),
            decreases count - i,
        {
            time_ranges.push(TimeRange::read(reader)?);
            i += 1;
        }
        let interval = TimeInterval { year, month, day, hour, minute, second, time_ranges };
        proof {
            use_type_invariant(&*reader);
        }
        assert(interval@.time_ranges =~= Self::parsed(bytes, at).time_ranges);
        Ok(interval)
    }
}

/// Template 4.8 (average, accumulation and/or extreme values or other
/// statistically processed values at a horizontal level or in a horizontal
/// layer in a continuous or non-continuous time interval)
#[derive(Debug)]
pub struct ProductDefinitionTemplate4_8 {
    pub template_0: ProductDefinitionTemplate4_0,
    pub interval: TimeInterval,
}

/// A [`ProductDefinitionTemplate4_8`] with its time ranges as a sequence.
pub struct ProductDefinitionTemplate4_8View {
    pub template_0: ProductDefinitionTemplate4_0,
    pub interval: TimeIntervalView,
}

impl View for ProductDefinitionTemplate4_8 {
    type V = ProductDefinitionTemplate4_8View;

    open spec fn view(&self) -> ProductDefinitionTemplate4_8View {
        ProductDefinitionTemplate4_8View { template_0: self.template_0, interval: self.interval@ }
    }
}

impl ProductDefinitionTemplate4_8 {
    /// The number of octets of the template at `at`.
    pub open spec fn octets(bytes: Seq<u8>, at: int) -> int {
        25 + TimeInterval::octets(bytes, at + 25)
    }

    /// Whether `bytes` hold the whole template from `at` on.
    pub open spec fn fits(bytes: Seq<u8>, at: int) -> bool {
        TimeInterval::fits(bytes, at + 25)
    }

    /// The record whose octets start at `at` in `bytes`.
    pub open spec fn parsed(bytes: Seq<u8>, at: int) -> ProductDefinitionTemplate4_8View {
        ProductDefinitionTemplate4_8View {
            template_0: ProductDefinitionTemplate4_0::parsed(bytes, at),
            interval: TimeInterval::parsed(bytes, at + 25),
        }
    }

    /// Reads the template. It fails, with an I/O error, exactly where the
    /// reader ends before the template does.
    pub fn read(reader: &mut ByteReader) -> (r: Result<Self, Error>)
        ensures
            final(reader).bytes() == old(reader).bytes(),
            Self::fits(old(reader).bytes(), old(reader).offset()) ==> (r matches Ok(t) && t@
                == Self::parsed(old(reader).bytes(), old(reader).offset())) && final(
                reader
            ).advanced(*old(reader), Self::octets(old(reader).bytes(), old(reader).offset())),
            !Self::fits(old(reader).bytes(), old(reader).offset()) ==> r matches Err(Error::IO(_)),
    {
        Ok(
            Self {
                template_0: ProductDefinitionTemplate4_0::read(reader)?,
                interval: TimeInterval::read(reader)?,
            },
        )
    }
}

/// Template 4.11 (individual ensemble forecast of statistically processed
/// values in a continuous or non-continuous time interval)
#[derive(Debug)]
pub struct ProductDefinitionTemplate4_11 {
    pub template_1: ProductDefinitionTemplate4_1,
    pub interval: TimeInterval,
}

/// A [`ProductDefinitionTemplate4_11`] with its time ranges as a sequence.
pub struct ProductDefinitionTemplate4_11View {
    pub template_1: ProductDefinitionTemplate4_1,
    pub interval: TimeIntervalView,
}

impl View for ProductDefinitionTemplate4_11 {
    type V = ProductDefinitionTemplate4_11View;

    open spec fn view(&self) -> ProductDefinitionTemplate4_11View {
        ProductDefinitionTemplate4_11View { template_1: self.template_1, interval: self.interval@ }
    }
}

impl ProductDefinitionTemplate4_11 {
    /// The number of octets of the template at `at`.
    pub open spec fn octets(bytes: Seq<u8>, at: int) -> int {
        28 + TimeInterval::octets(bytes, at + 28)
    }

    /// Whether `bytes` hold the whole template from `at` on.
    pub open spec fn fits(bytes: Seq<u8>, at: int) -> bool {
        TimeInterval::fits(bytes, at + 28)
    }

    /// The record whose octets start at `at` in `bytes`.
    pub open spec fn parsed(bytes: Seq<u8>, at: int) -> ProductDefinitionTemplate4_11View {
        ProductDefinitionTemplate4_11View {
            template_1: ProductDefinitionTemplate4_1::parsed(bytes, at),
            interval: TimeInterval::parsed(bytes, at + 28),
        }
    }

    /// Reads the template. It fails, with an I/O error, exactly where the
    /// reader ends before the template does.
    pub fn read(reader: &mut ByteReader) -> (r: Result<Self, Error>)
        ensures
            final(reader).bytes() == old(reader).bytes(),
            Self::fits(old(reader).bytes(), old(reader).offset()) ==> (r matches Ok(t) && t@
                == Self::parsed(old(reader).bytes(), old(reader).offset())) && final(
                reader
            ).advanced(*old(reader), Self::octets(old(reader).bytes(), old(reader).offset())),
            !Self::fits(old(reader).bytes(), old(reader).offset()) ==> r matches Err(Error::IO(_)),
    {
        Ok(
            Self {
                template_1: ProductDefinitionTemplate4_1::read(reader)?,
                interval: TimeInterval::read(reader)?,
            },
        )
    }
}

/// Template 4.50011 (radar product over a time interval)
#[derive(Debug)]
pub struct ProductDefinitionTemplate4_50011 {
    pub template_8: ProductDefinitionTemplate4_8,
    pub rader_operating_info1: u64,
    pub rader_operating_info2: u64,
    pub rader_operating_info3: u64,
}

/// A [`ProductDefinitionTemplate4_50011`] with its time ranges as a sequence.
pub struct ProductDefinitionTemplate4_50011View {
    pub template_8: ProductDefinitionTemplate4_8View,
    pub rader_operating_info1: u64,
    pub rader_operating_info2: u64,
    pub rader_operating_info3: u64,
}

impl View for ProductDefinitionTemplate4_50011 {
    type V = ProductDefinitionTemplate4_50011View;

    open spec fn view(&self) -> ProductDefinitionTemplate4_50011View {
        ProductDefinitionTemplate4_50011View {
            template_8: self.template_8@,
            rader_operating_info1: self.rader_operating_info1,
            rader_operating_info2: self.rader_operating_info2,
            rader_operating_info3: self.rader_operating_info3,
        }
    }
}

impl ProductDefinitionTemplate4_50011 {
    /// The number of octets of the template at `at`.
    pub open spec fn octets(bytes: Seq<u8>, at: int) -> int {
        ProductDefinitionTemplate4_8::octets(bytes, at) + 24
    }

    /// Whether `bytes` hold the whole template from `at` on.
    pub open spec fn fits(bytes: Seq<u8>, at: int) -> bool {
        ProductDefinitionTemplate4_8::fits(bytes, at) && bytes.len() - at >= Self::octets(bytes, at)
    }

    /// The record whose octets start at `at` in `bytes`.
    pub open spec fn parsed(bytes: Seq<u8>, at: int) -> ProductDefinitionTemplate4_50011View {
        let info = at + ProductDefinitionTemplate4_8::octets(bytes, at);
        ProductDefinitionTemplate4_50011View {
            template_8: ProductDefinitionTemplate4_8::parsed(bytes, at),
            rader_operating_info1: value_at(bytes, info),
            rader_operating_info2: value_at(bytes, info + 8),
            rader_operating_info3: value_at(bytes, info + 16),
        }
    }

    /// Reads the template. It fails, with an I/O error, exactly where the
    /// reader ends before the template does.
    pub fn read(reader: &mut ByteReader) -> (r: Result<Self, Error>)
        ensures
            final(reader).bytes() == old(reader).bytes(),
            Self::fits(old(reader).bytes(), old(reader).offset()) ==> (r matches Ok(t) && t@
                == Self::parsed(old(reader).bytes(), old(reader).offset())) && final(
                reader
            ).advanced(*old(reader), Self::octets(old(reader).bytes(), old(reader).offset())),
            !Self::fits(old(reader).bytes(), old(reader).offset()) ==> r matches Err(Error::IO(_)),
    {
        Ok(
            Self {
                template_8: ProductDefinitionTemplate4_8::read(reader)?,
                rader_operating_info1: reader.read_grib_value()?,
                rader_operating_info2: reader.read_grib_value()?,
                rader_operating_info3: reader.read_grib_value()?,
            },
        )
    }
}

} // verus!
