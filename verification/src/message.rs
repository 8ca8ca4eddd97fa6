//! The headers of the sections of a message.
//!
//! Section 0 is sixteen octets: the letters `GRIB`, two reserved octets, the
//! discipline, the edition and the length of the whole message. Sections 1 to
//! 7 start with their length in four octets and their number in one; what
//! follows of the header depends on the section. Section 8 is the four
//! octets `7777` and nothing else.

use crate::bytes::ByteReader;
use crate::decimal;
use crate::decimal_text;
use crate::templates::value_at;
use crate::templates::GribRead;
use crate::Error;
use crate::Failure;
use vstd::prelude::*;

verus! {

broadcast use crate::bytes::lemma_offset_natural;

/// The letters `GRIB` as a big-endian number.
pub const GRIB: u32 = 0x4752_4942;

/// The letters `7777` as a big-endian number.
pub const END_MARKER: u32 = 0x3737_3737;

/// What the error for a section with another number than the expected one
/// says.
pub open spec fn section_number_text(expected: u8, got: u8) -> Seq<char> {
    "number of section must be "@ + decimal(expected as nat) + ", but got "@ + decimal(got as nat)
}

/// What the error for an edition other than 2 says.
pub open spec fn edition_text(got: u8) -> Seq<char> {
    "edition number must be 2 (grib2), but got "@ + decimal(got as nat)
}

/// The error for a section whose number is not the one expected.
fn wrong_section_number(expected: u8, got: u8) -> (e: Error)
    ensures
        e.failure() == Failure::InvalidData(section_number_text(expected, got)),
{
    Error::InvalidData(
        String::from_str("number of section must be ").concat(
            decimal_text(expected).as_str(),
        ).concat(", but got ").concat(decimal_text(got).as_str()),
    )
}

/// The error for an edition other than 2.
fn wrong_edition(got: u8) -> (e: Error)
    ensures
        e.failure() == Failure::InvalidData(edition_text(got)),
{
    Error::InvalidData(
        String::from_str("edition number must be 2 (grib2), but got ").concat(
            decimal_text(got).as_str(),
        ),
    )
}

/// Section 0: INDICATOR SECTION (IS)
#[derive(Debug)]
pub struct IndicatorSectionHeader {
    pub identifier: u32,
    pub reserved: u16,
    pub discipline: u8,
    pub edition_number: u8,
    pub total_length: u64,
}

impl IndicatorSectionHeader {
    /// The header whose twelve octets behind the letters `GRIB` start at `at`.
    pub open spec fn parsed(bytes: Seq<u8>, at: int) -> Self {
        IndicatorSectionHeader {
            identifier: GRIB,
            reserved: value_at(bytes, at),
            discipline: value_at(bytes, at + 2),
            edition_number: value_at(bytes, at + 3),
            total_length: value_at(bytes, at + 4),
        }
    }

    /// The edition in the header whose octets behind the letters start at
    /// `at`.
    pub open spec fn edition_at(bytes: Seq<u8>, at: int) -> u8 {
        value_at(bytes, at + 3)
    }

    /// Reads what follows the letters `GRIB` in section 0: twelve octets.
    ///
    /// An edition other than 2 is invalid data, found as soon as its octet is
    /// read; a reader that ends before an octet that is needed is an I/O
    /// error.
    pub fn read(reader: &mut ByteReader) -> (r: Result<Self, Error>)
        ensures
            final(reader).bytes() == old(reader).bytes(),
            old(reader).unread() < 4 ==> r matches Err(Error::IO(_)),
            old(reader).unread() >= 4 && Self::edition_at(old(reader).bytes(), old(reader).offset())
                != 2 ==> (r matches Err(e) && e.failure() == Failure::InvalidData(
                edition_text(Self::edition_at(old(reader).bytes(), old(reader).offset())),
            )),
            4 <= old(reader).unread() < 12 && Self::edition_at(
                old(reader).bytes(),
                old(reader).offset(),
            ) == 2 ==> r matches Err(Error::IO(_)),
            old(reader).unread() >= 12 && Self::edition_at(
                old(reader).bytes(),
                old(reader).offset(),
            ) == 2 ==> (r matches Ok(h) && h == Self::parsed(
                old(reader).bytes(),
                old(reader).offset(),
            )) && final(reader).advanced(*old(reader), 12),
    {
        let reserved: u16 = reader.read_grib_value()?;
        let discipline: u8 = reader.read_grib_value()?;
        let edition_number: u8 = reader.read_grib_value()?;
        if edition_number != 2 {
            return Err(wrong_edition(edition_number));
        }
        let total_length: u64 = reader.read_grib_value()?;
        Ok(
            IndicatorSectionHeader {
                identifier: GRIB,
                reserved,
                discipline,
                edition_number,
                total_length,
            },
        )
    }
}

/// Common header fields for section 1 to 8
#[derive(Debug)]
pub struct SectionHeader {
    pub section_length: u32,
    pub number_of_section: u8,
}

impl SectionHeader {
    /// Whether the four octets at `at` are the end marker `7777`.
    pub open spec fn end_marker_at(bytes: Seq<u8>, at: int) -> bool {
        value_at::<u32>(bytes, at) == END_MARKER
    }

    /// The header of the section that starts at `at`: the one that stands
    /// for the end marker where that is looked for and found, else the
    /// length and the number as they are written.
    pub open spec fn parsed(bytes: Seq<u8>, at: int, allow_end: bool) -> Self {
        if allow_end && Self::end_marker_at(bytes, at) {
            SectionHeader { section_length: 4, number_of_section: 8 }
        } else {
            SectionHeader {
                section_length: value_at(bytes, at),
                number_of_section: value_at(bytes, at + 4),
            }
        }
    }

    /// The number of octets that the header at `at` takes: four for the end
    /// marker where it is looked for, else five.
    pub open spec fn octets(bytes: Seq<u8>, at: int, allow_end: bool) -> int {
        if allow_end && Self::end_marker_at(bytes, at) {
            4
        } else {
            5
        }
    }

    /// Reads the header of the next section. With `allow_end`, the four
    /// octets `7777` are read as the end section, of length 4 and number 8.
    ///
    /// It fails, with an I/O error, exactly where the reader ends before the
    /// header does: with the length read where only the number is missing,
    /// else with nothing read.
    pub fn read(reader: &mut ByteReader, allow_end: bool) -> (r: Result<Self, Error>)
        ensures
            final(reader).bytes() == old(reader).bytes(),
            old(reader).unread() >= 4 && old(reader).unread() >= Self::octets(
                old(reader).bytes(),
                old(reader).offset(),
                allow_end,
            ) ==> (r matches Ok(h) && h == Self::parsed(
                old(reader).bytes(),
                old(reader).offset(),
                allow_end,
            )) && final(reader).advanced(
                *old(reader),
                Self::octets(old(reader).bytes(), old(reader).offset(), allow_end),
            ),
            old(reader).unread() < 4 || old(reader).unread() < Self::octets(
                old(reader).bytes(),
                old(reader).offset(),
                allow_end,
            ) ==> (r matches Err(Error::IO(_))) && final(reader).advanced(
                *old(reader),
                if old(reader).unread() < 4 {
                    0
                } else {
                    4
                },
            ),
    {
        let buf: u32 = reader.read_grib_value()?;
        Ok(
            if allow_end && buf == END_MARKER {
                SectionHeader { section_length: 4, number_of_section: 8 }
            } else {
                SectionHeader { section_length: buf, number_of_section: reader.read_grib_value()? }
            },
        )
    }

    /// Succeeds exactly where the section has the given number; any other
    /// number is invalid data.
    pub fn ensure_section_number(&self, number: u8) -> (r: Result<(), Error>)
        ensures
            self.number_of_section == number ==> r is Ok,
            self.number_of_section != number ==> (r matches Err(e) && e.failure()
                == Failure::InvalidData(section_number_text(number, self.number_of_section))),
    {
        if self.number_of_section != number {
            return Err(wrong_section_number(number, self.number_of_section));
        }
        Ok(())
    }
}

/// Section 1: IDENTIFICATION SECTION (IDS)
#[derive(Debug)]
pub struct IdentificationSectionHeader {
    pub section_length: u32,
    pub centre: u16,
    pub sub_centre: u16,
    pub tables_version: u8,
    pub local_tables_version: u8,
    pub significance_of_reference_time: u8,
    pub year: u16,
    pub month: u8,
    pub day: u8,
    pub hour: u8,
    pub minute: u8,
    pub second: u8,
    pub production_status_of_processed_data: u8,
    pub type_of_processed_data: u8,
    pub template_number: Option<u16>,
}

impl IdentificationSectionHeader {
    /// The number of octets of the header behind the length and the number:
    /// sixteen, and two more for the template number where the section is
    /// not exactly 21 octets long.
    pub open spec fn octets(section_length: u32) -> int {
        if section_length == 21 {
            16
        } else {
            18
        }
    }

    /// The header of a section of the given length whose octets behind the
    /// length and the number start at `at`.
    pub open spec fn parsed(section_length: u32, bytes: Seq<u8>, at: int) -> Self {
        IdentificationSectionHeader {
            section_length,
            centre: value_at(bytes, at),
            sub_centre: value_at(bytes, at + 2),
            tables_version: value_at(bytes, at + 4),
            local_tables_version: value_at(bytes, at + 5),
            significance_of_reference_time: value_at(bytes, at + 6),
            year: value_at(bytes, at + 7),
            month: value_at(bytes, at + 9),
            day: value_at(bytes, at + 10),
            hour: value_at(bytes, at + 11),
            minute: value_at(bytes, at + 12),
            second: value_at(bytes, at + 13),
            production_status_of_processed_data: value_at(bytes, at + 14),
            type_of_processed_data: value_at(bytes, at + 15),
            template_number: if section_length == 21 {
                None
            } else {
                Some(value_at(bytes, at + 16))
            },
        }
    }

    /// Whether the length leaves room for the header: exactly 21 octets, or
    /// 23 and more.
    pub open spec fn has_body(&self) -> bool {
        self.section_length == 21 || self.section_length >= 23
    }

    /// Read Section 1: IDENTIFICATION SECTION (IDS)
    ///
    /// A header of another section is invalid data, and nothing is read; a
    /// reader that ends before the header does is an I/O error.
    pub fn read(header: SectionHeader, reader: &mut ByteReader) -> (r: Result<Self, Error>)
        ensures
            final(reader).bytes() == old(reader).bytes(),
            header.number_of_section != 1 ==> (r matches Err(e) && e.failure()
                == Failure::InvalidData(section_number_text(1, header.number_of_section)))
                && *final(reader) == *old(reader),
            header.number_of_section == 1 && old(reader).unread() < Self::octets(
                header.section_length,
            ) ==> r matches Err(Error::IO(_)),
            header.number_of_section == 1 && old(reader).unread() >= Self::octets(
                header.section_length,
            ) ==> (r matches Ok(h) && h == Self::parsed(
                header.section_length,
                old(reader).bytes(),
                old(reader).offset(),
            )) && final(reader).advanced(*old(reader), Self::octets(header.section_length)),
    {
        header.ensure_section_number(1)?;
        Ok(
            Self {
                section_length: header.section_length,
                centre: reader.read_grib_value()?,
                sub_centre: reader.read_grib_value()?,
                tables_version: reader.read_grib_value()?,
                local_tables_version: reader.read_grib_value()?,
                significance_of_reference_time: reader.read_grib_value()?,
                year: reader.read_grib_value()?,
                month: reader.read_grib_value()?,
                day: reader.read_grib_value()?,
                hour: reader.read_grib_value()?,
                minute: reader.read_grib_value()?,
                second: reader.read_grib_value()?,
                production_status_of_processed_data: reader.read_grib_value()?,
                type_of_processed_data: reader.read_grib_value()?,
                template_number: match header.section_length {
                    21 => None,
                    _ => Some(reader.read_grib_value()?),
                },
            },
        )
    }

    /// The number of octets of the section behind its header.
    pub open spec fn body_octets(&self) -> int {
        if self.section_length == 21 {
            0
        } else {
            self.section_length - 23
        }
    }

    /// The number of octets of the section behind its header.
    pub fn body_len(&self) -> (n: u32)
        requires
            self.has_body(),
        ensures
            n == self.body_octets(),
    {
        match self.section_length {
            21 => 0,
            _ => self.section_length - 23,
        }
    }
}

/// Section 2: LOCAL USE SECTION (LOC)
#[derive(Debug)]
pub struct LocalUseSectionHeader {
    pub section_length: u32,
}

impl LocalUseSectionHeader {
    /// Whether the length leaves room for the header.
    pub open spec fn has_body(&self) -> bool {
        self.section_length >= 5
    }

    /// Read Section 2: LOCAL USE SECTION (LOC)
    ///
    /// The header has nothing behind the length and the number, so nothing
    /// is read. A header of another section is invalid data.
    pub fn read(header: SectionHeader, reader: &mut ByteReader) -> (r: Result<
        LocalUseSectionHeader,
        Error,
    >)
        ensures
            *final(reader) == *old(reader),
            header.number_of_section != 2 ==> (r matches Err(e) && e.failure()
                == Failure::InvalidData(section_number_text(2, header.number_of_section))),
            header.number_of_section == 2 ==> (r matches Ok(h) && h.section_length
                == header.section_length),
    {
        header.ensure_section_number(2)?;
        Ok(Self { section_length: header.section_length })
    }

    /// The number of octets of the section behind its header.
    pub open spec fn body_octets(&self) -> int {
        self.section_length - 5
    }

    /// The number of octets of the section behind its header.
    pub fn body_len(&self) -> (n: u32)
        requires
            self.has_body(),
        ensures
            n == self.body_octets(),
    {
        self.section_length - 5
    }
}

/// Section 3: GRID DEFINITION SECTION (GDS)
#[derive(Debug)]
pub struct GridDefinitionSectionHeader {
    pub section_length: u32,
    pub source_of_grid_definition: u8,
    pub number_of_data_points: u32,
    pub number_of_octects_for_number_of_points: u8,
    pub interpretation_of_number_of_points: u8,
    pub template_number: u16,
}

impl GridDefinitionSectionHeader {
    /// The header of a section of the given length whose nine octets behind
    /// the length and the number start at `at`.
    pub open spec fn parsed(section_length: u32, bytes: Seq<u8>, at: int) -> Self {
        GridDefinitionSectionHeader {
            section_length,
            source_of_grid_definition: value_at(bytes, at),
            number_of_data_points: value_at(bytes, at + 1),
            number_of_octects_for_number_of_points: value_at(bytes, at + 5),
            interpretation_of_number_of_points: value_at(bytes, at + 6),
            template_number: value_at(bytes, at + 7),
        }
    }

    /// Whether the length leaves room for the header.
    pub open spec fn has_body(&self) -> bool {
        self.section_length >= 14
    }

    /// Read Section 3: GRID DEFINITION SECTION (GDS)
    ///
    /// A header of another section is invalid data, and nothing is read; a
    /// reader that ends before the header does is an I/O error.
    pub fn read(header: &SectionHeader, reader: &mut ByteReader) -> (r: Result<Self, Error>)
        ensures
            final(reader).bytes() == old(reader).bytes(),
            header.number_of_section != 3 ==> (r matches Err(e) && e.failure()
                == Failure::InvalidData(section_number_text(3, header.number_of_section)))
                && *final(reader) == *old(reader),
            header.number_of_section == 3 && old(reader).unread() < 9 ==> r matches Err(
                Error::IO(_),
            ),
            header.number_of_section == 3 && old(reader).unread() >= 9 ==> (r matches Ok(h) && h
                == Self::parsed(
                header.section_length,
                old(reader).bytes(),
                old(reader).offset(),
            )) && final(reader).advanced(*old(reader), 9),
    {
        header.ensure_section_number(3)?;
        Ok(
            Self {
                section_length: header.section_length,
                source_of_grid_definition: reader.read_grib_value()?,
                number_of_data_points: reader.read_grib_value()?,
                number_of_octects_for_number_of_points: reader.read_grib_value()?,
                interpretation_of_number_of_points: reader.read_grib_value()?,
                template_number: reader.read_grib_value()?,
            },
        )
    }

    /// The number of octets of the section behind its header.
    pub open spec fn body_octets(&self) -> int {
        self.section_length - 14
    }

    /// The number of octets of the section behind its header.
    pub fn body_len(&self) -> (n: u32)
        requires
            self.has_body(),
        ensures
            n == self.body_octets(),
    {
        self.section_length - 14
    }
}

/// Section 4: PRODUCT DEFINITION SECTION (PDS)
#[derive(Debug)]
pub struct ProductDefinitionSectionHeader {
    pub section_length: u32,
    pub nv: u16,
    pub template_number: u16,
}

impl ProductDefinitionSectionHeader {
    /// The header of a section of the given length whose four octets behind
    /// the length and the number start at `at`.
    pub open spec fn parsed(section_length: u32, bytes: Seq<u8>, at: int) -> Self {
        ProductDefinitionSectionHeader {
            section_length,
            nv: value_at(bytes, at),
            template_number: value_at(bytes, at + 2),
        }
    }

    /// Whether the length leaves room for the header.
    pub open spec fn has_body(&self) -> bool {
        self.section_length >= 9
    }

    /// Read Section 4: PRODUCT DEFINITION SECTION (PDS)
    ///
    /// A header of another section is invalid data, and nothing is read; a
    /// reader that ends before the header does is an I/O error.
    pub fn read(header: &SectionHeader, reader: &mut ByteReader) -> (r: Result<Self, Error>)
        ensures
            final(reader).bytes() == old(reader).bytes(),
            header.number_of_section != 4 ==> (r matches Err(e) && e.failure()
                == Failure::InvalidData(section_number_text(4, header.number_of_section)))
                && *final(reader) == *old(reader),
            header.number_of_section == 4 && old(reader).unread() < 4 ==> r matches Err(
                Error::IO(_),
            ),
            header.number_of_section == 4 && old(reader).unread() >= 4 ==> (r matches Ok(h) && h
                == Self::parsed(
                header.section_length,
                old(reader).bytes(),
                old(reader).offset(),
            )) && final(reader).advanced(*old(reader), 4),
    {
        header.ensure_section_number(4)?;
        Ok(
            ProductDefinitionSectionHeader {
                section_length: header.section_length,
                nv: reader.read_grib_value()?,
                template_number: reader.read_grib_value()?,
            },
        )
    }

    /// The number of octets of the section behind its header.
    pub open spec fn body_octets(&self) -> int {
        self.section_length - 9
    }

    /// The number of octets of the section behind its header.
    pub fn body_len(&self) -> (n: u32)
        requires
            self.has_body(),
        ensures
            n == self.body_octets(),
    {
        self.section_length - 9
    }
}

/// Section 5: Data Representation Section (DRS)
#[derive(Debug)]
pub struct DataRepresentationSectionHeader {
    pub section_length: u32,
    pub number_of_values: u32,
    pub template_number: u16,
}

impl DataRepresentationSectionHeader {
    /// The header of a section of the given length whose six octets behind
    /// the length and the number start at `at`.
    pub open spec fn parsed(section_length: u32, bytes: Seq<u8>, at: int) -> Self {
        DataRepresentationSectionHeader {
            section_length,
            number_of_values: value_at(bytes, at),
            template_number: value_at(bytes, at + 4),
        }
    }

    /// Whether the length leaves room for the header.
    pub open spec fn has_body(&self) -> bool {
        self.section_length >= 11
    }

    /// Read Section 5: Data Representation Section (DRS)
    ///
    /// A header of another section is invalid data, and nothing is read; a
    /// reader that ends before the header does is an I/O error.
    pub fn read(header: &SectionHeader, reader: &mut ByteReader) -> (r: Result<
        DataRepresentationSectionHeader,
        Error,
    >)
        ensures
            final(reader).bytes() == old(reader).bytes(),
            header.number_of_section != 5 ==> (r matches Err(e) && e.failure()
                == Failure::InvalidData(section_number_text(5, header.number_of_section)))
                && *final(reader) == *old(reader),
            header.number_of_section == 5 && old(reader).unread() < 6 ==> r matches Err(
                Error::IO(_),
            ),
            header.number_of_section == 5 && old(reader).unread() >= 6 ==> (r matches Ok(h) && h
                == Self::parsed(
                header.section_length,
                old(reader).bytes(),
                old(reader).offset(),
            )) && final(reader).advanced(*old(reader), 6),
    {
        header.ensure_section_number(5)?;
        Ok(
            Self {
                section_length: header.section_length,
                number_of_values: reader.read_grib_value()?,
                template_number: reader.read_grib_value()?,
            },
        )
    }

    /// The number of octets of the section behind its header.
    pub open spec fn body_octets(&self) -> int {
        self.section_length - 11
    }

    /// The number of octets of the section behind its header.
    pub fn body_len(&self) -> (n: u32)
        requires
            self.has_body(),
        ensures
            n == self.body_octets(),
    {
        self.section_length - 11
    }
}

/// Section 6: BIT-MAP SECTION (BITMAP)
#[derive(Debug)]
pub struct BitmapSectionHeader {
    pub section_length: u32,
    pub bit_map_indicator: u8,
}

impl BitmapSectionHeader {
    /// The header of a section of the given length whose one octet behind
    /// the length and the number stands at `at`.
    pub open spec fn parsed(section_length: u32, bytes: Seq<u8>, at: int) -> Self {
        BitmapSectionHeader { section_length, bit_map_indicator: value_at(bytes, at) }
    }

    /// Whether the length leaves room for the header.
    pub open spec fn has_body(&self) -> bool {
        self.section_length >= 6
    }

    /// Read Section 6: BIT-MAP SECTION (BITMAP)
    ///
    /// A header of another section is invalid data, and nothing is read; a
    /// reader that ends before the header does is an I/O error.
    pub fn read(header: &SectionHeader, reader: &mut ByteReader) -> (r: Result<Self, Error>)
        ensures
            final(reader).bytes() == old(reader).bytes(),
            header.number_of_section != 6 ==> (r matches Err(e) && e.failure()
                == Failure::InvalidData(section_number_text(6, header.number_of_section)))
                && *final(reader) == *old(reader),
            header.number_of_section == 6 && old(reader).unread() < 1 ==> r matches Err(
                Error::IO(_),
            ),
            header.number_of_section == 6 && old(reader).unread() >= 1 ==> (r matches Ok(h) && h
                == Self::parsed(
                header.section_length,
                old(reader).bytes(),
                old(reader).offset(),
            )) && final(reader).advanced(*old(reader), 1),
    {
        header.ensure_section_number(6)?;
        Ok(
            Self {
                section_length: header.section_length,
                bit_map_indicator: reader.read_grib_value()?,
            },
        )
    }

    /// The number of octets of the section behind its header.
    pub open spec fn body_octets(&self) -> int {
        self.section_length - 6
    }

    /// The number of octets of the section behind its header.
    pub fn body_len(&self) -> (n: u32)
        requires
            self.has_body(),
        ensures
            n == self.body_octets(),
    {
        self.section_length - (5 + 1)
    }
}

/// Section 7: DATA SECTION (DATA)
#[derive(Debug)]
pub struct DataSectionHeader {
    pub section_length: u32,
}

impl DataSectionHeader {
    /// Whether the length leaves room for the header.
    pub open spec fn has_body(&self) -> bool {
        self.section_length >= 5
    }

    /// Read Section 7: DATA SECTION (DATA)
    ///
    /// A header of another section is invalid data.
    pub fn read(header: &SectionHeader) -> (r: Result<Self, Error>)
        ensures
            header.number_of_section != 7 ==> (r matches Err(e) && e.failure()
                == Failure::InvalidData(section_number_text(7, header.number_of_section))),
            header.number_of_section == 7 ==> (r matches Ok(h) && h.section_length
                == header.section_length),
    {
        header.ensure_section_number(7)?;
        Ok(Self { section_length: header.section_length })
    }

    /// The number of octets of the section behind its header.
    pub open spec fn body_octets(&self) -> int {
        self.section_length - 5
    }

    /// The number of octets of the section behind its header.
    pub fn body_len(&self) -> (n: u32)
        requires
            self.has_body(),
        ensures
            n == self.body_octets(),
    {
        self.section_length - 5
    }
}

} // verus!
