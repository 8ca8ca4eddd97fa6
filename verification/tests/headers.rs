use grib2_reader::bytes::ByteReader;
use grib2_reader::message::BitmapSectionHeader;
use grib2_reader::message::DataRepresentationSectionHeader;
use grib2_reader::message::DataSectionHeader;
use grib2_reader::message::GridDefinitionSectionHeader;
use grib2_reader::message::IdentificationSectionHeader;
use grib2_reader::message::IndicatorSectionHeader;
use grib2_reader::message::LocalUseSectionHeader;
use grib2_reader::message::ProductDefinitionSectionHeader;
use grib2_reader::message::SectionHeader;
use grib2_reader::Error;

fn header(section_length: u32, number_of_section: u8) -> SectionHeader {
    SectionHeader { section_length, number_of_section }
}

#[test]
fn indicator_section_fields() {
    let bytes = [0xab, 0xcd, 10, 2, 0, 0, 0, 0, 0, 0, 0x01, 0x02];
    let mut reader = ByteReader::new(&bytes);
    let is = IndicatorSectionHeader::read(&mut reader).unwrap();
    assert_eq!(is.identifier, 0x4752_4942);
    assert_eq!(is.reserved, 0xabcd);
    assert_eq!(is.discipline, 10);
    assert_eq!(is.edition_number, 2);
    assert_eq!(is.total_length, 258);
    assert_eq!(reader.position(), 12);
}

#[test]
fn indicator_section_with_edition_1_is_invalid() {
    let bytes = [0, 0, 0, 1, 0, 0, 0, 0, 0, 0, 0, 16];
    let mut reader = ByteReader::new(&bytes);
    match IndicatorSectionHeader::read(&mut reader) {
        Err(Error::InvalidData(text)) => assert!(text.contains("edition number must be 2"), "{}", text),
        other => panic!("{:?}", other),
    }
    let short = [0, 0, 0, 1];
    let mut reader = ByteReader::new(&short);
    assert!(matches!(IndicatorSectionHeader::read(&mut reader), Err(Error::InvalidData(_))));
}

#[test]
fn indicator_section_cut_short_is_an_io_error() {
    let bytes = [0, 0, 0, 2, 0, 0, 0, 0, 0, 0, 0];
    let mut reader = ByteReader::new(&bytes);
    assert!(matches!(IndicatorSectionHeader::read(&mut reader), Err(Error::IO(_))));
    let mut reader = ByteReader::new(&bytes[..3]);
    assert!(matches!(IndicatorSectionHeader::read(&mut reader), Err(Error::IO(_))));
}

#[test]
fn section_header_length_and_number() {
    let bytes = [0, 0, 1, 2, 3, 9];
    let mut reader = ByteReader::new(&bytes);
    let h = SectionHeader::read(&mut reader, false).unwrap();
    assert_eq!(h.section_length, 258);
    assert_eq!(h.number_of_section, 3);
    assert_eq!(reader.position(), 5);
}

#[test]
fn end_marker_is_section_8_of_length_4() {
    let bytes = *b"7777";
    let mut reader = ByteReader::new(&bytes);
    let h = SectionHeader::read(&mut reader, true).unwrap();
    assert_eq!(h.section_length, 4);
    assert_eq!(h.number_of_section, 8);
    assert_eq!(reader.position(), 4);
}

#[test]
fn end_marker_is_a_length_where_it_is_not_looked_for() {
    let bytes = *b"7777\x05";
    let mut reader = ByteReader::new(&bytes);
    let h = SectionHeader::read(&mut reader, false).unwrap();
    assert_eq!(h.section_length, 0x3737_3737);
    assert_eq!(h.number_of_section, 5);
    assert_eq!(reader.position(), 5);
    let mut reader = ByteReader::new(&bytes[..4]);
    assert!(matches!(SectionHeader::read(&mut reader, false), Err(Error::IO(_))));
}

#[test]
fn section_header_cut_short_is_an_io_error() {
    let bytes = [0, 0, 0, 21];
    let mut reader = ByteReader::new(&bytes);
    assert!(matches!(SectionHeader::read(&mut reader, true), Err(Error::IO(_))));
    let mut reader = ByteReader::new(&bytes[..2]);
    assert!(matches!(SectionHeader::read(&mut reader, true), Err(Error::IO(_))));
}

#[test]
fn ensure_section_number_names_both_numbers() {
    assert!(header(21, 1).ensure_section_number(1).is_ok());
    match header(21, 5).ensure_section_number(3) {
        Err(Error::InvalidData(text)) => {
            assert_eq!(text, "number of section must be 3, but got 5")
        }
        other => panic!("{:?}", other),
    }
}

#[test]
fn identification_section_of_21_octets_has_no_template_number() {
    let bytes = [0, 34, 0, 0, 2, 1, 1, 0x07, 0xe6, 12, 31, 23, 59, 58, 0, 1, 0xff, 0xff];
    let mut reader = ByteReader::new(&bytes);
    let ids = IdentificationSectionHeader::read(header(21, 1), &mut reader).unwrap();
    assert_eq!(ids.section_length, 21);
    assert_eq!(ids.centre, 34);
    assert_eq!(ids.sub_centre, 0);
    assert_eq!(ids.tables_version, 2);
    assert_eq!(ids.local_tables_version, 1);
    assert_eq!(ids.significance_of_reference_time, 1);
    assert_eq!(ids.year, 2022);
    assert_eq!(ids.month, 12);
    assert_eq!(ids.day, 31);
    assert_eq!(ids.hour, 23);
    assert_eq!(ids.minute, 59);
    assert_eq!(ids.second, 58);
    assert_eq!(ids.production_status_of_processed_data, 0);
    assert_eq!(ids.type_of_processed_data, 1);
    assert_eq!(ids.template_number, None);
    assert_eq!(ids.body_len(), 0);
    assert_eq!(reader.position(), 16);
}

#[test]
fn identification_section_longer_than_21_octets_has_a_template_number() {
    let bytes = [0, 34, 0, 0, 2, 1, 1, 0x07, 0xe6, 12, 31, 23, 59, 58, 0, 1, 0x01, 0x02, 9, 9];
    let mut reader = ByteReader::new(&bytes);
    let ids = IdentificationSectionHeader::read(header(25, 1), &mut reader).unwrap();
    assert_eq!(ids.template_number, Some(258));
    assert_eq!(ids.body_len(), 2);
    assert_eq!(reader.position(), 18);
}

#[test]
fn typed_headers_refuse_another_section() {
    let bytes = [0u8; 32];
    let mut reader = ByteReader::new(&bytes);
    assert!(matches!(
        IdentificationSectionHeader::read(header(21, 2), &mut reader),
        Err(Error::InvalidData(_))
    ));
    assert!(matches!(LocalUseSectionHeader::read(header(5, 1), &mut reader), Err(Error::InvalidData(_))));
    assert!(matches!(
        GridDefinitionSectionHeader::read(&header(72, 4), &mut reader),
        Err(Error::InvalidData(_))
    ));
    assert!(matches!(
        ProductDefinitionSectionHeader::read(&header(34, 3), &mut reader),
        Err(Error::InvalidData(_))
    ));
    assert!(matches!(
        DataRepresentationSectionHeader::read(&header(21, 6), &mut reader),
        Err(Error::InvalidData(_))
    ));
    assert!(matches!(BitmapSectionHeader::read(&header(6, 7), &mut reader), Err(Error::InvalidData(_))));
    assert!(matches!(DataSectionHeader::read(&header(5, 8)), Err(Error::InvalidData(_))));
    assert_eq!(reader.position(), 0);
}

#[test]
fn typed_headers_cut_short_are_io_errors() {
    let bytes = [0u8; 3];
    let mut reader = ByteReader::new(&bytes);
    assert!(matches!(IdentificationSectionHeader::read(header(21, 1), &mut reader), Err(Error::IO(_))));
    let mut reader = ByteReader::new(&bytes);
    assert!(matches!(GridDefinitionSectionHeader::read(&header(72, 3), &mut reader), Err(Error::IO(_))));
    let mut reader = ByteReader::new(&bytes);
    assert!(matches!(ProductDefinitionSectionHeader::read(&header(34, 4), &mut reader), Err(Error::IO(_))));
    let mut reader = ByteReader::new(&bytes);
    assert!(matches!(DataRepresentationSectionHeader::read(&header(21, 5), &mut reader), Err(Error::IO(_))));
    let mut reader = ByteReader::new(&bytes[..0]);
    assert!(matches!(BitmapSectionHeader::read(&header(6, 6), &mut reader), Err(Error::IO(_))));
}

#[test]
fn local_use_section_reads_nothing() {
    let bytes = [1u8, 2, 3];
    let mut reader = ByteReader::new(&bytes);
    let loc = LocalUseSectionHeader::read(header(8, 2), &mut reader).unwrap();
    assert_eq!(loc.section_length, 8);
    assert_eq!(loc.body_len(), 3);
    assert_eq!(reader.position(), 0);
}

#[test]
fn grid_definition_section_fields() {
    let bytes = [0, 0, 0, 1, 0, 0, 0, 0, 0];
    let mut reader = ByteReader::new(&bytes);
    let gds = GridDefinitionSectionHeader::read(&header(72, 3), &mut reader).unwrap();
    assert_eq!(gds.section_length, 72);
    assert_eq!(gds.source_of_grid_definition, 0);
    assert_eq!(gds.number_of_data_points, 256);
    assert_eq!(gds.number_of_octects_for_number_of_points, 0);
    assert_eq!(gds.interpretation_of_number_of_points, 0);
    assert_eq!(gds.template_number, 0);
    assert_eq!(gds.body_len(), 58);
    assert_eq!(reader.position(), 9);
}

#[test]
fn product_definition_section_fields() {
    let bytes = [0, 3, 0xc3, 0x5b];
    let mut reader = ByteReader::new(&bytes);
    let pds = ProductDefinitionSectionHeader::read(&header(34, 4), &mut reader).unwrap();
    assert_eq!(pds.section_length, 34);
    assert_eq!(pds.nv, 3);
    assert_eq!(pds.template_number, 50011);
    assert_eq!(pds.body_len(), 25);
    assert_eq!(reader.position(), 4);
}

#[test]
fn data_representation_section_fields() {
    let bytes = [0, 1, 0, 0, 0, 200];
    let mut reader = ByteReader::new(&bytes);
    let drs = DataRepresentationSectionHeader::read(&header(21, 5), &mut reader).unwrap();
    assert_eq!(drs.section_length, 21);
    assert_eq!(drs.number_of_values, 65536);
    assert_eq!(drs.template_number, 200);
    assert_eq!(drs.body_len(), 10);
    assert_eq!(reader.position(), 6);
}

#[test]
fn bitmap_section_fields() {
    let bytes = [255];
    let mut reader = ByteReader::new(&bytes);
    let bitmap = BitmapSectionHeader::read(&header(6, 6), &mut reader).unwrap();
    assert_eq!(bitmap.section_length, 6);
    assert_eq!(bitmap.bit_map_indicator, 255);
    assert_eq!(bitmap.body_len(), 0);
    assert_eq!(reader.position(), 1);
}

#[test]
fn data_section_fields() {
    let data = DataSectionHeader::read(&header(9, 7)).unwrap();
    assert_eq!(data.section_length, 9);
    assert_eq!(data.body_len(), 4);
}
