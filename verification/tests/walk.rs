use grib2_reader::bytes::ByteReader;
use grib2_reader::message::BitmapSectionHeader;
use grib2_reader::message::DataRepresentationSectionHeader;
use grib2_reader::message::DataSectionHeader;
use grib2_reader::message::GridDefinitionSectionHeader;
use grib2_reader::message::IdentificationSectionHeader;
use grib2_reader::message::IndicatorSectionHeader;
use grib2_reader::message::LocalUseSectionHeader;
use grib2_reader::message::ProductDefinitionSectionHeader;
use grib2_reader::reader::next_section;
use grib2_reader::reader::Section;
use grib2_reader::reader::SkipAll;
use grib2_reader::templates::read_data_7_0;
use grib2_reader::templates::DataRepresentationTemplate5_0;
use grib2_reader::Error;
use grib2_reader::MessageReader;

fn indicator(edition: u8) -> Vec<u8> {
    let mut bytes = b"GRIB".to_vec();
    bytes.extend([0, 0, 0, edition]);
    bytes.extend(0u64.to_be_bytes());
    bytes
}

fn section(number: u8, header: &[u8], body: &[u8]) -> Vec<u8> {
    let length = (5 + header.len() + body.len()) as u32;
    let mut bytes = length.to_be_bytes().to_vec();
    bytes.push(number);
    bytes.extend(header);
    bytes.extend(body);
    bytes
}

fn identification() -> Vec<u8> {
    section(1, &[0, 34, 0, 0, 2, 1, 1, 0x07, 0xe6, 12, 31, 23, 59, 58, 0, 1], &[])
}

fn grid() -> Vec<u8> {
    section(3, &[0, 0, 0, 0, 4, 0, 0, 0, 0], &[0x11; 58])
}

fn product(data: &[u8]) -> Vec<u8> {
    let mut bytes = section(4, &[0, 0, 0, 0], &[0x22; 25]);
    let mut drs = vec![0, 0, 0, 0];
    drs.extend(0i16.to_be_bytes());
    drs.extend(0i16.to_be_bytes());
    drs.extend([8, 0]);
    bytes.extend(section(5, &[0, 0, 0, data.len() as u8, 0, 0], &drs));
    bytes.extend(section(6, &[255], &[]));
    bytes.extend(section(7, &[], data));
    bytes
}

fn message(products: usize) -> Vec<u8> {
    let mut bytes = indicator(2);
    bytes.extend(identification());
    bytes.extend(grid());
    for _ in 0..products {
        bytes.extend(product(&[1, 2, 3, 4]));
    }
    bytes.extend(b"7777");
    bytes
}

struct Skip;

impl MessageReader for Skip {}

#[derive(Default)]
struct Recorder {
    seen: Vec<u8>,
    bodies: Vec<usize>,
    number_of_values: u32,
    template: Option<DataRepresentationTemplate5_0>,
    samples: Vec<Vec<i32>>,
    template_number: Option<Option<u16>>,
}

impl MessageReader for Recorder {
    fn handle_indicator(&mut self, is: IndicatorSectionHeader) -> Result<(), Error> {
        assert_eq!(is.edition_number, 2);
        self.seen.push(0);
        Ok(())
    }

    fn handle_identification(
        &mut self,
        ids: IdentificationSectionHeader,
        reader: &mut ByteReader,
    ) -> Result<(), Error> {
        self.seen.push(1);
        self.bodies.push(reader.remaining());
        self.template_number = Some(ids.template_number);
        Ok(())
    }

    fn handle_local_use(&mut self, loc: LocalUseSectionHeader, reader: &mut ByteReader) -> Result<(), Error> {
        self.seen.push(2);
        assert_eq!(reader.remaining(), loc.body_len() as usize);
        self.bodies.push(reader.remaining());
        Ok(())
    }

    fn handle_grid_definition(
        &mut self,
        gds: GridDefinitionSectionHeader,
        reader: &mut ByteReader,
    ) -> Result<(), Error> {
        self.seen.push(3);
        assert_eq!(reader.remaining(), gds.body_len() as usize);
        self.bodies.push(reader.remaining());
        // reads a part of the body and leaves the rest
        reader.read_u32()?;
        Ok(())
    }

    fn handle_product_definition(
        &mut self,
        pds: ProductDefinitionSectionHeader,
        reader: &mut ByteReader,
    ) -> Result<(), Error> {
        self.seen.push(4);
        assert_eq!(reader.remaining(), pds.body_len() as usize);
        self.bodies.push(reader.remaining());
        Ok(())
    }

    fn handle_data_representation(
        &mut self,
        drs: DataRepresentationSectionHeader,
        reader: &mut ByteReader,
    ) -> Result<(), Error> {
        self.seen.push(5);
        assert_eq!(reader.remaining(), drs.body_len() as usize);
        self.bodies.push(reader.remaining());
        self.number_of_values = drs.number_of_values;
        self.template = Some(DataRepresentationTemplate5_0::read(reader)?);
        Ok(())
    }

    fn handle_bitmap(&mut self, bitmap: BitmapSectionHeader, reader: &mut ByteReader) -> Result<(), Error> {
        self.seen.push(6);
        assert_eq!(bitmap.bit_map_indicator, 255);
        self.bodies.push(reader.remaining());
        Ok(())
    }

    fn handle_data(&mut self, data: DataSectionHeader, reader: &mut ByteReader) -> Result<(), Error> {
        self.seen.push(7);
        assert_eq!(reader.remaining(), data.body_len() as usize);
        self.bodies.push(reader.remaining());
        let template = self.template.take().unwrap();
        self.samples.push(read_data_7_0(reader, self.number_of_values, &template)?);
        Ok(())
    }
}

struct Refuse;

impl MessageReader for Refuse {
    fn handle_bitmap(&mut self, _bitmap: BitmapSectionHeader, _reader: &mut ByteReader) -> Result<(), Error> {
        Err(Error::UnsupportedData("bitmap".to_string()))
    }
}

struct RefuseGrid(Vec<u8>);
impl MessageReader for RefuseGrid {
    fn handle_indicator(&mut self, _is: IndicatorSectionHeader) -> Result<(), Error> {
        self.0.push(0);
        Ok(())
    }
    fn handle_identification(
        &mut self,
        _ids: IdentificationSectionHeader,
        _reader: &mut ByteReader,
    ) -> Result<(), Error> {
        self.0.push(1);
        Ok(())
    }
    fn handle_grid_definition(
        &mut self,
        _gds: GridDefinitionSectionHeader,
        _reader: &mut ByteReader,
    ) -> Result<(), Error> {
        self.0.push(3);
        Err(Error::InvalidData("grid".to_string()))
    }
    fn handle_product_definition(
        &mut self,
        _pds: ProductDefinitionSectionHeader,
        _reader: &mut ByteReader,
    ) -> Result<(), Error> {
        self.0.push(4);
        Ok(())
    }
}

struct RefuseAll;
impl MessageReader for RefuseAll {
    fn handle_indicator(&mut self, _is: IndicatorSectionHeader) -> Result<(), Error> {
        Err(Error::UnsupportedData("indicator".to_string()))
    }
}

fn walk(bytes: &[u8]) -> Result<Option<()>, Error> {
    let mut reader = ByteReader::new(bytes);
    Skip.read_next_message(&mut reader)
}

#[test]
fn empty_stream_has_no_more_messages() {
    let bytes: [u8; 0] = [];
    let mut reader = ByteReader::new(&bytes);
    assert!(matches!(Skip.read_next_message(&mut reader), Ok(None)));
    assert_eq!(reader.position(), 0);
}

#[test]
fn stream_of_the_letters_alone_is_an_io_error() {
    assert!(matches!(walk(b"GRIB"), Err(Error::IO(_))));
}

#[test]
fn stream_that_ends_inside_the_letters_is_an_io_error() {
    assert!(matches!(walk(b"GR"), Err(Error::IO(_))));
    assert!(matches!(walk(b"X"), Err(Error::IO(_))));
}

#[test]
fn other_letters_are_invalid() {
    let mut bytes = message(1);
    bytes[3] = b'X';
    match walk(&bytes) {
        Err(Error::InvalidData(text)) => assert_eq!(text, "message identifier must be 'GRIB'"),
        other => panic!("{:?}", other),
    }
    assert!(matches!(walk(b"GRIX"), Err(Error::InvalidData(_))));
}

#[test]
fn edition_1_is_invalid() {
    let mut bytes = message(1);
    bytes[7] = 1;
    match walk(&bytes) {
        Err(Error::InvalidData(text)) => assert!(text.contains("edition number must be 2"), "{}", text),
        other => panic!("{:?}", other),
    }
}

#[test]
fn identification_section_of_21_octets_is_handed_over_without_template_number() {
    let bytes = message(1);
    let mut recorder = Recorder::default();
    let mut reader = ByteReader::new(&bytes);
    recorder.read_next_message(&mut reader).unwrap();
    assert_eq!(recorder.template_number, Some(None));
}

#[test]
fn two_products_under_one_grid() {
    let bytes = message(2);
    let mut recorder = Recorder::default();
    let mut reader = ByteReader::new(&bytes);
    assert!(matches!(recorder.read_next_message(&mut reader), Ok(Some(()))));
    assert_eq!(recorder.seen, vec![0, 1, 3, 4, 5, 6, 7, 4, 5, 6, 7]);
    assert_eq!(recorder.bodies, vec![0, 58, 25, 10, 0, 4, 25, 10, 0, 4]);
    assert_eq!(recorder.samples, vec![vec![1, 2, 3, 4], vec![1, 2, 3, 4]]);
    assert_eq!(reader.position(), bytes.len());
}

#[test]
fn sections_of_two_products_in_order() {
    let bytes = message(2);
    let mut reader = ByteReader::new(&bytes[16..]);
    let mut numbers = Vec::new();
    let mut prev = 0;
    loop {
        let before = reader.position();
        let section = next_section(&mut reader, prev).unwrap();
        prev = match section {
            Section::Identification(h, _) => {
                assert_eq!(reader.position() - before, h.section_length as usize);
                1
            }
            Section::LocalUse(_, _) => 2,
            Section::GridDefinition(h, body) => {
                assert_eq!(reader.position() - before, h.section_length as usize);
                assert_eq!(body.remaining(), 58);
                3
            }
            Section::ProductDefinition(h, _) => {
                assert_eq!(reader.position() - before, h.section_length as usize);
                4
            }
            Section::DataRepresentation(h, _) => {
                assert_eq!(reader.position() - before, h.section_length as usize);
                5
            }
            Section::Bitmap(h, _) => {
                assert_eq!(reader.position() - before, h.section_length as usize);
                6
            }
            Section::Data(h, body) => {
                assert_eq!(reader.position() - before, h.section_length as usize);
                assert_eq!(body.rest(), &[1u8, 2, 3, 4][..]);
                7
            }
            Section::End(h) => {
                assert_eq!(h.section_length, 4);
                assert_eq!(h.number_of_section, 8);
                assert_eq!(reader.position() - before, 4);
                8
            }
        };
        numbers.push(prev);
        if prev == 8 {
            break;
        }
    }
    assert_eq!(numbers, vec![1, 3, 4, 5, 6, 7, 4, 5, 6, 7, 8]);
    assert_eq!(reader.remaining(), 0);
}

#[test]
fn several_grids_with_local_use_sections() {
    let mut bytes = indicator(2);
    bytes.extend(identification());
    bytes.extend(section(2, &[], &[9, 9, 9]));
    bytes.extend(grid());
    bytes.extend(product(&[5]));
    bytes.extend(grid());
    bytes.extend(product(&[6]));
    bytes.extend(product(&[7]));
    bytes.extend(section(2, &[], &[]));
    bytes.extend(grid());
    bytes.extend(product(&[8]));
    bytes.extend(b"7777");
    let mut recorder = Recorder::default();
    let mut reader = ByteReader::new(&bytes);
    assert!(matches!(recorder.read_next_message(&mut reader), Ok(Some(()))));
    assert_eq!(
        recorder.seen,
        vec![0, 1, 2, 3, 4, 5, 6, 7, 3, 4, 5, 6, 7, 4, 5, 6, 7, 2, 3, 4, 5, 6, 7]
    );
    assert_eq!(recorder.samples, vec![vec![5], vec![6], vec![7], vec![8]]);
    assert_eq!(reader.position(), bytes.len());
}

#[test]
fn messages_one_after_the_other() {
    let mut bytes = Vec::new();
    let count = 3;
    for products in 1..=count {
        bytes.extend(message(products));
    }
    let mut reader = ByteReader::new(&bytes);
    let mut ends = Vec::new();
    for _ in 0..count {
        assert!(matches!(Skip.read_next_message(&mut reader), Ok(Some(()))));
        ends.push(reader.position());
    }
    assert_eq!(ends, vec![message(1).len(), message(1).len() + message(2).len(), bytes.len()]);
    assert!(matches!(Skip.read_next_message(&mut reader), Ok(None)));
    assert!(matches!(Skip.read_next_message(&mut reader), Ok(None)));
    assert_eq!(reader.position(), bytes.len());
}

#[test]
fn skipping_every_section_finds_the_ends_of_the_messages() {
    let mut bytes = message(1);
    bytes.extend(message(3));
    let mut reader = ByteReader::new(&bytes);
    assert!(matches!(SkipAll.read_next_message(&mut reader), Ok(Some(()))));
    assert_eq!(reader.position(), message(1).len());
    assert!(matches!(SkipAll.read_next_message(&mut reader), Ok(Some(()))));
    assert_eq!(reader.position(), bytes.len());
    assert!(matches!(SkipAll.read_next_message(&mut reader), Ok(None)));
}

#[test]
fn end_section_written_with_length_and_number() {
    let mut bytes = message(1);
    bytes.truncate(bytes.len() - 4);
    bytes.extend([0, 0, 0, 5, 8]);
    let mut reader = ByteReader::new(&bytes);
    assert!(matches!(Skip.read_next_message(&mut reader), Ok(Some(()))));
    assert_eq!(reader.position(), bytes.len());
}

#[test]
fn handler_error_is_handed_on() {
    let bytes = message(1);
    let mut reader = ByteReader::new(&bytes);
    match Refuse.read_next_message(&mut reader) {
        Err(Error::UnsupportedData(text)) => assert_eq!(text, "bitmap"),
        other => panic!("{:?}", other),
    }
}

#[test]
fn no_handler_is_called_behind_the_one_that_refuses() {
    let bytes = message(1);
    let mut reader = ByteReader::new(&bytes);
    let mut handlers = RefuseGrid(Vec::new());
    match handlers.read_next_message(&mut reader) {
        Err(Error::InvalidData(text)) => assert_eq!(text, "grid"),
        other => panic!("{:?}", other),
    }
    assert_eq!(handlers.0, vec![0, 1, 3]);
}

#[test]
fn what_is_wrong_with_section_0_comes_before_any_handler() {
    let mut reader = ByteReader::new(b"GR");
    assert!(matches!(RefuseAll.read_next_message(&mut reader), Err(Error::IO(_))));
    let mut reader = ByteReader::new(b"GRIX");
    assert!(matches!(RefuseAll.read_next_message(&mut reader), Err(Error::InvalidData(_))));
    let mut bytes = message(1);
    bytes[7] = 3;
    let mut reader = ByteReader::new(&bytes);
    assert!(matches!(RefuseAll.read_next_message(&mut reader), Err(Error::InvalidData(_))));
    let bytes = message(1);
    let mut reader = ByteReader::new(&bytes[..15]);
    assert!(matches!(RefuseAll.read_next_message(&mut reader), Err(Error::IO(_))));
    let mut reader = ByteReader::new(&bytes);
    match RefuseAll.read_next_message(&mut reader) {
        Err(Error::UnsupportedData(text)) => assert_eq!(text, "indicator"),
        other => panic!("{:?}", other),
    }
}

#[test]
fn section_out_of_order_is_invalid() {
    // section 5 where section 4 is due
    let mut bytes = indicator(2);
    bytes.extend(identification());
    bytes.extend(grid());
    bytes.extend(section(5, &[0, 0, 0, 0, 0, 0], &[]));
    match walk(&bytes) {
        Err(Error::InvalidData(text)) => assert_eq!(text, "number of section must be 4, but got 5"),
        other => panic!("{:?}", other),
    }
    // section 3 where section 1 is due
    let mut bytes = indicator(2);
    bytes.extend(grid());
    assert!(matches!(walk(&bytes), Err(Error::InvalidData(_))));
    // the end marker is no end where a product is incomplete
    let mut bytes = indicator(2);
    bytes.extend(identification());
    bytes.extend(grid());
    bytes.extend(section(4, &[0, 0, 0, 0], &[]));
    bytes.extend(b"7777\x08");
    assert!(matches!(walk(&bytes), Err(Error::InvalidData(_))));
}

#[test]
fn unknown_section_behind_a_product_is_invalid() {
    let mut bytes = message(1);
    bytes.truncate(bytes.len() - 4);
    bytes.extend(section(9, &[], &[]));
    match walk(&bytes) {
        Err(Error::InvalidData(text)) => assert_eq!(text, "invalid section number"),
        other => panic!("{:?}", other),
    }
    let mut bytes = message(1);
    bytes.truncate(bytes.len() - 4);
    bytes.extend(section(5, &[0, 0, 0, 0, 0, 0], &[]));
    assert!(matches!(walk(&bytes), Err(Error::InvalidData(_))));
}

#[test]
fn section_length_shorter_than_the_header_is_invalid() {
    let mut bytes = indicator(2);
    bytes.extend(identification());
    let mut short = grid();
    short[3] = 13;
    bytes.extend(short);
    assert!(matches!(walk(&bytes), Err(Error::InvalidData(_))));
    let mut bytes = indicator(2);
    let mut ids = identification();
    ids[3] = 22;
    ids.push(0);
    ids.push(0);
    bytes.extend(ids);
    assert!(matches!(walk(&bytes), Err(Error::InvalidData(_))));
}

#[test]
fn message_cut_short_is_an_io_error() {
    let bytes = message(2);
    for cut in 1..bytes.len() {
        assert!(matches!(walk(&bytes[..cut]), Err(Error::IO(_))), "{}", cut);
    }
}

fn refused(bytes: &[u8], prev: u8) -> String {
    let mut reader = ByteReader::new(bytes);
    match next_section(&mut reader, prev) {
        Err(Error::InvalidData(text)) => text,
        other => panic!("{:?}", other),
    }
}

#[test]
fn section_that_may_not_follow_names_the_section_that_is_due() {
    let nine = section(9, &[], &[]);
    assert_eq!(refused(&nine, 0), "number of section must be 1, but got 9");
    assert_eq!(refused(&nine, 1), "number of section must be 3, but got 9");
    assert_eq!(refused(&nine, 2), "number of section must be 3, but got 9");
    assert_eq!(refused(&nine, 3), "number of section must be 4, but got 9");
    assert_eq!(refused(&nine, 4), "number of section must be 5, but got 9");
    assert_eq!(refused(&nine, 5), "number of section must be 6, but got 9");
    assert_eq!(refused(&nine, 6), "number of section must be 7, but got 9");
    assert_eq!(refused(&nine, 7), "invalid section number");
    assert_eq!(refused(&nine, 8), "invalid section number");
    assert_eq!(refused(&nine, 200), "invalid section number");
    // the end marker is looked for behind section 7 alone
    let end = *b"7777\x08";
    assert_eq!(refused(&end, 3), "number of section must be 4, but got 8");
    // section 2 may stand behind sections 1 and 7 alone
    let local = section(2, &[], &[]);
    assert_eq!(refused(&local, 2), "number of section must be 3, but got 2");
    assert_eq!(refused(&local, 4), "number of section must be 5, but got 2");
}

#[test]
fn section_shorter_than_its_header_says_so() {
    let mut short = section(4, &[0, 0, 0, 0], &[]);
    short[3] = 8;
    assert_eq!(refused(&short, 3), "section length is shorter than the section's header");
    let mut short = section(7, &[], &[]);
    short[3] = 4;
    assert_eq!(refused(&short, 6), "section length is shorter than the section's header");
}

#[test]
fn section_cut_short_is_an_io_error() {
    let whole = section(3, &[0, 0, 0, 0, 4, 0, 0, 0, 0], &[1, 2, 3]);
    for cut in 0..whole.len() {
        let mut reader = ByteReader::new(&whole[..cut]);
        assert!(matches!(next_section(&mut reader, 2), Err(Error::IO(_))), "{}", cut);
    }
    let mut reader = ByteReader::new(&whole);
    match next_section(&mut reader, 2).unwrap() {
        Section::GridDefinition(h, body) => {
            assert_eq!(h.number_of_data_points, 4);
            assert_eq!(body.rest(), &[1u8, 2, 3][..]);
        }
        other => panic!("{:?}", other),
    }
    assert_eq!(reader.remaining(), 0);
}
