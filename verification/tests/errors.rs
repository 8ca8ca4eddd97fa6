use grib2_reader::bytes::ByteReader;
use grib2_reader::message::IndicatorSectionHeader;
use grib2_reader::message::SectionHeader;
use grib2_reader::Error;

fn said(e: Error) -> String {
    match e {
        Error::InvalidData(text) => text,
        Error::UnsupportedData(text) => text,
        Error::IO(e) => panic!("{:?}", e),
    }
}

#[test]
fn invalid_data_in_words() {
    let e = Error::InvalidData("invalid section number".to_string());
    assert_eq!(e.message(), "Invalid format: invalid section number");
}

#[test]
fn unsupported_data_in_words() {
    let e = Error::UnsupportedData("Only 2nd order is supported".to_string());
    assert_eq!(e.message(), "Unsupported: Only 2nd order is supported");
}

#[test]
fn io_error_in_words() {
    let bytes: [u8; 0] = [];
    let mut reader = ByteReader::new(&bytes);
    let e = reader.read_u8().unwrap_err();
    let text = e.message();
    assert!(text.starts_with("IO: "), "{}", text);
    assert!(text.len() > 4, "{}", text);
    let e = reader.take(1).unwrap_err();
    assert!(e.message().starts_with("IO: "));
    match e {
        Error::IO(e) => assert_eq!(e.kind(), std::io::ErrorKind::UnexpectedEof),
        other => panic!("{:?}", other),
    }
}

#[test]
fn numbers_in_error_texts_are_decimal() {
    for (got, digits) in [(0u8, "0"), (1, "1"), (9, "9"), (10, "10"), (99, "99"), (100, "100"), (255, "255")] {
        let header = SectionHeader { section_length: 5, number_of_section: got };
        let text = said(header.ensure_section_number(7).unwrap_err());
        assert_eq!(text, format!("number of section must be 7, but got {}", digits));
        let header = SectionHeader { section_length: 5, number_of_section: 7 };
        if got != 7 {
            let text = said(header.ensure_section_number(got).unwrap_err());
            assert_eq!(text, format!("number of section must be {}, but got 7", digits));
        }
    }
    for got in 0u8..=255 {
        if got == 2 {
            continue;
        }
        let bytes = [0, 0, 0, got, 0, 0, 0, 0, 0, 0, 0, 16];
        let mut reader = ByteReader::new(&bytes);
        let text = said(IndicatorSectionHeader::read(&mut reader).unwrap_err());
        assert_eq!(text, format!("edition number must be 2 (grib2), but got {}", got));
    }
}
