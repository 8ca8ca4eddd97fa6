use grib2_reader::bytes::ByteReader;
use grib2_reader::templates::read_octets;
use grib2_reader::templates::FromGribValue;
use grib2_reader::templates::GribRead;
use grib2_reader::Error;

fn octets(bytes: &[u8], n: u8) -> i32 {
    let mut reader = ByteReader::new(bytes);
    let v = read_octets(&mut reader, n).unwrap();
    assert_eq!(reader.position(), n as usize);
    v
}

#[test]
fn unsigned_numbers_are_big_endian() {
    let bytes = [0x01u8, 0x02, 0x03, 0x04, 0x05, 0x06, 0x07, 0x08, 0x09, 0x0a, 0x0b, 0x0c, 0x0d, 0x0e, 0x0f];
    let mut reader = ByteReader::new(&bytes);
    assert_eq!(reader.read_grib_value::<u8>().unwrap(), 0x01);
    assert_eq!(reader.read_grib_value::<u16>().unwrap(), 0x0203);
    assert_eq!(reader.read_grib_value::<u32>().unwrap(), 0x0405_0607);
    assert_eq!(reader.read_grib_value::<u64>().unwrap(), 0x0809_0a0b_0c0d_0e0f);
    assert_eq!(reader.position(), 15);
    assert_eq!(reader.remaining(), 0);
}

#[test]
fn three_octets_are_big_endian() {
    let bytes = [0x12u8, 0x34, 0x56, 0x78];
    let mut reader = ByteReader::new(&bytes);
    assert_eq!(reader.read_u24().unwrap(), 0x12_3456);
    assert_eq!(reader.read_u8().unwrap(), 0x78);
}

#[test]
fn signed_octet_is_sign_and_magnitude() {
    let bytes = [0x00u8, 0x80, 0x7f, 0xff, 0x01, 0x81];
    let mut reader = ByteReader::new(&bytes);
    assert_eq!(reader.read_grib_value::<i8>().unwrap(), 0);
    assert_eq!(reader.read_grib_value::<i8>().unwrap(), 0);
    assert_eq!(reader.read_grib_value::<i8>().unwrap(), 127);
    assert_eq!(reader.read_grib_value::<i8>().unwrap(), -127);
    assert_eq!(reader.read_grib_value::<i8>().unwrap(), 1);
    assert_eq!(reader.read_grib_value::<i8>().unwrap(), -1);
}

#[test]
fn signed_two_octets_are_sign_and_magnitude() {
    let bytes = [0x00u8, 0x00, 0x80, 0x00, 0x7f, 0xff, 0xff, 0xff, 0x80, 0x02];
    let mut reader = ByteReader::new(&bytes);
    assert_eq!(reader.read_grib_value::<i16>().unwrap(), 0);
    assert_eq!(reader.read_grib_value::<i16>().unwrap(), 0);
    assert_eq!(reader.read_grib_value::<i16>().unwrap(), 32767);
    assert_eq!(reader.read_grib_value::<i16>().unwrap(), -32767);
    assert_eq!(reader.read_grib_value::<i16>().unwrap(), -2);
}

#[test]
fn signed_four_octets_are_sign_and_magnitude() {
    let bytes = [
        0x00u8, 0x00, 0x00, 0x00, 0x80, 0x00, 0x00, 0x00, 0x7f, 0xff, 0xff, 0xff, 0xff, 0xff, 0xff, 0xff,
        0x80, 0x00, 0x01, 0x00,
    ];
    let mut reader = ByteReader::new(&bytes);
    assert_eq!(reader.read_grib_value::<i32>().unwrap(), 0);
    assert_eq!(reader.read_grib_value::<i32>().unwrap(), 0);
    assert_eq!(reader.read_grib_value::<i32>().unwrap(), i32::MAX);
    assert_eq!(reader.read_grib_value::<i32>().unwrap(), -i32::MAX);
    assert_eq!(reader.read_grib_value::<i32>().unwrap(), -256);
}

#[test]
fn read_octets_of_one_octet() {
    assert_eq!(octets(&[0x00], 1), 0);
    assert_eq!(octets(&[0x80], 1), 0);
    assert_eq!(octets(&[0x7f], 1), 127);
    assert_eq!(octets(&[0xff], 1), -127);
    assert_eq!(octets(&[0x85], 1), -5);
}

#[test]
fn read_octets_of_two_octets() {
    assert_eq!(octets(&[0x00, 0x00], 2), 0);
    assert_eq!(octets(&[0x80, 0x00], 2), 0);
    assert_eq!(octets(&[0x7f, 0xff], 2), 32767);
    assert_eq!(octets(&[0xff, 0xff], 2), -32767);
    assert_eq!(octets(&[0x01, 0x02], 2), 258);
}

#[test]
fn read_octets_of_three_octets() {
    assert_eq!(octets(&[0x00, 0x00, 0x00], 3), 0);
    assert_eq!(octets(&[0x80, 0x00, 0x00], 3), 0);
    assert_eq!(octets(&[0x7f, 0xff, 0xff], 3), 8_388_607);
    assert_eq!(octets(&[0xff, 0xff, 0xff], 3), -8_388_607);
    assert_eq!(octets(&[0x80, 0x01, 0x02], 3), -258);
}

#[test]
fn read_octets_of_four_octets() {
    assert_eq!(octets(&[0x00, 0x00, 0x00, 0x00], 4), 0);
    assert_eq!(octets(&[0x80, 0x00, 0x00, 0x00], 4), 0);
    assert_eq!(octets(&[0x7f, 0xff, 0xff, 0xff], 4), 2_147_483_647);
    assert_eq!(octets(&[0xff, 0xff, 0xff, 0xff], 4), -2_147_483_647);
    assert_eq!(octets(&[0x00, 0x01, 0x02, 0x03], 4), 66051);
}

#[test]
fn sign_and_magnitude_round_trip_of_two_octets() {
    for v in -32767i32..=32767 {
        let magnitude = v.unsigned_abs() as u16;
        let word = if v < 0 { 0x8000 | magnitude } else { magnitude };
        let written = word.to_be_bytes();
        assert_eq!(octets(&written, 2), v);
        let mut reader = ByteReader::new(&written);
        assert_eq!(i16::from_grib_reader(&mut reader).unwrap() as i32, v);
    }
}

#[test]
fn sign_and_magnitude_round_trip_of_one_octet() {
    for v in -127i32..=127 {
        let magnitude = v.unsigned_abs() as u8;
        let octet = if v < 0 { 0x80 | magnitude } else { magnitude };
        assert_eq!(octets(&[octet], 1), v);
    }
}

#[test]
fn short_read_is_an_io_error() {
    let bytes = [0x01u8, 0x02, 0x03];
    let mut reader = ByteReader::new(&bytes);
    match reader.read_grib_value::<u32>() {
        Err(Error::IO(e)) => assert_eq!(e.kind(), std::io::ErrorKind::UnexpectedEof),
        other => panic!("{:?}", other),
    }
    let mut reader = ByteReader::new(&bytes);
    assert!(matches!(read_octets(&mut reader, 4), Err(Error::IO(_))));
    let mut reader = ByteReader::new(&bytes[..0]);
    assert!(matches!(reader.read_u8(), Err(Error::IO(_))));
    assert!(matches!(reader.read_u16(), Err(Error::IO(_))));
    assert!(matches!(reader.read_u24(), Err(Error::IO(_))));
    assert!(matches!(reader.read_u64(), Err(Error::IO(_))));
}

#[test]
fn take_bounds_a_reader_to_the_next_octets() {
    let bytes = [1u8, 2, 3, 4, 5];
    let mut reader = ByteReader::new(&bytes);
    assert_eq!(reader.read_u8().unwrap(), 1);
    let mut part = reader.take(3).unwrap();
    assert_eq!(reader.position(), 4);
    assert_eq!(part.position(), 0);
    assert_eq!(part.remaining(), 3);
    assert_eq!(part.rest(), &[2u8, 3, 4][..]);
    assert_eq!(part.read_u16().unwrap(), 0x0203);
    assert_eq!(part.read_u8().unwrap(), 4);
    assert!(matches!(part.read_u8(), Err(Error::IO(_))));
    assert!(matches!(reader.take(2), Err(Error::IO(_))));
    assert_eq!(reader.position(), 4);
    assert_eq!(reader.read_u8().unwrap(), 5);
}

struct Date {
    year: u16,
    month: u8,
    day: u8,
}

impl FromGribValue for Date {
    fn from_grib_reader(reader: &mut ByteReader) -> Result<Self, Error> {
        Ok(Date { year: reader.read_grib_value()?, month: reader.read_grib_value()?, day: reader.read_grib_value()? })
    }
}

#[test]
fn type_of_the_caller_is_read_by_type() {
    let bytes = [0x07u8, 0xe6, 12, 31, 0xee];
    let mut reader = ByteReader::new(&bytes);
    let date: Date = reader.read_grib_value().unwrap();
    assert_eq!((date.year, date.month, date.day), (2022, 12, 31));
    assert_eq!(reader.position(), 4);
    let mut reader = ByteReader::new(&bytes[..3]);
    assert!(matches!(reader.read_grib_value::<Date>(), Err(Error::IO(_))));
}
