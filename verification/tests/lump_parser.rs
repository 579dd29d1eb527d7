use wad::lump_parser::LumpParser;
use wad::WadError;

#[test]
fn read_slice_ok() {
    let mut parser = LumpParser::new(b"01234567");

    assert_eq!(parser.read_slice(1).unwrap(), b"0");
    assert_eq!(parser.read_slice(2).unwrap(), b"12");
    assert_eq!(parser.read_slice(3).unwrap(), b"345");
}

#[test]
fn read_slice_err() {
    let mut parser = LumpParser::new(b"01234567");

    assert_eq!(parser.read_slice(7).unwrap(), b"0123456");
    assert!(parser.read_slice(2).is_err());
    assert!(parser.read_slice(1).is_err());
}

#[test]
fn read_chunk_ok() {
    let mut parser = LumpParser::new(b"01234567");

    assert_eq!(parser.read_chunk::<1>().unwrap(), *b"0");
    assert_eq!(parser.read_chunk::<2>().unwrap(), *b"12");
    assert_eq!(parser.read_chunk::<3>().unwrap(), *b"345");
}

#[test]
fn read_chunk_err() {
    let mut parser = LumpParser::new(b"01234567");

    assert_eq!(parser.read_chunk::<7>().unwrap(), *b"0123456");
    assert!(parser.read_chunk::<2>().is_err());
    assert!(parser.read_chunk::<1>().is_err());
}

#[test]
fn read_i16() {
    let data = [
        0i16.to_le_bytes(),
        42i16.to_le_bytes(),
        i16::MAX.to_le_bytes(),
        i16::MIN.to_le_bytes(),
    ]
    .concat();
    let mut parser = LumpParser::new(&data);

    assert_eq!(parser.read_i16().unwrap(), 0);
    assert_eq!(parser.read_i16().unwrap(), 42);
    assert_eq!(parser.read_i16().unwrap(), i16::MAX);
    assert_eq!(parser.read_i16().unwrap(), i16::MIN);
}

#[test]
fn read_i32() {
    let data = [
        0i32.to_le_bytes(),
        42i32.to_le_bytes(),
        i32::MAX.to_le_bytes(),
        i32::MIN.to_le_bytes(),
    ]
    .concat();
    let mut parser = LumpParser::new(&data);

    assert_eq!(parser.read_i32().unwrap(), 0);
    assert_eq!(parser.read_i32().unwrap(), 42);
    assert_eq!(parser.read_i32().unwrap(), i32::MAX);
    assert_eq!(parser.read_i32().unwrap(), i32::MIN);
}

#[test]
fn has_data_left() {
    let mut parser = LumpParser::new(b"01234567");

    assert!(parser.has_data_left());
    let _ = parser.read_slice(8);
    assert!(!parser.has_data_left());
}

#[test]
fn finish_ok() {
    let mut parser = LumpParser::new(b"01234567");

    let _ = parser.read_slice(8);
    parser.finish().unwrap();
}

#[test]
fn finish_err() {
    let mut parser = LumpParser::new(b"01234567");

    let _ = parser.read_slice(7);
    assert!(parser.finish().is_err());
}

#[test]
fn short_reads_fail_with_truncated_input() {
    assert_eq!(LumpParser::new(b"").read_slice(1), Err(WadError::TruncatedInput));
    assert_eq!(LumpParser::new(b"0").read_i16(), Err(WadError::TruncatedInput));
    assert_eq!(LumpParser::new(b"012").read_i32(), Err(WadError::TruncatedInput));
    assert_eq!(LumpParser::new(b"0123456").read_chunk::<8>(), Err(WadError::TruncatedInput));
    assert_eq!(LumpParser::new(b"0123").read_slice(usize::MAX), Err(WadError::TruncatedInput));
}

#[test]
fn failed_read_leaves_cursor_empty() {
    let mut parser = LumpParser::new(b"012");

    assert_eq!(parser.read_i32(), Err(WadError::TruncatedInput));
    assert!(!parser.has_data_left());
    assert_eq!(parser.read_slice(1), Err(WadError::TruncatedInput));
    assert_eq!(parser.read_slice(0).unwrap(), b"");
    assert_eq!(parser.finish(), Ok(()));
}

#[test]
fn reads_of_nothing_succeed() {
    let mut parser = LumpParser::new(b"");

    assert_eq!(parser.read_slice(0).unwrap(), b"");
    assert_eq!(parser.read_chunk::<0>().unwrap(), [0u8; 0]);
    assert!(!parser.has_data_left());
}

#[test]
fn reads_follow_one_another() {
    let mut parser = LumpParser::new(&[0x34, 0x12, 0x78, 0x56, 0x34, 0x12, 0xff]);

    assert_eq!(parser.read_i16(), Ok(0x1234));
    assert_eq!(parser.read_i32(), Ok(0x1234_5678));
    assert!(parser.has_data_left());
    assert_eq!(parser.read_chunk::<1>(), Ok([0xff]));
    assert!(!parser.has_data_left());
}

#[test]
fn integers_are_little_endian_twos_complement() {
    assert_eq!(LumpParser::new(&[0x01, 0x00]).read_i16(), Ok(1));
    assert_eq!(LumpParser::new(&[0x00, 0x01]).read_i16(), Ok(256));
    assert_eq!(LumpParser::new(&[0xff, 0xff]).read_i16(), Ok(-1));
    assert_eq!(LumpParser::new(&[0xfe, 0xff]).read_i16(), Ok(-2));
    assert_eq!(LumpParser::new(&[0x00, 0x80]).read_i16(), Ok(i16::MIN));
    assert_eq!(LumpParser::new(&[0x01, 0x00, 0x00, 0x00]).read_i32(), Ok(1));
    assert_eq!(LumpParser::new(&[0x00, 0x00, 0x00, 0x01]).read_i32(), Ok(16_777_216));
    assert_eq!(LumpParser::new(&[0xff, 0xff, 0xff, 0xff]).read_i32(), Ok(-1));
    assert_eq!(LumpParser::new(&[0x00, 0x00, 0x00, 0x80]).read_i32(), Ok(i32::MIN));
    assert_eq!(LumpParser::new(&[0xff, 0xff, 0xff, 0x7f]).read_i32(), Ok(i32::MAX));
}

#[test]
fn finish_reports_trailing_data() {
    let mut parser = LumpParser::new(b"01234567");

    let _ = parser.read_slice(7);
    assert_eq!(parser.finish(), Err(WadError::TrailingData));
}
