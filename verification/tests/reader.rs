use just::error::Error;
use just::reader::Reader;

#[test]
fn reads_big_endian_numbers_in_order() {
    let mut reader = Reader::new(vec![0xCA, 0xFE, 0xBA, 0xBE, 0x00, 0x3D, 0x07]);
    assert_eq!(reader.read_int4(), Ok(0xCAFEBABE));
    assert_eq!(reader.read_int2(), Ok(0x003D));
    assert!(!reader.is_at_end());
    assert_eq!(reader.read_int1(), Ok(7));
    assert!(reader.is_at_end());
    assert_eq!(reader.read_int1(), Err(Error::TruncatedInput));
}

#[test]
fn read_int8_takes_the_high_byte_first() {
    let mut reader = Reader::new(vec![0, 1, 2, 3, 4, 5, 6, 7, 8]);
    assert_eq!(reader.read_int8(), Ok(0x0001_0203_0405_0607));
    assert_eq!(reader.cursor, 8);
    assert_eq!(reader.read_int8(), Err(Error::TruncatedInput));
    assert_eq!(reader.cursor, 8);
}

#[test]
fn read_int2_of_largest_value() {
    let mut reader = Reader::new(vec![0xff, 0xff, 0x01, 0x00]);
    assert_eq!(reader.read_int2(), Ok(0xffff));
    assert_eq!(reader.read_int2(), Ok(0x0100));
}

#[test]
fn truncated_read_leaves_the_cursor() {
    let mut reader = Reader::new(vec![1, 2, 3]);
    assert_eq!(reader.read_int4(), Err(Error::TruncatedInput));
    assert_eq!(reader.cursor, 0);
    assert_eq!(reader.read_int2(), Ok(0x0102));
    assert_eq!(reader.cursor, 2);
    assert_eq!(reader.read_int2(), Err(Error::TruncatedInput));
    assert_eq!(reader.cursor, 2);
    assert_eq!(reader.read_int1(), Ok(3));
}

#[test]
fn read_bytes_takes_exactly_what_is_asked() {
    let mut reader = Reader::new(vec![10, 20, 30, 40, 50]);
    assert_eq!(reader.read_bytes(0), Ok(vec![]));
    assert_eq!(reader.cursor, 0);
    assert_eq!(reader.read_bytes(2), Ok(vec![10, 20]));
    assert_eq!(reader.read_bytes(4), Err(Error::TruncatedInput));
    assert_eq!(reader.cursor, 2);
    assert_eq!(reader.read_bytes(3), Ok(vec![30, 40, 50]));
    assert!(reader.is_at_end());
}

#[test]
fn read_string_decodes_utf8() {
    let mut reader = Reader::new(vec![b'M', b'a', b'i', b'n', 0xC3, 0xA9, b'!']);
    assert_eq!(reader.read_string(4), Ok("Main".to_string()));
    assert_eq!(reader.read_string(2), Ok("\u{e9}".to_string()));
    assert_eq!(reader.cursor, 6);
    assert_eq!(reader.read_string(2), Err(Error::TruncatedInput));
    assert_eq!(reader.read_string(1), Ok("!".to_string()));
}

#[test]
fn read_string_rejects_what_is_not_utf8() {
    let mut reader = Reader::new(vec![0xff, 0xfe, b'a']);
    assert_eq!(reader.read_string(2), Err(Error::InvalidUtf8));
    assert_eq!(reader.cursor, 0);
    let mut half = Reader::new(vec![0xC3, 0xA9]);
    assert_eq!(half.read_string(1), Err(Error::InvalidUtf8));
    assert_eq!(half.cursor, 0);
}

#[test]
fn read_gives_the_whole_buffer_whatever_was_read() {
    let mut reader = Reader::new(vec![1, 2, 3]);
    assert_eq!(reader.read_int1(), Ok(1));
    assert_eq!(reader.read(), vec![1, 2, 3]);
    assert_eq!(reader.cursor, 1);
}

#[test]
fn a_cursor_behind_the_end_reads_nothing() {
    let mut reader = Reader { data: vec![1], cursor: 5 };
    assert!(reader.is_at_end());
    assert_eq!(reader.read_int1(), Err(Error::TruncatedInput));
    assert_eq!(reader.read_bytes(0), Err(Error::TruncatedInput));
    assert_eq!(reader.cursor, 5);
}

#[test]
fn an_empty_buffer_is_at_its_end() {
    let mut reader = Reader::new(vec![]);
    assert!(reader.is_at_end());
    assert_eq!(reader.read_int1(), Err(Error::TruncatedInput));
    assert_eq!(reader.read_string(0), Ok(String::new()));
}
