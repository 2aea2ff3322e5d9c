use just::bytecode::constant_pool::{entry_at, read_pool, text_at, width_of};
use just::bytecode::class_file::slots_of;
use just::bytecode::{CpInfo, CpInfoType, ToJvmBytecode};
use just::error::Error;
use just::reader::Reader;
use just::wire::Decode;

fn entry(tag: u8, info: CpInfoType) -> CpInfo {
    CpInfo { tag, info }
}

fn utf8(text: &str) -> CpInfo {
    entry(1, CpInfoType::Utf8 { length: text.len() as u16, bytes: text.to_string() })
}

fn decode(bytes: Vec<u8>) -> Result<CpInfo, Error> {
    CpInfo::decode(&mut Reader::new(bytes))
}

fn samples() -> Vec<(CpInfo, Vec<u8>)> {
    vec![
        (entry(7, CpInfoType::Class { name_index: 0x0102 }), vec![7, 1, 2]),
        (
            entry(9, CpInfoType::Fieldref { class_index: 3, name_and_type_index: 0x0405 }),
            vec![9, 0, 3, 4, 5],
        ),
        (
            entry(10, CpInfoType::Methodref { class_index: 0xffff, name_and_type_index: 1 }),
            vec![10, 0xff, 0xff, 0, 1],
        ),
        (
            entry(11, CpInfoType::InterfaceMethodref { class_index: 2, name_and_type_index: 6 }),
            vec![11, 0, 2, 0, 6],
        ),
        (entry(8, CpInfoType::String { string_index: 0x0a0b }), vec![8, 0x0a, 0x0b]),
        (entry(3, CpInfoType::Integer { bytes: 0xffff_fffe }), vec![3, 0xff, 0xff, 0xff, 0xfe]),
        (entry(4, CpInfoType::Float { bytes: 0x3fc0_0000 }), vec![4, 0x3f, 0xc0, 0, 0]),
        (
            entry(5, CpInfoType::Long { high_bytes: 1, low_bytes: 0x8000_0002 }),
            vec![5, 0, 0, 0, 1, 0x80, 0, 0, 2],
        ),
        (
            entry(6, CpInfoType::Double { high_bytes: 0x4000_0000, low_bytes: 0 }),
            vec![6, 0x40, 0, 0, 0, 0, 0, 0, 0],
        ),
        (
            entry(12, CpInfoType::NameAndType { name_index: 5, descriptor_index: 6 }),
            vec![12, 0, 5, 0, 6],
        ),
        (utf8("Code"), vec![1, 0, 4, b'C', b'o', b'd', b'e']),
        (utf8(""), vec![1, 0, 0]),
        (utf8("\u{e9}"), vec![1, 0, 2, 0xc3, 0xa9]),
        (
            entry(15, CpInfoType::MethodHandle { reference_kind: 6, reference_index: 0x0123 }),
            vec![15, 6, 1, 0x23],
        ),
        (entry(16, CpInfoType::MethodType { descriptor_index: 9 }), vec![16, 0, 9]),
        (
            entry(18, CpInfoType::InvokeDynamic { bootstrap_method_attr_index: 0, name_and_type_index: 7 }),
            vec![18, 0, 0, 0, 7],
        ),
    ]
}

#[test]
fn each_kind_of_entry_has_its_bytes() {
    for (entry, bytes) in samples() {
        assert_eq!(entry.to_jvm_bytecode(), Ok(bytes));
    }
}

#[test]
fn each_kind_of_entry_is_read_back() {
    for (entry, bytes) in samples() {
        let mut reader = Reader::new(bytes.clone());
        assert_eq!(CpInfo::decode(&mut reader), Ok(entry));
        assert_eq!(reader.cursor, bytes.len());
    }
}

#[test]
fn an_entry_cut_short_is_a_truncation() {
    for (_, bytes) in samples() {
        for k in 0..bytes.len() {
            assert_eq!(decode(bytes[..k].to_vec()), Err(Error::TruncatedInput));
        }
    }
}

#[test]
fn the_reserved_tags_are_unknown() {
    assert_eq!(decode(vec![2, 0, 1, 0, 2]), Err(Error::UnknownTag(2)));
    assert_eq!(decode(vec![13, 0, 1, 0, 2]), Err(Error::UnknownTag(13)));
    assert_eq!(decode(vec![2]), Err(Error::UnknownTag(2)));
    assert_eq!(decode(vec![13]), Err(Error::UnknownTag(13)));
}

#[test]
fn other_tags_without_a_kind_are_unknown() {
    for tag in [0u8, 14, 17, 19, 20, 0x7f, 0xff] {
        assert_eq!(decode(vec![tag, 0, 0, 0, 0, 0, 0, 0, 0]), Err(Error::UnknownTag(tag)));
    }
}

#[test]
fn a_text_that_is_not_utf8_is_refused() {
    assert_eq!(decode(vec![1, 0, 2, 0xff, 0xff]), Err(Error::InvalidUtf8));
    assert_eq!(decode(vec![1, 0, 1, 0xc3, 0xa9]), Err(Error::InvalidUtf8));
}

#[test]
fn the_written_tag_and_length_come_from_the_entry() {
    let stale_tag = entry(99, CpInfoType::Class { name_index: 1 });
    assert_eq!(stale_tag.to_jvm_bytecode(), Ok(vec![7, 0, 1]));
    let stale_length = entry(1, CpInfoType::Utf8 { length: 40, bytes: "ab".to_string() });
    assert_eq!(stale_length.to_jvm_bytecode(), Ok(vec![1, 0, 2, b'a', b'b']));
}

#[test]
fn a_text_of_more_than_65535_bytes_cannot_be_written() {
    let longest = "a".repeat(0xffff);
    let bytes = utf8(&longest).to_jvm_bytecode().unwrap();
    assert_eq!(bytes.len(), 3 + 0xffff);
    assert_eq!(&bytes[..3], &[1, 0xff, 0xff]);
    let too_long = "a".repeat(0x10000);
    assert_eq!(
        entry(1, CpInfoType::Utf8 { length: 0, bytes: too_long }).to_jvm_bytecode(),
        Err(Error::IndexOutOfRange)
    );
}

#[test]
fn a_long_and_a_double_take_two_slots() {
    let long = entry(5, CpInfoType::Long { high_bytes: 0, low_bytes: 1 });
    let double = entry(6, CpInfoType::Double { high_bytes: 0, low_bytes: 1 });
    assert_eq!(width_of(&long), 2);
    assert_eq!(width_of(&double), 2);
    assert_eq!(width_of(&utf8("a")), 1);
    assert_eq!(width_of(&entry(3, CpInfoType::Integer { bytes: 1 })), 1);
}

#[test]
fn the_pool_is_indexed_by_slot() {
    let pool = vec![
        utf8("first"),
        entry(5, CpInfoType::Long { high_bytes: 0, low_bytes: 1 }),
        utf8("fourth"),
        entry(6, CpInfoType::Double { high_bytes: 0, low_bytes: 1 }),
        entry(7, CpInfoType::Class { name_index: 1 }),
    ];
    assert_eq!(entry_at(&pool, 0), None);
    assert_eq!(entry_at(&pool, 1), Some(&pool[0]));
    assert_eq!(entry_at(&pool, 2), Some(&pool[1]));
    assert_eq!(entry_at(&pool, 3), None);
    assert_eq!(entry_at(&pool, 4), Some(&pool[2]));
    assert_eq!(entry_at(&pool, 5), Some(&pool[3]));
    assert_eq!(entry_at(&pool, 6), None);
    assert_eq!(entry_at(&pool, 7), Some(&pool[4]));
    assert_eq!(entry_at(&pool, 8), None);
    assert_eq!(entry_at(&pool, 0xffff), None);
    assert_eq!(text_at(&pool, 1), Some(&"first".to_string()));
    assert_eq!(text_at(&pool, 4), Some(&"fourth".to_string()));
    assert_eq!(text_at(&pool, 2), None);
    assert_eq!(text_at(&pool, 3), None);
    assert_eq!(text_at(&pool, 7), None);
    assert_eq!(slots_of(&pool), Some(7));
    assert_eq!(slots_of(&vec![]), Some(0));
}

#[test]
fn the_count_of_a_pool_is_one_above_its_slots() {
    let bytes = vec![
        5, 0, 0, 0, 0, 0, 0, 0, 9, // a long: slots 1 and 2
        1, 0, 1, b'x', // a text: slot 3
        7, 0, 3, // a class: slot 4
        0xee,
    ];
    let mut reader = Reader::new(bytes.clone());
    let pool = read_pool(&mut reader, 5).unwrap();
    assert_eq!(
        pool,
        vec![
            entry(5, CpInfoType::Long { high_bytes: 0, low_bytes: 9 }),
            utf8("x"),
            entry(7, CpInfoType::Class { name_index: 3 }),
        ]
    );
    assert_eq!(reader.cursor, 16);
    let mut short = Reader::new(bytes.clone());
    assert_eq!(read_pool(&mut short, 3).unwrap().len(), 1);
    assert_eq!(short.cursor, 9);
    let mut odd = Reader::new(bytes.clone());
    assert_eq!(read_pool(&mut odd, 2).unwrap().len(), 1);
    let mut none = Reader::new(bytes.clone());
    assert_eq!(read_pool(&mut none, 1), Ok(vec![]));
    assert_eq!(read_pool(&mut none, 0), Ok(vec![]));
    assert_eq!(none.cursor, 0);
    let mut more = Reader::new(bytes);
    assert_eq!(read_pool(&mut more, 6), Err(Error::UnknownTag(0xee)));
}
