use just::bytecode::{LookupSwitch, Opcode, TableSwitch, ToJvmBytecode};
use just::error::Error;
use just::reader::Reader;

/// The number of operand bytes of each opcode as the instruction set gives
/// it; nothing for the switches and for bytes that are no opcode.
fn operands(opcode: u8) -> Option<usize> {
    match opcode {
        0x00..=0x0f => Some(0),
        0x10 => Some(1),
        0x11 => Some(2),
        0x12 => Some(1),
        0x13 | 0x14 => Some(2),
        0x15..=0x19 => Some(1),
        0x1a..=0x35 => Some(0),
        0x36..=0x3a => Some(1),
        0x3b..=0x83 => Some(0),
        0x84 => Some(2),
        0x85..=0x98 => Some(0),
        0x99..=0xa8 => Some(2),
        0xa9 => Some(1),
        0xaa | 0xab => None,
        0xac..=0xb1 => Some(0),
        0xb2..=0xb8 => Some(2),
        0xb9 | 0xba => Some(4),
        0xbb => Some(2),
        0xbc => Some(1),
        0xbd => Some(2),
        0xbe | 0xbf => Some(0),
        0xc0 | 0xc1 => Some(2),
        0xc2 | 0xc3 => Some(0),
        0xc4 => None,
        0xc5 => Some(3),
        0xc6 | 0xc7 => Some(2),
        0xc8 | 0xc9 => Some(4),
        _ => None,
    }
}

fn decode(bytes: Vec<u8>) -> Result<Opcode, Error> {
    Opcode::from_reader(&mut Reader::new(bytes))
}

#[test]
fn instructions_without_operands_are_one_byte() {
    assert_eq!(Opcode::Nop.to_jvm_bytecode(), Ok(vec![0x00]));
    assert_eq!(Opcode::AconstNull.to_jvm_bytecode(), Ok(vec![0x01]));
    assert_eq!(Opcode::Aaload.to_jvm_bytecode(), Ok(vec![0x32]));
    assert_eq!(Opcode::Aastore.to_jvm_bytecode(), Ok(vec![0x53]));
    assert_eq!(Opcode::Areturn.to_jvm_bytecode(), Ok(vec![0xb0]));
    assert_eq!(Opcode::Return_.to_jvm_bytecode(), Ok(vec![0xb1]));
    assert_eq!(Opcode::Arraylength.to_jvm_bytecode(), Ok(vec![0xbe]));
    assert_eq!(Opcode::Athrow.to_jvm_bytecode(), Ok(vec![0xbf]));
    assert_eq!(Opcode::Lcmp.to_jvm_bytecode(), Ok(vec![0x94]));
    assert_eq!(Opcode::Swap.to_jvm_bytecode(), Ok(vec![0x5f]));
}

#[test]
fn operands_follow_the_opcode_in_order() {
    assert_eq!(Opcode::Aload(7).to_jvm_bytecode(), Ok(vec![0x19, 7]));
    assert_eq!(Opcode::Bipush(0xfe).to_jvm_bytecode(), Ok(vec![0x10, 0xfe]));
    assert_eq!(Opcode::Sipush(0x12, 0x34).to_jvm_bytecode(), Ok(vec![0x11, 0x12, 0x34]));
    assert_eq!(Opcode::Getstatic(0, 9).to_jvm_bytecode(), Ok(vec![0xb2, 0, 9]));
    assert_eq!(Opcode::Invokespecial(1, 2).to_jvm_bytecode(), Ok(vec![0xb7, 1, 2]));
    assert_eq!(Opcode::Invokevirtual(3, 4).to_jvm_bytecode(), Ok(vec![0xb6, 3, 4]));
    assert_eq!(Opcode::Iinc(5, 0xff).to_jvm_bytecode(), Ok(vec![0x84, 5, 0xff]));
    assert_eq!(Opcode::Multianewarray(0, 8, 2).to_jvm_bytecode(), Ok(vec![0xc5, 0, 8, 2]));
    assert_eq!(Opcode::GotoW(1, 2, 3, 4).to_jvm_bytecode(), Ok(vec![0xc8, 1, 2, 3, 4]));
    assert_eq!(Opcode::Invokeinterface(0, 5, 2, 0).to_jvm_bytecode(), Ok(vec![0xb9, 0, 5, 2, 0]));
    assert_eq!(Opcode::Invokedynamic(0, 5, 0, 0).to_jvm_bytecode(), Ok(vec![0xba, 0, 5, 0, 0]));
}

#[test]
fn a_family_adds_its_index_to_its_first_opcode() {
    assert_eq!(Opcode::AloadN(0).to_jvm_bytecode(), Ok(vec![0x2a]));
    assert_eq!(Opcode::AloadN(3).to_jvm_bytecode(), Ok(vec![0x2d]));
    assert_eq!(Opcode::AstoreN(2).to_jvm_bytecode(), Ok(vec![0x4d]));
    assert_eq!(Opcode::IloadN(1).to_jvm_bytecode(), Ok(vec![0x1b]));
    assert_eq!(Opcode::LloadN(3).to_jvm_bytecode(), Ok(vec![0x21]));
    assert_eq!(Opcode::FloadN(0).to_jvm_bytecode(), Ok(vec![0x22]));
    assert_eq!(Opcode::DloadN(2).to_jvm_bytecode(), Ok(vec![0x28]));
    assert_eq!(Opcode::IstoreN(0).to_jvm_bytecode(), Ok(vec![0x3b]));
    assert_eq!(Opcode::LstoreN(1).to_jvm_bytecode(), Ok(vec![0x40]));
    assert_eq!(Opcode::FstoreN(3).to_jvm_bytecode(), Ok(vec![0x46]));
    assert_eq!(Opcode::DstoreN(3).to_jvm_bytecode(), Ok(vec![0x4a]));
    assert_eq!(Opcode::IconstI(0).to_jvm_bytecode(), Ok(vec![0x02]));
    assert_eq!(Opcode::IconstI(6).to_jvm_bytecode(), Ok(vec![0x08]));
    assert_eq!(Opcode::LconstL(1).to_jvm_bytecode(), Ok(vec![0x0a]));
    assert_eq!(Opcode::FconstF(2).to_jvm_bytecode(), Ok(vec![0x0d]));
    assert_eq!(Opcode::DconstD(1).to_jvm_bytecode(), Ok(vec![0x0f]));
    assert_eq!(Opcode::FcmOP(0).to_jvm_bytecode(), Ok(vec![0x95]));
    assert_eq!(Opcode::FcmOP(1).to_jvm_bytecode(), Ok(vec![0x96]));
    assert_eq!(Opcode::DcmOP(0).to_jvm_bytecode(), Ok(vec![0x97]));
    assert_eq!(Opcode::DcmOP(1).to_jvm_bytecode(), Ok(vec![0x98]));
    assert_eq!(Opcode::ICOND(0, 0, 8).to_jvm_bytecode(), Ok(vec![0x99, 0, 8]));
    assert_eq!(Opcode::ICOND(5, 0, 8).to_jvm_bytecode(), Ok(vec![0x9e, 0, 8]));
    assert_eq!(Opcode::IfIcmCond(3, 0x12, 0x34).to_jvm_bytecode(), Ok(vec![0xa2, 0x12, 0x34]));
    assert_eq!(Opcode::IfAcmCond(1, 0xff, 0xfe).to_jvm_bytecode(), Ok(vec![0xa6, 0xff, 0xfe]));
}

#[test]
fn a_family_index_out_of_its_family_is_refused() {
    assert_eq!(Opcode::AloadN(4).to_jvm_bytecode(), Err(Error::IndexOutOfRange));
    assert_eq!(Opcode::AstoreN(255).to_jvm_bytecode(), Err(Error::IndexOutOfRange));
    assert_eq!(Opcode::IloadN(4).to_jvm_bytecode(), Err(Error::IndexOutOfRange));
    assert_eq!(Opcode::IconstI(7).to_jvm_bytecode(), Err(Error::IndexOutOfRange));
    assert_eq!(Opcode::LconstL(2).to_jvm_bytecode(), Err(Error::IndexOutOfRange));
    assert_eq!(Opcode::FconstF(3).to_jvm_bytecode(), Err(Error::IndexOutOfRange));
    assert_eq!(Opcode::DconstD(2).to_jvm_bytecode(), Err(Error::IndexOutOfRange));
    assert_eq!(Opcode::DcmOP(2).to_jvm_bytecode(), Err(Error::IndexOutOfRange));
    assert_eq!(Opcode::FcmOP(2).to_jvm_bytecode(), Err(Error::IndexOutOfRange));
    assert_eq!(Opcode::ICOND(6, 0, 0).to_jvm_bytecode(), Err(Error::IndexOutOfRange));
    assert_eq!(Opcode::IfIcmCond(6, 0, 0).to_jvm_bytecode(), Err(Error::IndexOutOfRange));
    assert_eq!(Opcode::IfAcmCond(2, 0, 0).to_jvm_bytecode(), Err(Error::IndexOutOfRange));
}

#[test]
fn decoding_reads_the_operands_of_the_opcode() {
    assert_eq!(decode(vec![0x32]), Ok(Opcode::Aaload));
    assert_eq!(decode(vec![0x19, 9]), Ok(Opcode::Aload(9)));
    assert_eq!(decode(vec![0x2c]), Ok(Opcode::AloadN(2)));
    assert_eq!(decode(vec![0x3e]), Ok(Opcode::IstoreN(3)));
    assert_eq!(decode(vec![0x08]), Ok(Opcode::IconstI(6)));
    assert_eq!(decode(vec![0x0a]), Ok(Opcode::LconstL(1)));
    assert_eq!(decode(vec![0x0b]), Ok(Opcode::FconstF(0)));
    assert_eq!(decode(vec![0x97]), Ok(Opcode::DcmOP(0)));
    assert_eq!(decode(vec![0xa4, 1, 2]), Ok(Opcode::IfIcmCond(5, 1, 2)));
    assert_eq!(decode(vec![0xb7, 0, 1]), Ok(Opcode::Invokespecial(0, 1)));
    assert_eq!(decode(vec![0xba, 0, 1, 2, 3]), Ok(Opcode::Invokedynamic(0, 1, 2, 3)));
    assert_eq!(decode(vec![0xb9, 0, 1, 2, 3]), Ok(Opcode::Invokeinterface(0, 1, 2, 3)));
    assert_eq!(decode(vec![0xb1, 0xff]), Ok(Opcode::Return_));
}

#[test]
fn the_cursor_stops_behind_the_instruction() {
    let mut reader = Reader::new(vec![0x2a, 0xb7, 0x00, 0x08, 0xb1]);
    assert_eq!(Opcode::from_reader(&mut reader), Ok(Opcode::AloadN(0)));
    assert_eq!(reader.cursor, 1);
    assert_eq!(Opcode::from_reader(&mut reader), Ok(Opcode::Invokespecial(0, 8)));
    assert_eq!(reader.cursor, 4);
    assert_eq!(Opcode::from_reader(&mut reader), Ok(Opcode::Return_));
    assert!(reader.is_at_end());
    assert_eq!(Opcode::from_reader(&mut reader), Err(Error::TruncatedInput));
}

#[test]
fn a_byte_that_is_no_opcode_is_refused() {
    assert_eq!(decode(vec![0xc4, 0x15, 0, 1]), Err(Error::UnknownOpcode(0xc4)));
    assert_eq!(decode(vec![0xca]), Err(Error::UnknownOpcode(0xca)));
    assert_eq!(decode(vec![0xfe]), Err(Error::UnknownOpcode(0xfe)));
    assert_eq!(decode(vec![0xff]), Err(Error::UnknownOpcode(0xff)));
}

#[test]
fn missing_operands_are_a_truncation() {
    assert_eq!(decode(vec![]), Err(Error::TruncatedInput));
    assert_eq!(decode(vec![0x19]), Err(Error::TruncatedInput));
    assert_eq!(decode(vec![0xb6, 0]), Err(Error::TruncatedInput));
    assert_eq!(decode(vec![0xc8, 1, 2, 3]), Err(Error::TruncatedInput));
    assert_eq!(decode(vec![0xba, 0, 1]), Err(Error::TruncatedInput));
}

#[test]
fn every_opcode_decodes_and_encodes_to_the_same_bytes() {
    for opcode in 0u8..=0xff {
        let bytes = vec![opcode, 0x11, 0x22, 0x33, 0x44, 0x55];
        let mut reader = Reader::new(bytes.clone());
        match operands(opcode) {
            Some(n) => {
                let instruction = Opcode::from_reader(&mut reader).unwrap();
                assert_eq!(reader.cursor, 1 + n, "opcode {:#x}", opcode);
                assert_eq!(instruction.to_jvm_bytecode(), Ok(bytes[..1 + n].to_vec()), "opcode {:#x}", opcode);
                let again = decode(bytes[..1 + n].to_vec());
                assert_eq!(again, Ok(instruction), "opcode {:#x}", opcode);
            }
            None => {
                if opcode != 0xaa && opcode != 0xab {
                    assert_eq!(Opcode::from_reader(&mut reader), Err(Error::UnknownOpcode(opcode)));
                }
            }
        }
    }
}

#[test]
fn lookupswitch_at_the_start_has_three_padding_bytes() {
    let bytes = vec![
        0xab, 0, 0, 0, // the opcode and the padding
        0, 0, 0, 0x10, // default
        0, 0, 0, 2, // pairs
        0, 0, 0, 1, 0, 0, 0, 0x20, // 1 -> 0x20
        0xff, 0xff, 0xff, 0xfb, 0, 0, 0, 0x30, // -5 -> 0x30
    ];
    let switch = Opcode::Lookupswitch(LookupSwitch {
        pad: 3,
        default: 0x10,
        pairs: vec![(1, 0x20), (0xffff_fffb, 0x30)],
    });
    assert_eq!(switch.to_jvm_bytecode(), Ok(bytes.clone()));
    let mut reader = Reader::new(bytes);
    assert_eq!(Opcode::from_reader(&mut reader), Ok(switch));
    assert!(reader.is_at_end());
}

#[test]
fn the_padding_of_a_switch_follows_its_offset() {
    for offset in 0usize..8 {
        let pad = 3 - (offset % 4);
        let mut bytes = vec![0u8; offset];
        bytes.push(0xab);
        bytes.extend(vec![0u8; pad]);
        bytes.extend(vec![0, 0, 0, 9, 0, 0, 0, 0]);
        let mut reader = Reader { data: bytes.clone(), cursor: offset };
        assert_eq!(
            Opcode::from_reader(&mut reader),
            Ok(Opcode::Lookupswitch(LookupSwitch { pad: pad as u8, default: 9, pairs: vec![] }))
        );
        assert_eq!(reader.cursor, bytes.len());
    }
}

#[test]
fn tableswitch_has_an_offset_for_each_value_of_its_range() {
    let bytes = vec![
        0x00, 0xaa, 0, 0, // nop, the opcode at offset 1, two padding bytes
        0, 0, 0, 0x40, // default
        0xff, 0xff, 0xff, 0xff, // low: -1
        0, 0, 0, 1, // high: 1
        0, 0, 0, 0x11, 0, 0, 0, 0x22, 0, 0, 0, 0x33,
    ];
    let switch = Opcode::Tableswitch(TableSwitch {
        pad: 2,
        default: 0x40,
        low: 0xffff_ffff,
        high: 1,
        offsets: vec![0x11, 0x22, 0x33],
    });
    assert_eq!(switch.to_jvm_bytecode(), Ok(bytes[1..].to_vec()));
    let mut reader = Reader::new(bytes);
    assert_eq!(Opcode::from_reader(&mut reader), Ok(Opcode::Nop));
    assert_eq!(Opcode::from_reader(&mut reader), Ok(switch));
    assert!(reader.is_at_end());
}

#[test]
fn a_tableswitch_with_an_empty_range_has_no_offsets() {
    let bytes = vec![0xaa, 0, 0, 0, 0, 0, 0, 7, 0, 0, 0, 5, 0, 0, 0, 4, 0xb1];
    let mut reader = Reader::new(bytes);
    assert_eq!(
        Opcode::from_reader(&mut reader),
        Ok(Opcode::Tableswitch(TableSwitch { pad: 3, default: 7, low: 5, high: 4, offsets: vec![] }))
    );
    assert_eq!(reader.cursor, 16);
    let negative = vec![0xaa, 0, 0, 0, 0, 0, 0, 7, 0, 0, 0, 0, 0xff, 0xff, 0xff, 0xff];
    assert_eq!(
        decode(negative),
        Ok(Opcode::Tableswitch(TableSwitch { pad: 3, default: 7, low: 0, high: 0xffff_ffff, offsets: vec![] }))
    );
}

#[test]
fn a_switch_that_cannot_be_written_is_refused() {
    let table = |pad: u8, low: u32, high: u32, offsets: Vec<u32>| {
        Opcode::Tableswitch(TableSwitch { pad, default: 0, low, high, offsets }).to_jvm_bytecode()
    };
    assert_eq!(table(4, 0, 0, vec![1]), Err(Error::IndexOutOfRange));
    assert_eq!(table(0, 0, 1, vec![1]), Err(Error::IndexOutOfRange));
    assert_eq!(table(0, 0, 1, vec![1, 2, 3]), Err(Error::IndexOutOfRange));
    assert_eq!(table(0, 2, 1, vec![1]), Err(Error::IndexOutOfRange));
    assert_eq!(table(0, 0x8000_0000, 0x7fff_ffff, vec![]), Err(Error::IndexOutOfRange));
    assert_eq!(
        table(0, 3, 4, vec![1, 2]),
        Ok(vec![0xaa, 0, 0, 0, 0, 0, 0, 0, 3, 0, 0, 0, 4, 0, 0, 0, 1, 0, 0, 0, 2])
    );
    assert_eq!(
        Opcode::Lookupswitch(LookupSwitch { pad: 4, default: 0, pairs: vec![] }).to_jvm_bytecode(),
        Err(Error::IndexOutOfRange)
    );
    assert_eq!(
        Opcode::Lookupswitch(LookupSwitch { pad: 0, default: 1, pairs: vec![] }).to_jvm_bytecode(),
        Ok(vec![0xab, 0, 0, 0, 1, 0, 0, 0, 0])
    );
}

#[test]
fn a_switch_cut_short_is_a_truncation() {
    let whole = vec![0xab, 0, 0, 0, 0, 0, 0, 0x10, 0, 0, 0, 1, 0, 0, 0, 1, 0, 0, 0, 0x20];
    for k in 0..whole.len() {
        assert_eq!(decode(whole[..k].to_vec()), Err(Error::TruncatedInput), "cut at {}", k);
    }
    assert!(decode(whole).is_ok());
    let table = vec![0xaa, 0, 0, 0, 0, 0, 0, 0, 0, 0, 0, 0, 0, 0, 0, 1, 0, 0, 0, 1, 0, 0, 0, 2];
    for k in 0..table.len() {
        assert_eq!(decode(table[..k].to_vec()), Err(Error::TruncatedInput), "cut at {}", k);
    }
    assert!(decode(table).is_ok());
}
