use just::bytecode::{
    Annotation, BootstrapMethod, ElementValue, ElementValueKind, ElementValuePair, ExceptionTable,
    InnerClass, LineNumberTable, LocalVariableTable, LocalVariableTypeTable, ParameterAnnotation,
    StackMapFrame, ToJvmBytecode, VerificationTypeInfo,
};
use just::error::Error;
use just::flags::Flags;
use just::reader::Reader;
use just::wire::{decode_counted, decode_n, encode_all, encode_counted, put_u16, put_u32, Decode};

fn round_trip<T: ToJvmBytecode + Decode + PartialEq + std::fmt::Debug>(value: T, bytes: Vec<u8>)
where
    T::V: just::wire::Parse,
{
    assert_eq!(value.to_jvm_bytecode(), Ok(bytes.clone()));
    let mut reader = Reader::new(bytes.clone());
    assert_eq!(T::decode(&mut reader), Ok(value));
    assert_eq!(reader.cursor, bytes.len());
    for k in 0..bytes.len() {
        let mut cut = Reader::new(bytes[..k].to_vec());
        assert_eq!(T::decode(&mut cut), Err(Error::TruncatedInput), "cut at {}", k);
    }
}

#[test]
fn numbers_are_written_high_byte_first() {
    let mut out = vec![9];
    put_u16(&mut out, 0x1234);
    put_u32(&mut out, 0xCAFEBABE);
    assert_eq!(out, vec![9, 0x12, 0x34, 0xCA, 0xFE, 0xBA, 0xBE]);
    round_trip(0xabcdu16, vec![0xab, 0xcd]);
    round_trip(0x0102_0304u32, vec![1, 2, 3, 4]);
    round_trip((1u32, 0xffff_ffffu32), vec![0, 0, 0, 1, 0xff, 0xff, 0xff, 0xff]);
}

#[test]
fn a_table_is_its_items_one_behind_the_other() {
    let mut out = vec![];
    assert_eq!(encode_all(&vec![1u16, 2, 0x0300], &mut out), Ok(()));
    assert_eq!(out, vec![0, 1, 0, 2, 3, 0]);
    let mut counted = vec![0xee];
    assert_eq!(encode_counted(&vec![7u16, 8], &mut counted), Ok(()));
    assert_eq!(counted, vec![0xee, 0, 2, 0, 7, 0, 8]);
    let mut reader = Reader::new(vec![0, 2, 0, 7, 0, 8, 0, 9]);
    assert_eq!(decode_counted::<u16>(&mut reader), Ok((2, vec![7, 8])));
    assert_eq!(reader.cursor, 6);
    assert_eq!(decode_n::<u16>(&mut reader, 1), Ok(vec![9]));
    assert_eq!(decode_n::<u16>(&mut reader, 0), Ok(vec![]));
    assert_eq!(decode_n::<u16>(&mut reader, 1), Err(Error::TruncatedInput));
    let mut short = Reader::new(vec![0, 3, 0, 7, 0, 8]);
    assert_eq!(decode_counted::<u16>(&mut short), Err(Error::TruncatedInput));
}

#[test]
fn a_table_of_more_than_65535_items_has_no_count() {
    let mut out = vec![];
    assert_eq!(encode_counted(&vec![0u16; 0x10000], &mut out), Err(Error::IndexOutOfRange));
    let mut fits = vec![];
    assert_eq!(encode_counted(&vec![0u16; 0xffff], &mut fits), Ok(()));
    assert_eq!(fits.len(), 2 + 2 * 0xffff);
    assert_eq!(&fits[..2], &[0xff, 0xff]);
}

#[test]
fn the_records_are_their_fields_in_order() {
    round_trip(
        ExceptionTable { start_pc: 1, end_pc: 0x0203, handler_pc: 4, catch_type: 0 },
        vec![0, 1, 2, 3, 0, 4, 0, 0],
    );
    round_trip(LineNumberTable { start_pc: 0x0100, line_number: 42 }, vec![1, 0, 0, 42]);
    round_trip(
        LocalVariableTable { start_pc: 1, length: 2, name_index: 3, descriptor_index: 4, index: 5 },
        vec![0, 1, 0, 2, 0, 3, 0, 4, 0, 5],
    );
    round_trip(
        LocalVariableTypeTable { start_pc: 5, length: 4, name_index: 3, signature_index: 2, index: 1 },
        vec![0, 5, 0, 4, 0, 3, 0, 2, 0, 1],
    );
    round_trip(
        InnerClass {
            inner_class_info_index: 1,
            outer_class_info_index: 2,
            inner_name_index: 3,
            inner_class_access_flags: Flags::new(0x0409),
        },
        vec![0, 1, 0, 2, 0, 3, 4, 9],
    );
}

#[test]
fn a_bootstrap_method_counts_its_arguments() {
    round_trip(
        BootstrapMethod { bootstrap_method_ref: 9, num_bootstrap_arguments: 2, bootstrap_arguments: vec![3, 4] },
        vec![0, 9, 0, 2, 0, 3, 0, 4],
    );
    let stale =
        BootstrapMethod { bootstrap_method_ref: 9, num_bootstrap_arguments: 7, bootstrap_arguments: vec![3] };
    assert_eq!(stale.to_jvm_bytecode(), Ok(vec![0, 9, 0, 1, 0, 3]));
}

#[test]
fn each_verification_type_has_its_tag() {
    round_trip(VerificationTypeInfo::Top, vec![0]);
    round_trip(VerificationTypeInfo::Integer, vec![1]);
    round_trip(VerificationTypeInfo::Float, vec![2]);
    round_trip(VerificationTypeInfo::Double, vec![3]);
    round_trip(VerificationTypeInfo::Long, vec![4]);
    round_trip(VerificationTypeInfo::Null, vec![5]);
    round_trip(VerificationTypeInfo::UninitializedThis, vec![6]);
    round_trip(VerificationTypeInfo::Object { cpool_index: 0x0102 }, vec![7, 1, 2]);
    round_trip(VerificationTypeInfo::Uninitialized { offset: 0x0304 }, vec![8, 3, 4]);
    let mut reader = Reader::new(vec![9, 0, 0]);
    assert_eq!(VerificationTypeInfo::decode(&mut reader), Err(Error::UnknownTag(9)));
}

#[test]
fn each_kind_of_frame_has_its_range_of_types() {
    round_trip(StackMapFrame::SameFrame { frame_type: 0 }, vec![0]);
    round_trip(StackMapFrame::SameFrame { frame_type: 63 }, vec![63]);
    round_trip(
        StackMapFrame::SameLocals1StackItemFrame { frame_type: 64, stack: VerificationTypeInfo::Integer },
        vec![64, 1],
    );
    round_trip(
        StackMapFrame::SameLocals1StackItemFrame {
            frame_type: 127,
            stack: VerificationTypeInfo::Object { cpool_index: 5 },
        },
        vec![127, 7, 0, 5],
    );
    round_trip(
        StackMapFrame::SameLocals1StackItemFrameExtended {
            frame_type: 247,
            offset_delta: 0x0102,
            stack: VerificationTypeInfo::Null,
        },
        vec![247, 1, 2, 5],
    );
    round_trip(StackMapFrame::ChopFrame { frame_type: 248, offset_delta: 3 }, vec![248, 0, 3]);
    round_trip(StackMapFrame::ChopFrame { frame_type: 250, offset_delta: 3 }, vec![250, 0, 3]);
    round_trip(StackMapFrame::SameFrameExtended { frame_type: 251, offset_delta: 9 }, vec![251, 0, 9]);
    round_trip(
        StackMapFrame::AppendFrame {
            frame_type: 253,
            offset_delta: 1,
            locals: vec![VerificationTypeInfo::Long, VerificationTypeInfo::Uninitialized { offset: 2 }],
        },
        vec![253, 0, 1, 4, 8, 0, 2],
    );
    round_trip(
        StackMapFrame::FullFrame {
            frame_type: 255,
            offset_delta: 0x0a0b,
            locals: vec![VerificationTypeInfo::Top, VerificationTypeInfo::Float],
            stack: vec![VerificationTypeInfo::Double],
        },
        vec![255, 0x0a, 0x0b, 0, 2, 0, 2, 0, 1, 3],
    );
    round_trip(
        StackMapFrame::FullFrame { frame_type: 255, offset_delta: 0, locals: vec![], stack: vec![] },
        vec![255, 0, 0, 0, 0, 0, 0],
    );
}

#[test]
fn the_reserved_frame_types_are_unknown() {
    for frame_type in [128u8, 200, 246] {
        let mut reader = Reader::new(vec![frame_type, 0, 0, 0]);
        assert_eq!(StackMapFrame::decode(&mut reader), Err(Error::UnknownTag(frame_type)));
    }
}

#[test]
fn a_frame_type_outside_the_range_of_its_kind_is_refused() {
    let refused = |frame: StackMapFrame| assert_eq!(frame.to_jvm_bytecode(), Err(Error::IndexOutOfRange));
    refused(StackMapFrame::SameFrame { frame_type: 64 });
    refused(StackMapFrame::SameLocals1StackItemFrame { frame_type: 63, stack: VerificationTypeInfo::Top });
    refused(StackMapFrame::SameLocals1StackItemFrame { frame_type: 128, stack: VerificationTypeInfo::Top });
    refused(StackMapFrame::SameLocals1StackItemFrameExtended {
        frame_type: 246,
        offset_delta: 0,
        stack: VerificationTypeInfo::Top,
    });
    refused(StackMapFrame::ChopFrame { frame_type: 247, offset_delta: 0 });
    refused(StackMapFrame::ChopFrame { frame_type: 251, offset_delta: 0 });
    refused(StackMapFrame::SameFrameExtended { frame_type: 250, offset_delta: 0 });
    refused(StackMapFrame::AppendFrame { frame_type: 251, offset_delta: 0, locals: vec![] });
    refused(StackMapFrame::AppendFrame {
        frame_type: 252,
        offset_delta: 0,
        locals: vec![VerificationTypeInfo::Top, VerificationTypeInfo::Top],
    });
    refused(StackMapFrame::AppendFrame { frame_type: 254, offset_delta: 0, locals: vec![VerificationTypeInfo::Top] });
    refused(StackMapFrame::FullFrame { frame_type: 254, offset_delta: 0, locals: vec![], stack: vec![] });
}

fn constant(tag: u8, index: u16) -> ElementValue {
    ElementValue { tag, value: ElementValueKind::ConstValueIndex(index) }
}

fn nested() -> Annotation {
    Annotation {
        type_index: 1,
        num_element_value_pairs: 3,
        element_value_pairs: vec![
            ElementValuePair { element_name_index: 2, value: constant(b'I', 3) },
            ElementValuePair {
                element_name_index: 4,
                value: ElementValue {
                    tag: b'[',
                    value: ElementValueKind::ArrayValue {
                        num_values: 2,
                        values: vec![
                            ElementValue {
                                tag: b'e',
                                value: ElementValueKind::EnumConstValue { type_name_index: 5, const_name_index: 6 },
                            },
                            ElementValue { tag: b'c', value: ElementValueKind::ClassInfoIndex(7) },
                        ],
                    },
                },
            },
            ElementValuePair {
                element_name_index: 8,
                value: ElementValue {
                    tag: b'@',
                    value: ElementValueKind::AnnotationValue(Annotation {
                        type_index: 9,
                        num_element_value_pairs: 0,
                        element_value_pairs: vec![],
                    }),
                },
            },
        ],
    }
}

fn nested_bytes() -> Vec<u8> {
    vec![
        0, 1, 0, 3, // type, three pairs
        0, 2, b'I', 0, 3, // a constant
        0, 4, b'[', 0, 2, b'e', 0, 5, 0, 6, b'c', 0, 7, // an array of an enum and a class
        0, 8, b'@', 0, 9, 0, 0, // an annotation
    ]
}

#[test]
fn an_annotation_holds_values_that_hold_annotations() {
    round_trip(nested(), nested_bytes());
}

#[test]
fn each_tag_of_a_constant_is_a_constant() {
    for tag in [b'B', b'C', b'D', b'F', b'I', b'J', b'S', b'Z', b's'] {
        round_trip(constant(tag, 0x0102), vec![tag, 1, 2]);
    }
}

#[test]
fn a_tag_that_names_no_value_is_unknown() {
    for tag in [b'A', b'x', 0u8, b']', b'E'] {
        let mut reader = Reader::new(vec![tag, 0, 1, 0, 2]);
        assert_eq!(ElementValue::decode(&mut reader), Err(Error::UnknownTag(tag)));
    }
    let mut inside = Reader::new(vec![0, 1, 0, 1, 0, 2, b'?', 0, 0]);
    assert_eq!(Annotation::decode(&mut inside), Err(Error::UnknownTag(b'?')));
}

#[test]
fn a_tag_that_does_not_fit_its_value_is_refused() {
    assert_eq!(constant(b'e', 1).to_jvm_bytecode(), Err(Error::IndexOutOfRange));
    assert_eq!(constant(b'x', 1).to_jvm_bytecode(), Err(Error::IndexOutOfRange));
    assert_eq!(
        ElementValue { tag: b'I', value: ElementValueKind::ClassInfoIndex(1) }.to_jvm_bytecode(),
        Err(Error::IndexOutOfRange)
    );
    assert_eq!(
        ElementValue { tag: b'[', value: ElementValueKind::EnumConstValue { type_name_index: 1, const_name_index: 2 } }
            .to_jvm_bytecode(),
        Err(Error::IndexOutOfRange)
    );
    let deep = ElementValue {
        tag: b'[',
        value: ElementValueKind::ArrayValue { num_values: 1, values: vec![constant(b'@', 1)] },
    };
    assert_eq!(deep.to_jvm_bytecode(), Err(Error::IndexOutOfRange));
}

#[test]
fn the_parts_of_an_annotation_have_their_own_bytes() {
    let pair = ElementValuePair { element_name_index: 2, value: constant(b'Z', 3) };
    assert_eq!(pair.to_jvm_bytecode(), Ok(vec![0, 2, b'Z', 0, 3]));
    let kind = ElementValueKind::ArrayValue { num_values: 9, values: vec![constant(b'J', 1), constant(b's', 2)] };
    assert_eq!(kind.to_jvm_bytecode(), Ok(vec![0, 2, b'J', 0, 1, b's', 0, 2]));
    assert_eq!(ElementValueKind::ConstValueIndex(0x0a0b).to_jvm_bytecode(), Ok(vec![0x0a, 0x0b]));
    assert_eq!(ElementValueKind::AnnotationValue(nested()).to_jvm_bytecode(), Ok(nested_bytes()));
}

#[test]
fn the_annotations_of_a_parameter_are_counted() {
    let mut bytes = vec![0, 2];
    bytes.extend(nested_bytes());
    bytes.extend(vec![0, 7, 0, 0]);
    round_trip(
        ParameterAnnotation {
            num_annotations: 2,
            annotations: vec![
                nested(),
                Annotation { type_index: 7, num_element_value_pairs: 0, element_value_pairs: vec![] },
            ],
        },
        bytes,
    );
}

#[test]
fn stored_counts_are_not_written() {
    let stale = Annotation {
        type_index: 1,
        num_element_value_pairs: 9,
        element_value_pairs: vec![ElementValuePair { element_name_index: 2, value: constant(b'I', 3) }],
    };
    let bytes = stale.to_jvm_bytecode().unwrap();
    assert_eq!(bytes, vec![0, 1, 0, 1, 0, 2, b'I', 0, 3]);
    let read = Annotation::decode(&mut Reader::new(bytes)).unwrap();
    assert_eq!(read.num_element_value_pairs, 1);
    assert_eq!(read.element_value_pairs, stale.element_value_pairs);
}
