use just::bytecode::{
    Annotation, AttributeInfo, AttributeInfoKind, BootstrapMethod, ClassFile, CpInfo, CpInfoType,
    ElementValue, ElementValueKind, ElementValuePair, ExceptionTable, FieldInfo, InnerClass,
    LineNumberTable, LocalVariableTable, LocalVariableTypeTable, LookupSwitch, MethodInfo, Opcode,
    ParameterAnnotation, StackMapFrame, ToJvmBytecode, VerificationTypeInfo, JVM_MAGIC,
};
use just::error::Error;
use just::flags::Flags;
use just::parser::{decode, name_of, read_attribute, read_code, same_text, Parser};
use just::reader::Reader;

const NAMES: [&str; 20] = [
    "ConstantValue",
    "Code",
    "StackMapTable",
    "Exceptions",
    "InnerClasses",
    "EnclosingMethod",
    "Synthetic",
    "Signature",
    "SourceFile",
    "SourceDebugExtension",
    "LineNumberTable",
    "LocalVariableTable",
    "LocalVariableTypeTable",
    "Deprecated",
    "RuntimeVisibleAnnotations",
    "RuntimeInvisibleAnnotations",
    "RuntimeVisibleParameterAnnotations",
    "RuntimeInvisibleParameterAnnotations",
    "AnnotationDefault",
    "BootstrapMethods",
];

fn utf8(text: &str) -> CpInfo {
    CpInfo { tag: 1, info: CpInfoType::Utf8 { length: text.len() as u16, bytes: text.to_string() } }
}

/// The names of the attributes at slots 1 to 20 in the order of `NAMES`, a
/// long at slots 21 and 22, a name at 23 and its class at 24.
fn pool() -> Vec<CpInfo> {
    let mut pool: Vec<CpInfo> = NAMES.iter().map(|name| utf8(name)).collect();
    pool.push(CpInfo { tag: 5, info: CpInfoType::Long { high_bytes: 1, low_bytes: 2 } });
    pool.push(utf8("Sample"));
    pool.push(CpInfo { tag: 7, info: CpInfoType::Class { name_index: 23 } });
    pool
}

fn index_of(name: &str) -> u16 {
    NAMES.iter().position(|n| *n == name).unwrap() as u16 + 1
}

fn attribute(name: &str, info: AttributeInfoKind) -> AttributeInfo {
    let length = info.to_jvm_bytecode().unwrap().len() as u32;
    AttributeInfo { attribute_name_index: index_of(name), attribute_length: length, info }
}

fn annotation() -> Annotation {
    Annotation {
        type_index: 23,
        num_element_value_pairs: 1,
        element_value_pairs: vec![ElementValuePair {
            element_name_index: 23,
            value: ElementValue {
                tag: b'[',
                value: ElementValueKind::ArrayValue {
                    num_values: 1,
                    values: vec![ElementValue { tag: b's', value: ElementValueKind::ConstValueIndex(23) }],
                },
            },
        }],
    }
}

fn code(instructions: Vec<Opcode>, nested: Vec<AttributeInfo>) -> AttributeInfo {
    let length: usize = instructions.iter().map(|i| i.to_jvm_bytecode().unwrap().len()).sum();
    attribute(
        "Code",
        AttributeInfoKind::Code {
            max_stack: 2,
            max_locals: 3,
            code_length: length as u32,
            code: instructions,
            exception_table_length: 1,
            exception_table: vec![ExceptionTable { start_pc: 0, end_pc: 4, handler_pc: 4, catch_type: 24 }],
            attributes_count: nested.len() as u16,
            attributes: nested,
        },
    )
}

fn every_kind() -> Vec<AttributeInfo> {
    vec![
        attribute("ConstantValue", AttributeInfoKind::ConstantValue { constantvalue_index: 21 }),
        attribute(
            "StackMapTable",
            AttributeInfoKind::StackMapTable {
                number_of_entries: 2,
                entries: vec![
                    StackMapFrame::SameFrame { frame_type: 5 },
                    StackMapFrame::FullFrame {
                        frame_type: 255,
                        offset_delta: 9,
                        locals: vec![VerificationTypeInfo::Object { cpool_index: 24 }],
                        stack: vec![VerificationTypeInfo::Integer, VerificationTypeInfo::Null],
                    },
                ],
            },
        ),
        attribute(
            "Exceptions",
            AttributeInfoKind::Exceptions { number_of_exceptions: 2, exception_index_table: vec![24, 24] },
        ),
        attribute(
            "InnerClasses",
            AttributeInfoKind::InnerClasses {
                number_of_classes: 1,
                classes: vec![InnerClass {
                    inner_class_info_index: 24,
                    outer_class_info_index: 0,
                    inner_name_index: 23,
                    inner_class_access_flags: Flags::new(0x0008),
                }],
            },
        ),
        attribute("EnclosingMethod", AttributeInfoKind::EnclosingMethod { class_index: 24, method_index: 0 }),
        attribute("Synthetic", AttributeInfoKind::Synthetic),
        attribute("Signature", AttributeInfoKind::Signature { signature_index: 23 }),
        attribute("SourceFile", AttributeInfoKind::SourceFile { sourcefile_index: 23 }),
        attribute(
            "SourceDebugExtension",
            AttributeInfoKind::SourceDebugExtension { debug_extension: vec![0xde, 0xad, 0xbe, 0xef, 0x00] },
        ),
        attribute(
            "LineNumberTable",
            AttributeInfoKind::LineNumberTable {
                line_number_table_length: 1,
                line_number_table: vec![LineNumberTable { start_pc: 0, line_number: 7 }],
            },
        ),
        attribute(
            "LocalVariableTable",
            AttributeInfoKind::LocalVariableTable {
                local_variable_table_length: 1,
                local_variable_table: vec![LocalVariableTable {
                    start_pc: 0,
                    length: 5,
                    name_index: 23,
                    descriptor_index: 23,
                    index: 0,
                }],
            },
        ),
        attribute(
            "LocalVariableTypeTable",
            AttributeInfoKind::LocalVariableTypeTable {
                local_variable_type_table_length: 0,
                local_variable_type_table: vec![],
            },
        ),
        attribute("Deprecated", AttributeInfoKind::Deprecated),
        attribute(
            "RuntimeVisibleAnnotations",
            AttributeInfoKind::RuntimeVisibleAnnotations { num_annotations: 1, annotations: vec![annotation()] },
        ),
        attribute(
            "RuntimeInvisibleAnnotations",
            AttributeInfoKind::RuntimeInvisibleAnnotations { num_annotations: 0, annotations: vec![] },
        ),
        attribute(
            "RuntimeVisibleParameterAnnotations",
            AttributeInfoKind::RuntimeVisibleParameterAnnotations {
                num_parameters: 2,
                parameter_annotations: vec![
                    ParameterAnnotation { num_annotations: 1, annotations: vec![annotation()] },
                    ParameterAnnotation { num_annotations: 0, annotations: vec![] },
                ],
            },
        ),
        attribute(
            "RuntimeInvisibleParameterAnnotations",
            AttributeInfoKind::RuntimeInvisibleParameterAnnotations { num_parameters: 0, parameter_annotations: vec![] },
        ),
        attribute(
            "AnnotationDefault",
            AttributeInfoKind::AnnotationDefault {
                default_value: ElementValue { tag: b'@', value: ElementValueKind::AnnotationValue(annotation()) },
            },
        ),
        attribute(
            "BootstrapMethods",
            AttributeInfoKind::BootstrapMethods {
                num_bootstrap_methods: 1,
                bootstrap_methods: vec![BootstrapMethod {
                    bootstrap_method_ref: 24,
                    num_bootstrap_arguments: 2,
                    bootstrap_arguments: vec![21, 23],
                }],
            },
        ),
    ]
}

fn instructions() -> Vec<Opcode> {
    vec![
        Opcode::AloadN(0),
        Opcode::IconstI(3),
        Opcode::Lookupswitch(LookupSwitch { pad: 1, default: 0x20, pairs: vec![(1, 0x14), (7, 0x18)] }),
        Opcode::Ldc2W(0, 21),
        Opcode::Invokeinterface(0, 24, 1, 0),
        Opcode::Return_,
    ]
}

fn sample() -> ClassFile {
    let method_attributes = vec![code(
        instructions(),
        vec![attribute(
            "LineNumberTable",
            AttributeInfoKind::LineNumberTable {
                line_number_table_length: 2,
                line_number_table: vec![
                    LineNumberTable { start_pc: 0, line_number: 1 },
                    LineNumberTable { start_pc: 2, line_number: 2 },
                ],
            },
        )],
    )];
    let class_attributes = every_kind();
    ClassFile {
        magic: JVM_MAGIC,
        minor_version: 3,
        major_version: 61,
        constant_pool_count: 25,
        constant_pool: pool(),
        access_flags: 0x0021,
        this_class: 24,
        super_class: 0,
        interfaces_count: 2,
        interfaces: vec![24, 24],
        fields_count: 2,
        fields: vec![
            FieldInfo {
                access_flags: 0x0019,
                name_index: 23,
                descriptor_index: 23,
                attributes_count: 2,
                attributes: vec![
                    attribute("ConstantValue", AttributeInfoKind::ConstantValue { constantvalue_index: 21 }),
                    attribute("Deprecated", AttributeInfoKind::Deprecated),
                ],
            },
            FieldInfo { access_flags: 2, name_index: 23, descriptor_index: 23, attributes_count: 0, attributes: vec![] },
        ],
        method_count: 2,
        method_info: vec![
            MethodInfo {
                access_flags: 0x0001,
                name_index: 23,
                descriptor_index: 23,
                attributes_count: 1,
                attributes: method_attributes,
            },
            MethodInfo {
                access_flags: 0x0401,
                name_index: 23,
                descriptor_index: 23,
                attributes_count: 0,
                attributes: vec![],
            },
        ],
        attributes_count: class_attributes.len() as u16,
        attributes: class_attributes,
    }
}

fn empty() -> ClassFile {
    ClassFile { magic: JVM_MAGIC, major_version: 61, constant_pool_count: 1, ..ClassFile::default() }
}

#[test]
fn the_smallest_class_file_is_its_header_and_six_counts() {
    let bytes = empty().to_jvm_bytecode().unwrap();
    assert_eq!(
        bytes,
        vec![
            0xCA, 0xFE, 0xBA, 0xBE, // magic
            0, 0, 0, 61, // version
            0, 1, // pool count
            0, 0, 0, 0, 0, 0, // flags, this class, super class
            0, 0, 0, 0, 0, 0, 0, 0, // interfaces, fields, methods, attributes
        ]
    );
    assert_eq!(decode(bytes), Ok(empty()));
}

#[test]
fn the_parts_stand_in_the_order_of_the_format() {
    let class = ClassFile {
        magic: JVM_MAGIC,
        minor_version: 1,
        major_version: 52,
        constant_pool_count: 3,
        constant_pool: vec![utf8("A"), CpInfo { tag: 7, info: CpInfoType::Class { name_index: 1 } }],
        access_flags: 0x0021,
        this_class: 2,
        super_class: 0,
        interfaces_count: 1,
        interfaces: vec![2],
        fields_count: 1,
        fields: vec![FieldInfo {
            access_flags: 2,
            name_index: 1,
            descriptor_index: 1,
            attributes_count: 0,
            attributes: vec![],
        }],
        method_count: 1,
        method_info: vec![MethodInfo {
            access_flags: 9,
            name_index: 1,
            descriptor_index: 1,
            attributes_count: 0,
            attributes: vec![],
        }],
        attributes_count: 0,
        attributes: vec![],
    };
    let bytes = class.to_jvm_bytecode().unwrap();
    assert_eq!(
        bytes,
        vec![
            0xCA, 0xFE, 0xBA, 0xBE, 0, 1, 0, 52, // magic, minor, major
            0, 3, 1, 0, 1, b'A', 7, 0, 1, // the pool
            0, 0x21, 0, 2, 0, 0, // flags, this class, super class
            0, 1, 0, 2, // interfaces
            0, 1, 0, 2, 0, 1, 0, 1, 0, 0, // fields
            0, 1, 0, 9, 0, 1, 0, 1, 0, 0, // methods
            0, 0, // attributes
        ]
    );
    assert_eq!(decode(bytes), Ok(class));
}

#[test]
fn a_code_attribute_has_the_layout_of_the_format() {
    let attribute = AttributeInfo {
        attribute_name_index: 2,
        attribute_length: 0,
        info: AttributeInfoKind::Code {
            max_stack: 1,
            max_locals: 2,
            code_length: 0,
            code: vec![Opcode::AloadN(0), Opcode::Invokespecial(0, 8), Opcode::Return_],
            exception_table_length: 0,
            exception_table: vec![ExceptionTable { start_pc: 0, end_pc: 1, handler_pc: 2, catch_type: 0 }],
            attributes_count: 0,
            attributes: vec![AttributeInfo {
                attribute_name_index: 14,
                attribute_length: 9,
                info: AttributeInfoKind::Deprecated,
            }],
        },
    };
    assert_eq!(
        attribute.to_jvm_bytecode(),
        Ok(vec![
            0, 2, 0, 0, 0, 31, // name, length
            0, 1, 0, 2, // max stack, max locals
            0, 0, 0, 5, 0x2a, 0xb7, 0, 8, 0xb1, // the code
            0, 1, 0, 0, 0, 1, 0, 2, 0, 0, // the exception table
            0, 1, 0, 14, 0, 0, 0, 0, // the attributes
        ])
    );
}

#[test]
fn each_kind_of_attribute_has_its_payload() {
    let payloads: Vec<Vec<u8>> = every_kind().iter().map(|a| a.info.to_jvm_bytecode().unwrap()).collect();
    assert_eq!(payloads[0], vec![0, 21]);
    assert_eq!(payloads[1], vec![0, 2, 5, 255, 0, 9, 0, 1, 7, 0, 24, 0, 2, 1, 5]);
    assert_eq!(payloads[2], vec![0, 2, 0, 24, 0, 24]);
    assert_eq!(payloads[3], vec![0, 1, 0, 24, 0, 0, 0, 23, 0, 8]);
    assert_eq!(payloads[4], vec![0, 24, 0, 0]);
    assert_eq!(payloads[5], Vec::<u8>::new());
    assert_eq!(payloads[6], vec![0, 23]);
    assert_eq!(payloads[7], vec![0, 23]);
    assert_eq!(payloads[8], vec![0xde, 0xad, 0xbe, 0xef, 0x00]);
    assert_eq!(payloads[9], vec![0, 1, 0, 0, 0, 7]);
    assert_eq!(payloads[10], vec![0, 1, 0, 0, 0, 5, 0, 23, 0, 23, 0, 0]);
    assert_eq!(payloads[11], vec![0, 0]);
    assert_eq!(payloads[12], Vec::<u8>::new());
    let annotation = vec![0, 23, 0, 1, 0, 23, b'[', 0, 1, b's', 0, 23];
    assert_eq!(payloads[13], [vec![0, 1], annotation.clone()].concat());
    assert_eq!(payloads[14], vec![0, 0]);
    assert_eq!(payloads[15], [vec![2, 0, 1], annotation.clone(), vec![0, 0]].concat());
    assert_eq!(payloads[16], vec![0]);
    assert_eq!(payloads[17], [vec![b'@'], annotation].concat());
    assert_eq!(payloads[18], vec![0, 1, 0, 24, 0, 2, 0, 21, 0, 23]);
}

#[test]
fn what_is_written_is_read_back_the_same() {
    let class = sample();
    let bytes = class.to_jvm_bytecode().unwrap();
    assert_eq!(&bytes[..4], &[0xCA, 0xFE, 0xBA, 0xBE]);
    let read = decode(bytes.clone()).unwrap();
    assert_eq!(read, class);
    assert_eq!(read.to_jvm_bytecode(), Ok(bytes));
}

#[test]
fn every_attribute_is_read_back_by_its_name() {
    let pool = pool();
    for attribute in every_kind() {
        let bytes = attribute.to_jvm_bytecode().unwrap();
        let mut reader = Reader::new(bytes.clone());
        assert_eq!(read_attribute(&mut reader, &pool), Ok(attribute));
        assert_eq!(reader.cursor, bytes.len());
    }
}

#[test]
fn a_class_file_cut_short_is_a_truncation() {
    let bytes = sample().to_jvm_bytecode().unwrap();
    for k in 0..bytes.len() {
        assert_eq!(decode(bytes[..k].to_vec()), Err(Error::TruncatedInput), "cut at {} of {}", k, bytes.len());
    }
}

#[test]
fn the_magic_number_is_tested_first() {
    assert_eq!(decode(vec![0xCA, 0xFE, 0xBA, 0xBF]), Err(Error::BadMagic));
    assert_eq!(decode(vec![0, 0, 0, 0, 0, 0, 0, 0, 0, 0, 0, 0]), Err(Error::BadMagic));
    assert_eq!(decode(vec![0xCA, 0xFE, 0xBA]), Err(Error::TruncatedInput));
    assert_eq!(decode(vec![]), Err(Error::TruncatedInput));
    let mut bytes = sample().to_jvm_bytecode().unwrap();
    bytes[3] = 0;
    assert_eq!(decode(bytes), Err(Error::BadMagic));
}

#[test]
fn decoding_the_same_bytes_twice_gives_the_same_tree() {
    let bytes = sample().to_jvm_bytecode().unwrap();
    assert_eq!(decode(bytes.clone()), decode(bytes.clone()));
    let broken = bytes[..bytes.len() / 2].to_vec();
    assert_eq!(decode(broken.clone()), decode(broken));
}

#[test]
fn the_parser_stops_behind_the_class_file() {
    let mut bytes = sample().to_jvm_bytecode().unwrap();
    let length = bytes.len();
    bytes.extend(vec![1, 2, 3]);
    let mut parser = Parser::new(bytes);
    assert_eq!(parser.reader.cursor, 0);
    assert_eq!(parser.parse(), Ok(sample()));
    assert_eq!(parser.reader.cursor, length);
    assert_eq!(parser.reader.read_int1(), Ok(1));
}

#[test]
fn counts_and_lengths_are_taken_from_the_tables() {
    let mut stale = sample();
    stale.constant_pool_count = 1;
    stale.interfaces_count = 9;
    stale.fields_count = 0;
    stale.method_count = 77;
    stale.attributes_count = 0;
    stale.fields[0].attributes_count = 5;
    stale.fields[0].attributes[0].attribute_length = 1000;
    stale.method_info[0].attributes_count = 0;
    if let AttributeInfoKind::Code {
        code_length, exception_table_length, attributes_count, attributes, ..
    } = &mut stale.method_info[0].attributes[0].info
    {
        *code_length = 1;
        *exception_table_length = 3;
        *attributes_count = 0;
        attributes[0].attribute_length = 0;
    }
    stale.attributes[9].attribute_length = 0;
    let bytes = stale.to_jvm_bytecode().unwrap();
    assert_eq!(bytes, sample().to_jvm_bytecode().unwrap());
    assert_eq!(decode(bytes), Ok(sample()));
}

#[test]
fn stored_lengths_of_what_is_read_are_those_of_the_file() {
    let mut bytes = empty().to_jvm_bytecode().unwrap();
    let end = bytes.len();
    bytes[end - 1] = 1;
    bytes.extend(vec![0, 1, 0, 0, 0, 9]);
    bytes[9] = 2;
    let mut pool_entry = vec![1, 0, 10];
    pool_entry.extend("Deprecated".bytes());
    bytes.splice(10..10, pool_entry);
    let read = decode(bytes).unwrap();
    assert_eq!(read.attributes_count, 1);
    assert_eq!(
        read.attributes,
        vec![AttributeInfo { attribute_name_index: 1, attribute_length: 9, info: AttributeInfoKind::Deprecated }]
    );
    assert_eq!(&read.to_jvm_bytecode().unwrap()[35..], &[0, 1, 0, 1, 0, 0, 0, 0]);
}

#[test]
fn an_attribute_with_a_name_that_is_not_known_is_refused() {
    let pool = vec![utf8("Mystery"), CpInfo { tag: 7, info: CpInfoType::Class { name_index: 1 } }, utf8("code")];
    let read = |bytes: Vec<u8>| read_attribute(&mut Reader::new(bytes), &pool);
    assert_eq!(read(vec![0, 1, 0, 0, 0, 0]), Err(Error::UnknownAttribute("Mystery".to_string())));
    assert_eq!(read(vec![0, 3, 0, 0, 0, 0]), Err(Error::UnknownAttribute("code".to_string())));
    assert_eq!(read(vec![0, 2, 0, 0, 0, 0]), Err(Error::IndexOutOfRange));
    assert_eq!(read(vec![0, 0, 0, 0, 0, 0]), Err(Error::IndexOutOfRange));
    assert_eq!(read(vec![0, 4, 0, 0, 0, 0]), Err(Error::IndexOutOfRange));
    assert_eq!(read(vec![0, 1, 0, 0, 0]), Err(Error::TruncatedInput));
}

#[test]
fn a_name_index_behind_a_long_counts_two_slots() {
    let pool = vec![CpInfo { tag: 5, info: CpInfoType::Long { high_bytes: 0, low_bytes: 0 } }, utf8("Synthetic")];
    let read = |bytes: Vec<u8>| read_attribute(&mut Reader::new(bytes), &pool);
    assert_eq!(read(vec![0, 2, 0, 0, 0, 0]), Err(Error::IndexOutOfRange));
    assert_eq!(
        read(vec![0, 3, 0, 0, 0, 0]),
        Ok(AttributeInfo { attribute_name_index: 3, attribute_length: 0, info: AttributeInfoKind::Synthetic })
    );
}

#[test]
fn names_are_compared_character_by_character() {
    assert!(same_text("Code", "Code"));
    assert!(same_text("", ""));
    assert!(!same_text("Code", "code"));
    assert!(!same_text("Code", "Codes"));
    assert!(!same_text("Code", ""));
    assert!(same_text("\u{e9}", "\u{e9}"));
    for name in NAMES {
        let found = name_of(name).unwrap();
        assert_eq!(format!("{:?}", found), name);
    }
    assert_eq!(name_of("Unknown"), None);
    assert_eq!(name_of(""), None);
    assert_eq!(name_of("Code "), None);
}

#[test]
fn the_code_of_a_method_is_read_to_its_end() {
    let mut bytes = vec![];
    for instruction in instructions() {
        bytes.extend(instruction.to_jvm_bytecode().unwrap());
    }
    let length = bytes.len() as u32;
    assert_eq!(length, 1 + 1 + (1 + 1 + 8 + 16) + 3 + 5 + 1);
    bytes.push(0xb1);
    let mut reader = Reader::new(bytes.clone());
    assert_eq!(read_code(&mut reader, length), Ok(instructions()));
    assert_eq!(reader.cursor, length as usize);
    assert_eq!(read_code(&mut Reader::new(bytes.clone()), length + 2), Err(Error::TruncatedInput));
    let mut front = instructions();
    front.pop();
    assert_eq!(read_code(&mut Reader::new(bytes.clone()), length - 1), Ok(front));
    assert_eq!(read_code(&mut Reader::new(bytes.clone()), length - 2), Err(Error::TruncatedInput));
    assert_eq!(read_code(&mut Reader::new(bytes.clone()), 0), Ok(vec![]));
    assert_eq!(read_code(&mut Reader::new(vec![0x00, 0xc4, 0x00]), 3), Err(Error::UnknownOpcode(0xc4)));
}

#[test]
fn the_padding_of_a_switch_is_that_of_its_place_in_the_code() {
    let misplaced = vec![
        Opcode::Nop,
        Opcode::Lookupswitch(LookupSwitch { pad: 0, default: 1, pairs: vec![] }),
    ];
    let mut bytes = vec![];
    for instruction in &misplaced {
        bytes.extend(instruction.to_jvm_bytecode().unwrap());
    }
    let read = read_code(&mut Reader::new(bytes.clone()), bytes.len() as u32);
    assert_ne!(read, Ok(misplaced));
}

#[test]
fn what_does_not_fit_the_format_is_not_written() {
    let mut class = empty();
    class.interfaces = vec![0; 0x10000];
    assert_eq!(class.to_jvm_bytecode(), Err(Error::IndexOutOfRange));
    class.interfaces = vec![0; 0xffff];
    assert_eq!(class.to_jvm_bytecode().unwrap().len(), 24 + 2 * 0xffff);

    let mut full = empty();
    full.constant_pool = vec![CpInfo { tag: 3, info: CpInfoType::Integer { bytes: 0 } }; 0xffff];
    assert_eq!(full.to_jvm_bytecode(), Err(Error::IndexOutOfRange));
    full.constant_pool.pop();
    let bytes = full.to_jvm_bytecode().unwrap();
    assert_eq!(&bytes[8..10], &[0xff, 0xff]);

    let mut wide = empty();
    wide.constant_pool = vec![CpInfo { tag: 5, info: CpInfoType::Long { high_bytes: 0, low_bytes: 0 } }; 0x8000];
    assert_eq!(wide.to_jvm_bytecode(), Err(Error::IndexOutOfRange));
    wide.constant_pool.pop();
    assert_eq!(&wide.to_jvm_bytecode().unwrap()[8..10], &[0xff, 0xff]);

    let mut bad = sample();
    if let AttributeInfoKind::Code { code, .. } = &mut bad.method_info[0].attributes[0].info {
        code.push(Opcode::AloadN(7));
    }
    assert_eq!(bad.to_jvm_bytecode(), Err(Error::IndexOutOfRange));
    assert_eq!(bad.method_info[0].to_jvm_bytecode(), Err(Error::IndexOutOfRange));
    assert_eq!(bad.fields[0].to_jvm_bytecode().map(|b| b.len()), Ok(8 + 8 + 6));
}

#[test]
fn fields_and_methods_have_the_same_layout() {
    let field = FieldInfo {
        access_flags: 0x0102,
        name_index: 3,
        descriptor_index: 4,
        attributes_count: 0,
        attributes: vec![AttributeInfo {
            attribute_name_index: 7,
            attribute_length: 0,
            info: AttributeInfoKind::Synthetic,
        }],
    };
    let method = MethodInfo {
        access_flags: 0x0102,
        name_index: 3,
        descriptor_index: 4,
        attributes_count: 1,
        attributes: vec![AttributeInfo {
            attribute_name_index: 7,
            attribute_length: 0,
            info: AttributeInfoKind::Synthetic,
        }],
    };
    let bytes = vec![1, 2, 0, 3, 0, 4, 0, 1, 0, 7, 0, 0, 0, 0];
    assert_eq!(field.to_jvm_bytecode(), Ok(bytes.clone()));
    assert_eq!(method.to_jvm_bytecode(), Ok(bytes));
}

#[test]
fn a_class_file_written_byte_by_byte_is_read_as_its_tree() {
    let mut bytes = vec![0xCA, 0xFE, 0xBA, 0xBE, 0, 0, 0, 52, 0, 8];
    bytes.extend(vec![1, 0, 1, b'A']);
    bytes.extend(vec![7, 0, 1]);
    bytes.extend(vec![1, 0, 1, b'm']);
    bytes.extend(vec![1, 0, 3, b'(', b')', b'V']);
    bytes.extend(vec![1, 0, 4, b'C', b'o', b'd', b'e']);
    bytes.extend(vec![1, 0, 15]);
    bytes.extend("LineNumberTable".bytes());
    bytes.extend(vec![1, 0, 10]);
    bytes.extend("SourceFile".bytes());
    bytes.extend(vec![0, 0x21, 0, 2, 0, 0, 0, 0, 0, 0]);
    bytes.extend(vec![0, 1, 0, 9, 0, 3, 0, 4, 0, 1]);
    bytes.extend(vec![0, 5, 0, 0, 0, 25, 0, 0, 0, 0, 0, 0, 0, 1, 0xb1, 0, 0, 0, 1]);
    bytes.extend(vec![0, 6, 0, 0, 0, 6, 0, 1, 0, 0, 0, 3]);
    bytes.extend(vec![0, 1, 0, 7, 0, 0, 0, 2, 0, 1]);
    let class = ClassFile {
        magic: JVM_MAGIC,
        minor_version: 0,
        major_version: 52,
        constant_pool_count: 8,
        constant_pool: vec![
            utf8("A"),
            CpInfo { tag: 7, info: CpInfoType::Class { name_index: 1 } },
            utf8("m"),
            utf8("()V"),
            utf8("Code"),
            utf8("LineNumberTable"),
            utf8("SourceFile"),
        ],
        access_flags: 0x0021,
        this_class: 2,
        super_class: 0,
        interfaces_count: 0,
        interfaces: vec![],
        fields_count: 0,
        fields: vec![],
        method_count: 1,
        method_info: vec![MethodInfo {
            access_flags: 9,
            name_index: 3,
            descriptor_index: 4,
            attributes_count: 1,
            attributes: vec![AttributeInfo {
                attribute_name_index: 5,
                attribute_length: 25,
                info: AttributeInfoKind::Code {
                    max_stack: 0,
                    max_locals: 0,
                    code_length: 1,
                    code: vec![Opcode::Return_],
                    exception_table_length: 0,
                    exception_table: vec![],
                    attributes_count: 1,
                    attributes: vec![AttributeInfo {
                        attribute_name_index: 6,
                        attribute_length: 6,
                        info: AttributeInfoKind::LineNumberTable {
                            line_number_table_length: 1,
                            line_number_table: vec![LineNumberTable { start_pc: 0, line_number: 3 }],
                        },
                    }],
                },
            }],
        }],
        attributes_count: 1,
        attributes: vec![AttributeInfo {
            attribute_name_index: 7,
            attribute_length: 2,
            info: AttributeInfoKind::SourceFile { sourcefile_index: 1 },
        }],
    };
    assert_eq!(decode(bytes.clone()), Ok(class.clone()));
    assert_eq!(class.to_jvm_bytecode(), Ok(bytes));
}
