use just::builder::Builder;
use just::bytecode::{
    Annotation, AttributeInfo, AttributeInfoKind, BootstrapMethod, CpInfo, CpInfoType, ElementValue,
    ElementValueKind, ElementValuePair, ExceptionTable, LookupSwitch, Opcode, ParameterAnnotation,
    StackMapFrame, TableSwitch, ToJvmBytecode, VerificationTypeInfo,
};
use just::descriptor::Descriptor;
use just::parser::decode;

#[test]
fn a_copy_of_a_descriptor_is_equal_to_it() {
    let d = Descriptor::Function(
        vec![
            Descriptor::Int,
            Descriptor::Array(Box::new(Descriptor::Object("a/B".to_string()))),
            Descriptor::Function(vec![Descriptor::Long], Box::new(Descriptor::Void)),
        ],
        Box::new(Descriptor::Array(Box::new(Descriptor::Double))),
    );
    assert_eq!(d.clone(), d);
    assert_eq!(d.clone().serialize(), "(I[La/B;(J)V)[D");
}

#[test]
fn a_copy_of_an_instruction_is_equal_to_it() {
    let instructions = vec![
        Opcode::Nop,
        Opcode::Aload(3),
        Opcode::IfIcmCond(2, 0, 9),
        Opcode::Invokedynamic(1, 2, 3, 4),
        Opcode::Lookupswitch(LookupSwitch { pad: 2, default: 7, pairs: vec![(1, 2), (3, 4)] }),
        Opcode::Tableswitch(TableSwitch { pad: 0, default: 7, low: 1, high: 2, offsets: vec![5, 6] }),
    ];
    assert_eq!(instructions.clone(), instructions);
}

#[test]
fn a_copy_of_a_part_of_the_tree_is_equal_to_it() {
    let utf8 = CpInfo { tag: 1, info: CpInfoType::Utf8 { length: 2, bytes: "ab".to_string() } };
    assert_eq!(utf8.clone(), utf8);
    let frame = StackMapFrame::FullFrame {
        frame_type: 255,
        offset_delta: 1,
        locals: vec![VerificationTypeInfo::Long],
        stack: vec![VerificationTypeInfo::Object { cpool_index: 2 }],
    };
    assert_eq!(frame.clone(), frame);
    let bootstrap =
        BootstrapMethod { bootstrap_method_ref: 1, num_bootstrap_arguments: 2, bootstrap_arguments: vec![3, 4] };
    assert_eq!(bootstrap.clone(), bootstrap);
    let annotation = Annotation {
        type_index: 1,
        num_element_value_pairs: 1,
        element_value_pairs: vec![ElementValuePair {
            element_name_index: 2,
            value: ElementValue {
                tag: b'[',
                value: ElementValueKind::ArrayValue {
                    num_values: 1,
                    values: vec![ElementValue {
                        tag: b'@',
                        value: ElementValueKind::AnnotationValue(Annotation {
                            type_index: 3,
                            num_element_value_pairs: 0,
                            element_value_pairs: vec![],
                        }),
                    }],
                },
            },
        }],
    };
    assert_eq!(annotation.clone(), annotation);
    assert_eq!(annotation.element_value_pairs[0].clone(), annotation.element_value_pairs[0]);
    assert_eq!(annotation.element_value_pairs[0].value.value.clone(), annotation.element_value_pairs[0].value.value);
    let parameter = ParameterAnnotation { num_annotations: 1, annotations: vec![annotation.clone()] };
    assert_eq!(parameter.clone(), parameter);
    let code = AttributeInfo {
        attribute_name_index: 1,
        attribute_length: 2,
        info: AttributeInfoKind::Code {
            max_stack: 1,
            max_locals: 2,
            code_length: 3,
            code: vec![Opcode::AloadN(1), Opcode::Return_],
            exception_table_length: 1,
            exception_table: vec![ExceptionTable { start_pc: 1, end_pc: 2, handler_pc: 3, catch_type: 4 }],
            attributes_count: 2,
            attributes: vec![
                AttributeInfo { attribute_name_index: 5, attribute_length: 0, info: AttributeInfoKind::Deprecated },
                AttributeInfo {
                    attribute_name_index: 6,
                    attribute_length: 9,
                    info: AttributeInfoKind::RuntimeVisibleParameterAnnotations {
                        num_parameters: 1,
                        parameter_annotations: vec![parameter],
                    },
                },
            ],
        },
    };
    assert_eq!(code.clone(), code);
    assert_eq!(code.info.clone(), code.info);
}

#[test]
fn a_copy_of_a_builder_goes_its_own_way() {
    let mut builder = Builder::new();
    builder.set_class_name("T").unwrap();
    builder.add_field("f", Descriptor::Int, 0).unwrap();
    builder.add_method("m", Descriptor::Function(vec![], Box::new(Descriptor::Void)), 8).unwrap();
    builder.build_aconst_null().unwrap();
    let mut copy = builder.clone();
    assert_eq!(copy, builder);
    copy.build_areturn().unwrap();
    assert_ne!(copy, builder);
    let first = builder.build();
    let second = copy.build();
    assert_eq!(first.clone(), first);
    assert_eq!(first.method_info[0].clone(), first.method_info[0]);
    assert_eq!(first.fields[0].clone(), first.fields[0]);
    assert_ne!(first, second);
    assert_eq!(first.constant_pool, second.constant_pool);
    assert_eq!(decode(first.to_jvm_bytecode().unwrap()), Ok(first));
    assert_eq!(decode(second.to_jvm_bytecode().unwrap()), Ok(second));
}

#[test]
fn build_can_be_asked_again_while_the_method_goes_on() {
    let mut builder = Builder::new();
    builder.set_class_name("T").unwrap();
    builder.add_method("m", Descriptor::Function(vec![], Box::new(Descriptor::Void)), 8).unwrap();
    builder.build_aconst_null().unwrap();
    let early = builder.build();
    assert_eq!(early.method_count, 1);
    builder.build_areturn().unwrap();
    let late = builder.build();
    assert_eq!(late.method_count, 1);
    assert_eq!(early.method_info[0].attributes[0].attribute_length, 13);
    assert_eq!(late.method_info[0].attributes[0].attribute_length, 14);
    assert_eq!(builder.build(), late);
}
