use just::builder::{compute_byte, Builder};
use just::bytecode::{
    AttributeInfoKind, ClassFile, CpInfo, CpInfoType, FieldInfo, MethodInfo, Opcode, ToJvmBytecode,
    FIELD_ACC_PRIVATE, JVM_MAGIC, METHOD_ACC_PUBLIC, METHOD_ACC_STATIC,
};
use just::descriptor::Descriptor;
use just::error::Error;
use just::parser::decode;

fn object(name: &str) -> Descriptor {
    Descriptor::Object(name.to_string())
}

fn function(parameters: Vec<Descriptor>, result: Descriptor) -> Descriptor {
    Descriptor::Function(parameters, Box::new(result))
}

fn utf8(text: &str) -> CpInfo {
    CpInfo { tag: 1, info: CpInfoType::Utf8 { length: text.len() as u16, bytes: text.to_string() } }
}

/// The highest depth, the number of locals, the stored length and the
/// instructions of a finished method.
fn body(method: &MethodInfo) -> (u16, u16, u32, Vec<Opcode>) {
    assert_eq!(method.attributes_count, 1);
    assert_eq!(method.attributes.len(), 1);
    match &method.attributes[0].info {
        AttributeInfoKind::Code {
            max_stack,
            max_locals,
            code_length,
            code,
            exception_table_length,
            exception_table,
            attributes_count,
            attributes,
        } => {
            assert_eq!(*exception_table_length, 0);
            assert!(exception_table.is_empty());
            assert_eq!(*attributes_count, 0);
            assert!(attributes.is_empty());
            assert_eq!(method.attributes[0].attribute_length, code_length + 12);
            (*max_stack, *max_locals, *code_length, code.clone())
        }
        other => panic!("not a code attribute: {:?}", other),
    }
}

/// A builder with a named class and a static method without parameters
/// under assembly.
fn assembling() -> Builder {
    let mut builder = Builder::new();
    builder.set_class_name("T").unwrap();
    builder.add_method("m", function(vec![], Descriptor::Void), METHOD_ACC_STATIC).unwrap();
    builder
}

fn hello_world() -> ClassFile {
    let mut builder = Builder::new();
    builder.set_class_name("Main").unwrap();
    let obj = builder.load_class("java/lang/Object").unwrap();
    builder.set_super_class(obj);
    builder.set_access_flags(0x0021);
    let object_init = builder.load_method(obj, "<init>", function(vec![], Descriptor::Void)).unwrap();
    builder.add_method("<init>", function(vec![], Descriptor::Void), METHOD_ACC_PUBLIC).unwrap();
    builder.build_aload_n(0).unwrap();
    builder.build_invoke_special(object_init).unwrap();
    builder.build_return().unwrap();
    builder
        .add_method(
            "main",
            function(vec![Descriptor::Array(Box::new(object("java/lang/String")))], Descriptor::Void),
            METHOD_ACC_PUBLIC | METHOD_ACC_STATIC,
        )
        .unwrap();
    let system = builder.load_class("java/lang/System").unwrap();
    let out = builder.load_field(system, "out", object("java/io/PrintStream")).unwrap();
    builder.build_getstatic(out).unwrap();
    let string = builder.load_string("Hello, World!").unwrap();
    builder.build_ldc(string).unwrap();
    let print_stream = builder.load_class("java/io/PrintStream").unwrap();
    let println = builder
        .load_method(print_stream, "println", function(vec![object("java/lang/String")], Descriptor::Void))
        .unwrap();
    builder.build_invoke_virtual(println).unwrap();
    builder.build_return().unwrap();
    builder.build()
}

#[test]
fn hello_world_is_a_class_file_that_reads_back() {
    let class = hello_world();
    let bytes = class.to_jvm_bytecode().unwrap();
    assert_eq!(&bytes[..4], &[0xCA, 0xFE, 0xBA, 0xBE]);
    let read = decode(bytes.clone()).unwrap();
    let greetings: Vec<&CpInfo> = read
        .constant_pool
        .iter()
        .filter(|entry| matches!(&entry.info, CpInfoType::Utf8 { bytes, .. } if bytes == "Hello, World!"))
        .collect();
    assert_eq!(greetings.len(), 1);
    assert_eq!(greetings[0], &utf8("Hello, World!"));
    assert_eq!(read, class);
    assert_eq!(read.to_jvm_bytecode(), Ok(bytes));
}

#[test]
fn hello_world_has_the_parts_that_were_asked_for() {
    let class = hello_world();
    assert_eq!(class.magic, JVM_MAGIC);
    assert_eq!((class.minor_version, class.major_version), (0, 61));
    assert_eq!(class.access_flags, 0x0021);
    assert_eq!(class.this_class, 2);
    assert_eq!(class.super_class, 4);
    assert_eq!(class.constant_pool_count, 33);
    assert_eq!(class.constant_pool.len(), 32);
    assert_eq!(class.constant_pool[0], utf8("Main"));
    assert_eq!(class.constant_pool[1], CpInfo { tag: 7, info: CpInfoType::Class { name_index: 1 } });
    assert_eq!(class.constant_pool[2], utf8("java/lang/Object"));
    assert_eq!(class.constant_pool[3], CpInfo { tag: 7, info: CpInfoType::Class { name_index: 3 } });
    assert_eq!(class.constant_pool[5], utf8("()V"));
    assert_eq!(
        class.constant_pool[7],
        CpInfo { tag: 10, info: CpInfoType::Methodref { class_index: 4, name_and_type_index: 7 } }
    );
    assert_eq!(class.constant_pool[10], utf8("Code"));
    assert_eq!(
        class.constant_pool[12],
        CpInfo { tag: 10, info: CpInfoType::Methodref { class_index: 2, name_and_type_index: 12 } }
    );
    assert_eq!(class.constant_pool[14], utf8("([Ljava/lang/String;)V"));
    assert_eq!(class.constant_pool[21], utf8("Ljava/io/PrintStream;"));
    assert_eq!(
        class.constant_pool[23],
        CpInfo { tag: 9, info: CpInfoType::Fieldref { class_index: 20, name_and_type_index: 23 } }
    );
    assert_eq!(class.constant_pool[25], CpInfo { tag: 8, info: CpInfoType::String { string_index: 25 } });
    assert_eq!(
        class.constant_pool[30],
        CpInfo { tag: 12, info: CpInfoType::NameAndType { name_index: 29, descriptor_index: 30 } }
    );
    assert_eq!((class.interfaces_count, class.fields_count, class.attributes_count), (0, 0, 0));
    assert_eq!(class.method_count, 2);
    assert_eq!(class.method_info.len(), 2);

    let init = &class.method_info[0];
    assert_eq!((init.access_flags, init.name_index, init.descriptor_index), (METHOD_ACC_PUBLIC, 9, 10));
    assert_eq!(init.attributes[0].attribute_name_index, 11);
    assert_eq!(
        body(init),
        (1, 1, 5, vec![Opcode::AloadN(0), Opcode::Invokespecial(0, 8), Opcode::Return_])
    );

    let main = &class.method_info[1];
    assert_eq!((main.access_flags, main.name_index, main.descriptor_index), (0x0009, 14, 15));
    assert_eq!(main.attributes[0].attribute_name_index, 16);
    assert_eq!(
        body(main),
        (
            2,
            1,
            9,
            vec![Opcode::Getstatic(0, 24), Opcode::Ldc(26), Opcode::Invokevirtual(0, 32), Opcode::Return_]
        )
    );
}

#[test]
fn a_new_builder_holds_an_empty_class_of_version_61() {
    let class = Builder::new().build();
    assert_eq!(
        class,
        ClassFile { magic: JVM_MAGIC, major_version: 61, constant_pool_count: 1, ..ClassFile::default() }
    );
    assert_eq!(class.to_jvm_bytecode().map(|bytes| bytes.len()), Ok(24));
}

#[test]
fn interning_gives_the_index_of_the_new_entry() {
    let mut builder = Builder::new();
    assert_eq!(builder.load_class("A"), Ok(2));
    assert_eq!(builder.load_string("s"), Ok(4));
    assert_eq!(builder.load_field(2, "f", Descriptor::Int), Ok(8));
    assert_eq!(builder.load_method(2, "m", function(vec![Descriptor::Long], Descriptor::Int)), Ok(12));
    assert_eq!(builder.load_class("A"), Ok(14));
    let class = builder.build();
    assert_eq!(class.constant_pool_count, 15);
    assert_eq!(
        class.constant_pool[..12],
        [
            utf8("A"),
            CpInfo { tag: 7, info: CpInfoType::Class { name_index: 1 } },
            utf8("s"),
            CpInfo { tag: 8, info: CpInfoType::String { string_index: 3 } },
            utf8("f"),
            utf8("I"),
            CpInfo { tag: 12, info: CpInfoType::NameAndType { name_index: 5, descriptor_index: 6 } },
            CpInfo { tag: 9, info: CpInfoType::Fieldref { class_index: 2, name_and_type_index: 7 } },
            utf8("m"),
            utf8("(J)I"),
            CpInfo { tag: 12, info: CpInfoType::NameAndType { name_index: 9, descriptor_index: 10 } },
            CpInfo { tag: 10, info: CpInfoType::Methodref { class_index: 2, name_and_type_index: 11 } },
        ]
    );
}

#[test]
fn a_text_is_interned_as_one_entry() {
    let mut builder = Builder::new();
    assert_eq!(builder.load_utf8("first"), Ok(1));
    assert_eq!(builder.load_utf8(""), Ok(2));
    assert_eq!(builder.load_utf8("first"), Ok(3));
    assert_eq!(builder.load_utf8(&"a".repeat(0x10000)), Err(Error::IndexOutOfRange));
    assert_eq!(builder.build().constant_pool, vec![utf8("first"), utf8(""), utf8("first")]);
}

#[test]
fn the_length_of_a_text_is_its_length_in_bytes() {
    let mut builder = Builder::new();
    builder.load_string("h\u{e9}!").unwrap();
    let class = builder.build();
    assert_eq!(
        class.constant_pool[0],
        CpInfo { tag: 1, info: CpInfoType::Utf8 { length: 4, bytes: "h\u{e9}!".to_string() } }
    );
}

#[test]
fn a_field_is_added_and_interned() {
    let mut builder = Builder::new();
    builder.set_class_name("C").unwrap();
    assert_eq!(builder.add_field("count", Descriptor::Int, FIELD_ACC_PRIVATE), Ok(6));
    assert_eq!(builder.add_field("name", object("java/lang/String"), 0x0011), Ok(10));
    let class = builder.build();
    assert_eq!(class.fields_count, 2);
    assert_eq!(
        class.fields,
        vec![
            FieldInfo { access_flags: 2, name_index: 3, descriptor_index: 4, attributes_count: 0, attributes: vec![] },
            FieldInfo {
                access_flags: 0x0011,
                name_index: 7,
                descriptor_index: 8,
                attributes_count: 0,
                attributes: vec![]
            },
        ]
    );
    assert_eq!(
        class.constant_pool[5],
        CpInfo { tag: 9, info: CpInfoType::Fieldref { class_index: 2, name_and_type_index: 5 } }
    );
    assert_eq!(decode(class.to_jvm_bytecode().unwrap()), Ok(class));
}

#[test]
fn emitting_without_a_method_fails() {
    let mut builder = Builder::new();
    builder.set_class_name("T").unwrap();
    let field = builder.load_field(2, "f", Descriptor::Int).unwrap();
    let method = builder.load_method(2, "m", function(vec![], Descriptor::Void)).unwrap();
    let expect = |r: Result<(), Error>| assert_eq!(r, Err(Error::NoActiveMethod));
    expect(builder.build_aaload());
    expect(builder.build_aastore());
    expect(builder.build_aconst_null());
    expect(builder.build_aload(1));
    expect(builder.build_aload_n(1));
    expect(builder.build_aload_n(9));
    expect(builder.build_anewarray(2));
    expect(builder.build_areturn());
    expect(builder.buldd_arraylength());
    expect(builder.build_invoke_special(method));
    expect(builder.build_invoke_special(0));
    expect(builder.build_invoke_virtual(method));
    expect(builder.build_getstatic(field));
    expect(builder.build_ldc(1));
    expect(builder.build_ldc(999));
    expect(builder.build_return());
    expect(builder.end_method());
    let class = builder.build();
    assert_eq!(class.method_count, 0);
    assert!(class.method_info.is_empty());
}

#[test]
fn ending_a_method_returns_to_no_method() {
    let mut builder = assembling();
    assert_eq!(builder.build_return(), Ok(()));
    assert_eq!(builder.end_method(), Ok(()));
    assert_eq!(builder.build_return(), Err(Error::NoActiveMethod));
    assert_eq!(builder.end_method(), Err(Error::NoActiveMethod));
    let class = builder.build();
    assert_eq!(class.method_count, 1);
    assert_eq!(body(&class.method_info[0]), (0, 0, 1, vec![Opcode::Return_]));
}

#[test]
fn the_highest_depth_is_kept_not_the_last() {
    let mut builder = assembling();
    builder.build_aconst_null().unwrap();
    builder.build_aconst_null().unwrap();
    builder.build_aconst_null().unwrap();
    builder.build_aastore().unwrap();
    builder.build_aconst_null().unwrap();
    builder.build_areturn().unwrap();
    let class = builder.build();
    assert_eq!(
        body(&class.method_info[0]),
        (
            3,
            0,
            6,
            vec![
                Opcode::AconstNull,
                Opcode::AconstNull,
                Opcode::AconstNull,
                Opcode::Aastore,
                Opcode::AconstNull,
                Opcode::Areturn
            ]
        )
    );
}

#[test]
fn each_instruction_moves_the_depth_by_its_effect() {
    let peak = |emit: &dyn Fn(&mut Builder)| {
        let mut builder = assembling();
        for _ in 0..5 {
            builder.build_aconst_null().unwrap();
        }
        emit(&mut builder);
        builder.build_aconst_null().unwrap();
        body(&builder.build().method_info[0]).0
    };
    assert_eq!(peak(&|b| b.build_aaload().unwrap()), 5);
    assert_eq!(peak(&|b| b.build_aastore().unwrap()), 5);
    assert_eq!(peak(&|b| b.build_aconst_null().unwrap()), 7);
    assert_eq!(peak(&|b| b.build_aload(0).unwrap()), 7);
    assert_eq!(peak(&|b| b.build_aload_n(0).unwrap()), 7);
    assert_eq!(peak(&|b| b.build_anewarray(2).unwrap()), 6);
    assert_eq!(peak(&|b| b.build_areturn().unwrap()), 5);
    assert_eq!(peak(&|b| b.buldd_arraylength().unwrap()), 6);
    assert_eq!(peak(&|b| b.build_ldc(1).unwrap()), 7);
    assert_eq!(peak(&|b| b.build_return().unwrap()), 6);
}

#[test]
fn the_depth_does_not_fall_below_zero() {
    let mut builder = assembling();
    builder.build_areturn().unwrap();
    builder.build_aastore().unwrap();
    builder.build_aconst_null().unwrap();
    builder.build_aconst_null().unwrap();
    let class = builder.build();
    assert_eq!(body(&class.method_info[0]).0, 2);
}

#[test]
fn an_invocation_takes_receiver_and_parameters_and_gives_the_result() {
    let depth_after = |descriptor: Descriptor| {
        let mut builder = assembling();
        let method = builder.load_method(2, "x", descriptor).unwrap();
        for _ in 0..10 {
            builder.build_aconst_null().unwrap();
        }
        builder.build_invoke_virtual(method).unwrap();
        for _ in 0..10 {
            builder.build_aconst_null().unwrap();
        }
        body(&builder.build().method_info[0]).0 as i32 - 10
    };
    assert_eq!(depth_after(function(vec![], Descriptor::Void)), 9);
    assert_eq!(depth_after(function(vec![], Descriptor::Int)), 10);
    assert_eq!(depth_after(function(vec![], Descriptor::Long)), 11);
    assert_eq!(depth_after(function(vec![Descriptor::Int, object("A")], Descriptor::Void)), 7);
    assert_eq!(depth_after(function(vec![Descriptor::Long, Descriptor::Double], Descriptor::Double)), 7);
    assert_eq!(
        depth_after(function(vec![Descriptor::Array(Box::new(Descriptor::Long))], Descriptor::Boolean)),
        9
    );
    assert_eq!(depth_after(function((0..6).map(|_| Descriptor::Long).collect(), Descriptor::Void)), 0);
}

#[test]
fn invokespecial_counts_as_invokevirtual_does() {
    let mut builder = assembling();
    let method = builder.load_method(2, "x", function(vec![Descriptor::Int], Descriptor::Long)).unwrap();
    builder.build_aconst_null().unwrap();
    builder.build_aconst_null().unwrap();
    builder.build_invoke_special(method).unwrap();
    builder.build_invoke_special(method).unwrap();
    builder.build_aconst_null().unwrap();
    let class = builder.build();
    let (max_stack, _, length, code) = body(&class.method_info[0]);
    assert_eq!(max_stack, 3);
    assert_eq!(length, 9);
    assert_eq!(code[2], Opcode::Invokespecial(0, 11));
}

#[test]
fn getstatic_gives_the_slots_of_the_field() {
    let depth_after = |descriptor: Descriptor| {
        let mut builder = assembling();
        let field = builder.load_field(2, "x", descriptor).unwrap();
        builder.build_getstatic(field).unwrap();
        body(&builder.build().method_info[0]).0
    };
    assert_eq!(depth_after(Descriptor::Int), 1);
    assert_eq!(depth_after(object("java/io/PrintStream")), 1);
    assert_eq!(depth_after(Descriptor::Array(Box::new(Descriptor::Double))), 1);
    assert_eq!(depth_after(Descriptor::Long), 2);
    assert_eq!(depth_after(Descriptor::Double), 2);
}

#[test]
fn an_index_that_leads_to_nothing_fitting_is_refused() {
    let mut builder = assembling();
    let class = builder.load_class("A").unwrap();
    let field = builder.load_field(class, "f", Descriptor::Int).unwrap();
    let method = builder.load_method(class, "m", function(vec![], Descriptor::Void)).unwrap();
    let odd_field = builder.load_field(class, "g", function(vec![], Descriptor::Void)).unwrap();
    let void_field = builder.load_field(class, "v", Descriptor::Void).unwrap();
    let odd_method = builder.load_method(class, "n", Descriptor::Int).unwrap();
    for index in [0, class, class - 1, field, field - 1, 999, 0xffff] {
        assert_eq!(builder.build_invoke_special(index), Err(Error::IndexOutOfRange), "index {}", index);
        assert_eq!(builder.build_invoke_virtual(index), Err(Error::IndexOutOfRange), "index {}", index);
    }
    for index in [0, class, method, method - 1, 999, 0xffff] {
        assert_eq!(builder.build_getstatic(index), Err(Error::IndexOutOfRange), "index {}", index);
    }
    assert_eq!(builder.build_getstatic(odd_field), Err(Error::InvalidDescriptor));
    assert_eq!(builder.build_getstatic(void_field), Err(Error::InvalidDescriptor));
    assert_eq!(builder.build_invoke_virtual(odd_method), Err(Error::InvalidDescriptor));
    assert_eq!(builder.build_invoke_special(odd_method), Err(Error::InvalidDescriptor));
    assert_eq!(builder.build_aload_n(4), Err(Error::IndexOutOfRange));
    assert_eq!(builder.build_aload_n(255), Err(Error::IndexOutOfRange));
    assert_eq!(builder.build_ldc(256), Err(Error::IndexOutOfRange));
    assert_eq!(builder.build_ldc(0xffff), Err(Error::IndexOutOfRange));
    assert_eq!(body(&builder.build().method_info[0]), (0, 0, 0, vec![]));
}

#[test]
fn the_locals_cover_parameters_receiver_and_what_is_loaded() {
    let locals = |parameters: Vec<Descriptor>, flags: u16, emit: &dyn Fn(&mut Builder)| {
        let mut builder = Builder::new();
        builder.set_class_name("T").unwrap();
        builder.add_method("m", function(parameters, Descriptor::Void), flags).unwrap();
        emit(&mut builder);
        body(&builder.build().method_info[0]).1
    };
    assert_eq!(locals(vec![], METHOD_ACC_STATIC, &|_| ()), 0);
    assert_eq!(locals(vec![], METHOD_ACC_PUBLIC, &|_| ()), 1);
    assert_eq!(locals(vec![Descriptor::Int, Descriptor::Long], METHOD_ACC_PUBLIC | METHOD_ACC_STATIC, &|_| ()), 2);
    assert_eq!(locals(vec![Descriptor::Int, Descriptor::Long], 0, &|_| ()), 3);
    assert_eq!(locals(vec![], METHOD_ACC_STATIC, &|b| b.build_aload_n(0).unwrap()), 1);
    assert_eq!(locals(vec![], METHOD_ACC_STATIC, &|b| b.build_aload_n(3).unwrap()), 4);
    assert_eq!(locals(vec![], METHOD_ACC_STATIC, &|b| b.build_aload(0).unwrap()), 1);
    assert_eq!(locals(vec![], METHOD_ACC_STATIC, &|b| b.build_aload(255).unwrap()), 256);
    assert_eq!(locals((0..7).map(|_| Descriptor::Int).collect(), 0, &|b| b.build_aload(2).unwrap()), 8);
    assert_eq!(
        locals(vec![], 0, &|b| {
            b.build_aload(9).unwrap();
            b.build_aload_n(2).unwrap();
            b.build_aload(4).unwrap();
        }),
        10
    );
}

#[test]
fn the_operands_of_an_instruction_are_the_halves_of_the_index() {
    assert_eq!(compute_byte(0x1234), (0x12, 0x34));
    assert_eq!(compute_byte(0x00ff), (0x00, 0xff));
    assert_eq!(compute_byte(0xff00), (0xff, 0x00));
    let mut builder = assembling();
    builder.build_anewarray(0x0102).unwrap();
    builder.build_aload(7).unwrap();
    builder.build_ldc(0xff).unwrap();
    let class = builder.build();
    assert_eq!(
        body(&class.method_info[0]).3,
        vec![Opcode::Anewarray(1, 2), Opcode::Aload(7), Opcode::Ldc(0xff)]
    );
    assert_eq!(body(&class.method_info[0]).2, 7);
}

#[test]
fn starting_a_method_ends_the_one_before() {
    let mut builder = Builder::new();
    builder.set_class_name("T").unwrap();
    assert_eq!(builder.add_method("a", function(vec![], Descriptor::Void), 0), Ok(7));
    builder.build_aconst_null().unwrap();
    assert_eq!(builder.add_method("b", function(vec![Descriptor::Int], Descriptor::Int), 8), Ok(12));
    builder.build_aload_n(0).unwrap();
    builder.build_aload_n(1).unwrap();
    let class = builder.build();
    assert_eq!(class.method_count, 2);
    assert_eq!(body(&class.method_info[0]), (1, 1, 1, vec![Opcode::AconstNull]));
    assert_eq!(body(&class.method_info[1]), (2, 2, 2, vec![Opcode::AloadN(0), Opcode::AloadN(1)]));
    assert_eq!((class.method_info[0].name_index, class.method_info[0].descriptor_index), (3, 4));
    assert_eq!((class.method_info[1].name_index, class.method_info[1].descriptor_index), (8, 9));
    assert_eq!(class.method_info[0].attributes[0].attribute_name_index, 5);
    assert_eq!(class.method_info[1].attributes[0].attribute_name_index, 10);
    assert_eq!(decode(class.to_jvm_bytecode().unwrap()), Ok(class));
}

#[test]
fn a_method_needs_the_descriptor_of_a_method() {
    let mut builder = Builder::new();
    builder.set_class_name("T").unwrap();
    assert_eq!(builder.add_method("m", Descriptor::Int, 0), Err(Error::InvalidDescriptor));
    assert_eq!(builder.add_method("m", object("A"), 0), Err(Error::InvalidDescriptor));
    assert_eq!(builder.build_return(), Err(Error::NoActiveMethod));
    let class = builder.build();
    assert_eq!(class.constant_pool_count, 3);
    assert_eq!(class.method_count, 0);
}

#[test]
fn a_text_that_is_too_long_changes_nothing() {
    let long = "a".repeat(0x10000);
    let mut builder = Builder::new();
    assert_eq!(builder.load_class(&long), Err(Error::IndexOutOfRange));
    assert_eq!(builder.load_string(&long), Err(Error::IndexOutOfRange));
    assert_eq!(builder.set_class_name(&long), Err(Error::IndexOutOfRange));
    assert_eq!(builder.load_field(1, &long, Descriptor::Int), Err(Error::IndexOutOfRange));
    assert_eq!(builder.load_method(1, "m", object(&long)), Err(Error::IndexOutOfRange));
    assert_eq!(builder.add_field("f", object(&long), 0), Err(Error::IndexOutOfRange));
    assert_eq!(builder.add_method(&long, function(vec![], Descriptor::Void), 0), Err(Error::IndexOutOfRange));
    assert_eq!(builder.load_string(&"a".repeat(0xffff)), Ok(2));
    let class = builder.build();
    assert_eq!(class.constant_pool_count, 3);
    assert_eq!((class.fields_count, class.method_count), (0, 0));
}

#[test]
fn a_full_pool_takes_no_more() {
    let mut builder = Builder::new();
    for i in 0..0x7fff {
        assert_eq!(builder.load_string("s"), Ok(2 * i + 2));
    }
    assert_eq!(builder.load_string("s"), Err(Error::IndexOutOfRange));
    assert_eq!(builder.load_class("s"), Err(Error::IndexOutOfRange));
    assert_eq!(builder.add_field("f", Descriptor::Int, 0), Err(Error::IndexOutOfRange));
    assert_eq!(builder.add_method("m", function(vec![], Descriptor::Void), 0), Err(Error::IndexOutOfRange));
    let class = builder.build();
    assert_eq!(class.constant_pool_count, 0xffff);
    assert_eq!(class.constant_pool.len(), 0xfffe);
    assert_eq!(&class.to_jvm_bytecode().unwrap()[8..10], &[0xff, 0xff]);
}

#[test]
fn a_depth_above_65535_is_refused() {
    let mut builder = assembling();
    for _ in 0..0xffff {
        builder.build_aconst_null().unwrap();
    }
    assert_eq!(builder.build_aconst_null(), Err(Error::IndexOutOfRange));
    assert_eq!(builder.build_aload(0), Err(Error::IndexOutOfRange));
    assert_eq!(builder.build_return(), Ok(()));
    assert_eq!(builder.build_areturn(), Ok(()));
    assert_eq!(builder.build_aconst_null(), Ok(()));
    let class = builder.build();
    let (max_stack, max_locals, length, code) = body(&class.method_info[0]);
    assert_eq!((max_stack, max_locals, length), (0xffff, 0, 0xffff + 3));
    assert_eq!(code.len(), 0xffff + 3);
}

#[test]
fn what_is_built_is_read_back_the_same() {
    let mut builder = Builder::new();
    builder.set_class_name("pkg/Sample").unwrap();
    let parent = builder.load_class("java/lang/Object").unwrap();
    builder.set_super_class(parent);
    builder.set_access_flags(0x0031);
    builder.add_field("value", Descriptor::Long, FIELD_ACC_PRIVATE).unwrap();
    let value = builder.load_field(2, "shared", Descriptor::Double).unwrap();
    builder
        .add_method("get", function(vec![Descriptor::Int, Descriptor::Double], object("java/lang/Object")), 1)
        .unwrap();
    builder.build_aload(1).unwrap();
    builder.build_getstatic(value).unwrap();
    builder.build_anewarray(parent).unwrap();
    builder.buldd_arraylength().unwrap();
    builder.build_aconst_null().unwrap();
    builder.build_areturn().unwrap();
    builder.end_method().unwrap();
    builder.add_method("run", function(vec![], Descriptor::Void), METHOD_ACC_STATIC).unwrap();
    builder.build_return().unwrap();
    let class = builder.build();
    assert_eq!(body(&class.method_info[0]).0, 4);
    assert_eq!(body(&class.method_info[0]).1, 3);
    let bytes = class.to_jvm_bytecode().unwrap();
    for k in 0..bytes.len() {
        assert_eq!(decode(bytes[..k].to_vec()), Err(Error::TruncatedInput));
    }
    assert_eq!(decode(bytes), Ok(class));
}
