//! The decoder of class files: it reads the tree of `bytecode` from a
//! buffer, choosing each attribute by the name that the constant pool holds
//! for it.

use vstd::prelude::*;
use vstd::utf8::{encode_utf8, encode_utf8_decode_utf8};
use crate::bytecode::annotation::{Annotation, ElementValue, ParameterAnnotation};
use crate::bytecode::attribute::{
    attribute_models, known_name, parse_attribute, parse_attributes, parse_code, parse_kind,
    parse_plain, AttributeInfo, AttributeInfoKind, AttributeInfoModel, AttributeName,
};
use crate::bytecode::class_file::{
    parse_class, parse_member, parse_member_table, parse_members, ClassFile, FieldInfo, MemberModel,
    MethodInfo,
};
use crate::bytecode::constant_pool::{read_pool, text_at, CpInfo};
use crate::bytecode::instr::{Opcode, OpcodeModel};
use crate::bytecode::stack_map::StackMapFrame;
use crate::bytecode::tables::{
    BootstrapMethod, ExceptionTable, InnerClass, LineNumberTable, LocalVariableTable,
    LocalVariableTypeTable,
};
use crate::bytecode::JVM_MAGIC;
use crate::error::{Error, ErrorModel};
use crate::reader::{has_bytes, Reader};
use crate::wire::{
    decode_counted, decode_n, decoded, decoded_counted, decoded_table, lemma_prepend_empty,
    lemma_prepend_push, models, prepend, Decode, Parsed,
};

verus! {

/// Whether two texts are the same.
pub fn same_text(a: &str, b: &str) -> (same: bool)
    ensures
        same == (a@ == b@),
{
    let x = a.as_bytes();
    let y = b.as_bytes();
    proof {
        encode_utf8_decode_utf8(a@);
        encode_utf8_decode_utf8(b@);
    }
    if x.len() != y.len() {
        return false;
    }
    let mut i: usize = 0;
    while i < x.len()
        invariant
            i <= x.len(),
            x@.len() == y@.len(),
            x@ == encode_utf8(a@),
            y@ == encode_utf8(b@),
            forall|j: int| 0 <= j < i ==> x@[j] == y@[j],
        decreases x.len() - i,
    {
        if x[i] != y[i] {
            return false;
        }
        i += 1;
    }
    proof {
        assert(x@ =~= y@);
        encode_utf8_decode_utf8(a@);
        encode_utf8_decode_utf8(b@);
    }
    true
}

/// The name of an attribute that `text` spells, if it spells one.
pub fn name_of(text: &str) -> (name: Option<AttributeName>)
    ensures
        name == known_name(text@),
{
    if same_text(text, "ConstantValue") {
        Some(AttributeName::ConstantValue)
    } else if same_text(text, "Code") {
        Some(AttributeName::Code)
    } else if same_text(text, "StackMapTable") {
        Some(AttributeName::StackMapTable)
    } else if same_text(text, "Exceptions") {
        Some(AttributeName::Exceptions)
    } else if same_text(text, "InnerClasses") {
        Some(AttributeName::InnerClasses)
    } else if same_text(text, "EnclosingMethod") {
        Some(AttributeName::EnclosingMethod)
    } else if same_text(text, "Synthetic") {
        Some(AttributeName::Synthetic)
    } else if same_text(text, "Signature") {
        Some(AttributeName::Signature)
    } else if same_text(text, "SourceFile") {
        Some(AttributeName::SourceFile)
    } else if same_text(text, "SourceDebugExtension") {
        Some(AttributeName::SourceDebugExtension)
    } else if same_text(text, "LineNumberTable") {
        Some(AttributeName::LineNumberTable)
    } else if same_text(text, "LocalVariableTable") {
        Some(AttributeName::LocalVariableTable)
    } else if same_text(text, "LocalVariableTypeTable") {
        Some(AttributeName::LocalVariableTypeTable)
    } else if same_text(text, "Deprecated") {
        Some(AttributeName::Deprecated)
    } else if same_text(text, "RuntimeVisibleAnnotations") {
        Some(AttributeName::RuntimeVisibleAnnotations)
    } else if same_text(text, "RuntimeInvisibleAnnotations") {
        Some(AttributeName::RuntimeInvisibleAnnotations)
    } else if same_text(text, "RuntimeVisibleParameterAnnotations") {
        Some(AttributeName::RuntimeVisibleParameterAnnotations)
    } else if same_text(text, "RuntimeInvisibleParameterAnnotations") {
        Some(AttributeName::RuntimeInvisibleParameterAnnotations)
    } else if same_text(text, "AnnotationDefault") {
        Some(AttributeName::AnnotationDefault)
    } else if same_text(text, "BootstrapMethods") {
        Some(AttributeName::BootstrapMethods)
    } else {
        None
    }
}

/// The instructions in the `length` bytes of code that stand in `data` at
/// `pos`.
pub open spec fn parse_code_block(data: Seq<u8>, pos: int, length: u32) -> Parsed<Seq<OpcodeModel>> {
    if !has_bytes(data, pos, length as int) {
        Err(ErrorModel::TruncatedInput)
    } else {
        match parse_code(data.subrange(pos, pos + length), 0) {
            Ok((code, end)) => Ok((code, pos + length)),
            Err(e) => Err(e),
        }
    }
}

/// Reads `length` bytes of code and the instructions in them.
#[verifier::loop_isolation(false)]
pub fn read_code(reader: &mut Reader, length: u32) -> (r: Result<Vec<Opcode>, Error>)
    ensures
        decoded_table(
            *old(reader),
            *final(reader),
            r,
            parse_code_block(old(reader).data@, old(reader).cursor as int, length),
        ),
{
    let bytes = reader.read_bytes(length as usize)?;
    let ghost window = bytes@;
    let mut block = Reader::new(bytes);
    let mut code: Vec<Opcode> = Vec::new();
    proof {
        assert(models(code@) =~= Seq::<OpcodeModel>::empty());
        if let Ok((s, p)) = parse_code(window, 0) {
            assert(Seq::<OpcodeModel>::empty() + s =~= s);
        }
    }
    while !block.is_at_end()
        invariant
            block.data@ == window,
            block.cursor <= window.len(),
            reader.data == old(reader).data,
            parse_code(window, 0) == prepend(models(code@), parse_code(window, block.cursor as int)),
        decreases window.len() - block.cursor,
    {
        let before = block.cursor;
        proof {
            assert(parse_code(window, before as int) == match crate::bytecode::instr::parse_instr(
                window,
                before as int,
            ) {
                Ok((op, p)) => if before < p <= window.len() {
                    prepend(seq![op], parse_code(window, p))
                } else {
                    Err(ErrorModel::TruncatedInput)
                },
                Err(e) => Err(e),
            });
        }
        let op = Opcode::from_reader(&mut block)?;
        if block.cursor <= before || block.cursor > block.data.len() {
            return Err(Error::TruncatedInput);
        }
        proof {
            lemma_prepend_push(models(code@), op@, parse_code(window, block.cursor as int));
            assert(models(code@.push(op)) =~= models(code@).push(op@));
        }
        code.push(op);
    }
    proof {
        lemma_prepend_empty(models(code@), block.cursor as int);
    }
    Ok(code)
}

/// Reads the payload of an attribute that holds no attribute itself.
fn read_plain(name: AttributeName, length: u32, reader: &mut Reader) -> (r: Result<
    AttributeInfoKind,
    Error,
>)
    requires
        name != AttributeName::Code,
    ensures
        decoded(
            *old(reader),
            *final(reader),
            r,
            parse_plain(name, length, old(reader).data@, old(reader).cursor as int),
        ),
{
    proof {
        reveal(parse_plain);
    }
    match name {
        AttributeName::ConstantValue => {
            let constantvalue_index = reader.read_int2()?;
            Ok(AttributeInfoKind::ConstantValue { constantvalue_index })
        },
        AttributeName::Code => Err(Error::IndexOutOfRange),
        AttributeName::StackMapTable => {
            let (number_of_entries, entries) = decode_counted::<StackMapFrame>(reader)?;
            Ok(AttributeInfoKind::StackMapTable { number_of_entries, entries })
        },
        AttributeName::Exceptions => {
            let (number_of_exceptions, exception_index_table) = decode_counted::<u16>(reader)?;
            Ok(AttributeInfoKind::Exceptions { number_of_exceptions, exception_index_table })
        },
        AttributeName::InnerClasses => {
            let (number_of_classes, classes) = decode_counted::<InnerClass>(reader)?;
            Ok(AttributeInfoKind::InnerClasses { number_of_classes, classes })
        },
        AttributeName::EnclosingMethod => {
            let class_index = reader.read_int2()?;
            let method_index = reader.read_int2()?;
            Ok(AttributeInfoKind::EnclosingMethod { class_index, method_index })
        },
        AttributeName::Synthetic => Ok(AttributeInfoKind::Synthetic),
        AttributeName::Signature => {
            let signature_index = reader.read_int2()?;
            Ok(AttributeInfoKind::Signature { signature_index })
        },
        AttributeName::SourceFile => {
            let sourcefile_index = reader.read_int2()?;
            Ok(AttributeInfoKind::SourceFile { sourcefile_index })
        },
        AttributeName::SourceDebugExtension => {
            let debug_extension = reader.read_bytes(length as usize)?;
            Ok(AttributeInfoKind::SourceDebugExtension { debug_extension })
        },
        AttributeName::LineNumberTable => {
            let (line_number_table_length, line_number_table) = decode_counted::<LineNumberTable>(
                reader,
            )?;
            Ok(AttributeInfoKind::LineNumberTable { line_number_table_length, line_number_table })
        },
        AttributeName::LocalVariableTable => {
            let (local_variable_table_length, local_variable_table) = decode_counted::<
                LocalVariableTable,
            >(reader)?;
            Ok(
                AttributeInfoKind::LocalVariableTable {
                    local_variable_table_length,
                    local_variable_table,
                },
            )
        },
        AttributeName::LocalVariableTypeTable => {
            let (local_variable_type_table_length, local_variable_type_table) = decode_counted::<
                LocalVariableTypeTable,
            >(reader)?;
            Ok(
                AttributeInfoKind::LocalVariableTypeTable {
                    local_variable_type_table_length,
                    local_variable_type_table,
                },
            )
        },
        AttributeName::Deprecated => Ok(AttributeInfoKind::Deprecated),
        AttributeName::RuntimeVisibleAnnotations => {
            let (num_annotations, annotations) = decode_counted::<Annotation>(reader)?;
            Ok(AttributeInfoKind::RuntimeVisibleAnnotations { num_annotations, annotations })
        },
        AttributeName::RuntimeInvisibleAnnotations => {
            let (num_annotations, annotations) = decode_counted::<Annotation>(reader)?;
            Ok(AttributeInfoKind::RuntimeInvisibleAnnotations { num_annotations, annotations })
        },
        AttributeName::RuntimeVisibleParameterAnnotations => {
            let num_parameters = reader.read_int1()?;
            let parameter_annotations = decode_n::<ParameterAnnotation>(
                reader,
                num_parameters as u64,
            )?;
            Ok(
                AttributeInfoKind::RuntimeVisibleParameterAnnotations {
                    num_parameters,
                    parameter_annotations,
                },
            )
        },
        AttributeName::RuntimeInvisibleParameterAnnotations => {
            let num_parameters = reader.read_int1()?;
            let parameter_annotations = decode_n::<ParameterAnnotation>(
                reader,
                num_parameters as u64,
            )?;
            Ok(
                AttributeInfoKind::RuntimeInvisibleParameterAnnotations {
                    num_parameters,
                    parameter_annotations,
                },
            )
        },
        AttributeName::AnnotationDefault => {
            let default_value = ElementValue::decode(reader)?;
            Ok(AttributeInfoKind::AnnotationDefault { default_value })
        },
        AttributeName::BootstrapMethods => {
            let (num_bootstrap_methods, bootstrap_methods) = decode_counted::<BootstrapMethod>(
                reader,
            )?;
            Ok(AttributeInfoKind::BootstrapMethods { num_bootstrap_methods, bootstrap_methods })
        },
    }
}

/// Reads the payload of the attribute named `name` with stored length
/// `length`.
fn read_kind(name: AttributeName, length: u32, reader: &mut Reader, pool: &Vec<CpInfo>) -> (r:
    Result<AttributeInfoKind, Error>)
    ensures
        decoded(
            *old(reader),
            *final(reader),
            r,
            parse_kind(name, length, old(reader).data@, old(reader).cursor as int, models(pool@)),
        ),
    decreases old(reader).data@.len() - old(reader).cursor, 0int,
{
    match name {
        AttributeName::Code => {
            let max_stack = reader.read_int2()?;
            let max_locals = reader.read_int2()?;
            let code_length = reader.read_int4()?;
            let code = read_code(reader, code_length)?;
            let mark = reader.cursor;
            let (exception_table_length, exception_table) = decode_counted::<ExceptionTable>(
                reader,
            )?;
            if reader.cursor < mark {
                return Err(Error::TruncatedInput);
            }
            let attributes_count = reader.read_int2()?;
            let attributes = read_attributes(reader, pool, attributes_count)?;
            Ok(
                AttributeInfoKind::Code {
                    max_stack,
                    max_locals,
                    code_length,
                    code,
                    exception_table_length,
                    exception_table,
                    attributes_count,
                    attributes,
                },
            )
        },
        _ => read_plain(name, length, reader),
    }
}

/// Reads one attribute, its kind chosen by the name that its name index has
/// in `pool`.
pub fn read_attribute(reader: &mut Reader, pool: &Vec<CpInfo>) -> (r: Result<AttributeInfo, Error>)
    ensures
        decoded(
            *old(reader),
            *final(reader),
            r,
            parse_attribute(old(reader).data@, old(reader).cursor as int, models(pool@)),
        ),
    decreases old(reader).data@.len() - old(reader).cursor, 1int,
{
    let attribute_name_index = reader.read_int2()?;
    let attribute_length = reader.read_int4()?;
    let text = match text_at(pool, attribute_name_index) {
        Some(text) => text,
        None => {
            return Err(Error::IndexOutOfRange);
        },
    };
    let name = match name_of(text.as_str()) {
        Some(name) => name,
        None => {
            return Err(Error::UnknownAttribute(text.clone()));
        },
    };
    let info = read_kind(name, attribute_length, reader, pool)?;
    Ok(AttributeInfo { attribute_name_index, attribute_length, info })
}

/// Reads `n` attributes, one behind the other.
#[verifier::loop_isolation(false)]
pub fn read_attributes(reader: &mut Reader, pool: &Vec<CpInfo>, n: u16) -> (r: Result<
    Vec<AttributeInfo>,
    Error,
>)
    ensures
        final(reader).data == old(reader).data,
        old(reader).cursor <= final(reader).cursor,
        match parse_attributes(
            old(reader).data@,
            old(reader).cursor as int,
            models(pool@),
            n as int,
        ) {
            Ok((s, p)) => r matches Ok(v) && attribute_models(v@) == s && final(reader).cursor == p,
            Err(e) => r matches Err(x) && x@ == e,
        },
    decreases old(reader).data@.len() - old(reader).cursor, 2int,
{
    let ghost data = reader.data@;
    let ghost start = reader.cursor as int;
    let ghost ms = models(pool@);
    let mut attributes: Vec<AttributeInfo> = Vec::new();
    let mut i: u16 = 0;
    proof {
        assert(attribute_models(attributes@) =~= Seq::<AttributeInfoModel>::empty());
        if let Ok((s, p)) = parse_attributes(data, start, ms, n as int) {
            assert(Seq::<AttributeInfoModel>::empty() + s =~= s);
        }
    }
    while i < n
        invariant
            i <= n,
            reader.data == old(reader).data,
            start <= reader.cursor,
            i == 0 ==> reader.cursor == start,
            i > 0 ==> reader.cursor <= data.len(),
            parse_attributes(data, start, ms, n as int) == prepend(
                attribute_models(attributes@),
                parse_attributes(data, reader.cursor as int, ms, n - i),
            ),
        decreases n - i,
    {
        let before = reader.cursor;
        let a = read_attribute(reader, pool)?;
        if reader.cursor <= before || reader.cursor > reader.data.len() {
            return Err(Error::TruncatedInput);
        }
        proof {
            lemma_prepend_push(
                attribute_models(attributes@),
                a@,
                parse_attributes(data, reader.cursor as int, ms, n - i - 1),
            );
            assert(attribute_models(attributes@.push(a)) =~= attribute_models(attributes@).push(a@));
        }
        attributes.push(a);
        i += 1;
    }
    proof {
        lemma_prepend_empty(attribute_models(attributes@), reader.cursor as int);
    }
    Ok(attributes)
}


/// Reads the flags, the two indices and the attributes of a field or
/// method.
fn read_member(reader: &mut Reader, pool: &Vec<CpInfo>) -> (r: Result<
    (u16, u16, u16, u16, Vec<AttributeInfo>),
    Error,
>)
    ensures
        final(reader).data == old(reader).data,
        old(reader).cursor <= final(reader).cursor,
        match parse_member(old(reader).data@, old(reader).cursor as int, models(pool@)) {
            Ok((m, p)) => r matches Ok(parts) && m == (MemberModel {
                access_flags: parts.0,
                name_index: parts.1,
                descriptor_index: parts.2,
                attributes_count: parts.3,
                attributes: attribute_models(parts.4@),
            }) && final(reader).cursor == p,
            Err(e) => r matches Err(x) && x@ == e,
        },
{
    let access_flags = reader.read_int2()?;
    let name_index = reader.read_int2()?;
    let descriptor_index = reader.read_int2()?;
    let attributes_count = reader.read_int2()?;
    let attributes = read_attributes(reader, pool, attributes_count)?;
    Ok((access_flags, name_index, descriptor_index, attributes_count, attributes))
}

/// Reads the table of fields behind its count.
#[verifier::loop_isolation(false)]
fn read_fields(reader: &mut Reader, pool: &Vec<CpInfo>) -> (r: Result<(u16, Vec<FieldInfo>), Error>)
    ensures
        decoded_counted(
            *old(reader),
            *final(reader),
            r,
            parse_member_table(old(reader).data@, old(reader).cursor as int, models(pool@)),
        ),
{
    let n = reader.read_int2()?;
    let ghost data = reader.data@;
    let ghost start = reader.cursor as int;
    let ghost ms = models(pool@);
    let mut fields: Vec<FieldInfo> = Vec::new();
    let mut i: u16 = 0;
    proof {
        assert(models(fields@) =~= Seq::<MemberModel>::empty());
        if let Ok((s, p)) = parse_members(data, start, ms, n as int) {
            assert(Seq::<MemberModel>::empty() + s =~= s);
        }
    }
    while i < n
        invariant
            i <= n,
            ms == models(pool@),
            reader.data == old(reader).data,
            data == reader.data@,
            start <= reader.cursor,
            parse_members(data, start, ms, n as int) == prepend(
                models(fields@),
                parse_members(data, reader.cursor as int, ms, n - i),
            ),
        decreases n - i,
    {
        let (access_flags, name_index, descriptor_index, attributes_count, attributes) =
            read_member(reader, pool)?;
        let field = FieldInfo {
            access_flags,
            name_index,
            descriptor_index,
            attributes_count,
            attributes,
        };
        proof {
            lemma_prepend_push(
                models(fields@),
                field@,
                parse_members(data, reader.cursor as int, ms, n - i - 1),
            );
            assert(models(fields@.push(field)) =~= models(fields@).push(field@));
        }
        fields.push(field);
        i += 1;
    }
    proof {
        lemma_prepend_empty(models(fields@), reader.cursor as int);
    }
    Ok((n, fields))
}

/// Reads the table of methods behind its count.
#[verifier::loop_isolation(false)]
fn read_methods(reader: &mut Reader, pool: &Vec<CpInfo>) -> (r: Result<
    (u16, Vec<MethodInfo>),
    Error,
>)
    ensures
        decoded_counted(
            *old(reader),
            *final(reader),
            r,
            parse_member_table(old(reader).data@, old(reader).cursor as int, models(pool@)),
        ),
{
    let n = reader.read_int2()?;
    let ghost data = reader.data@;
    let ghost start = reader.cursor as int;
    let ghost ms = models(pool@);
    let mut methods: Vec<MethodInfo> = Vec::new();
    let mut i: u16 = 0;
    proof {
        assert(models(methods@) =~= Seq::<MemberModel>::empty());
        if let Ok((s, p)) = parse_members(data, start, ms, n as int) {
            assert(Seq::<MemberModel>::empty() + s =~= s);
        }
    }
    while i < n
        invariant
            i <= n,
            ms == models(pool@),
            reader.data == old(reader).data,
            data == reader.data@,
            start <= reader.cursor,
            parse_members(data, start, ms, n as int) == prepend(
                models(methods@),
                parse_members(data, reader.cursor as int, ms, n - i),
            ),
        decreases n - i,
    {
        let (access_flags, name_index, descriptor_index, attributes_count, attributes) =
            read_member(reader, pool)?;
        let method = MethodInfo {
            access_flags,
            name_index,
            descriptor_index,
            attributes_count,
            attributes,
        };
        proof {
            lemma_prepend_push(
                models(methods@),
                method@,
                parse_members(data, reader.cursor as int, ms, n - i - 1),
            );
            assert(models(methods@.push(method)) =~= models(methods@).push(method@));
        }
        methods.push(method);
        i += 1;
    }
    proof {
        lemma_prepend_empty(models(methods@), reader.cursor as int);
    }
    Ok((n, methods))
}

/// A decoder of class files over a buffer.
#[derive(Debug, Clone, PartialEq)]
pub struct Parser {
    pub reader: Reader,
}

impl Parser {
    /// A parser at the start of `data`.
    pub fn new(data: Vec<u8>) -> (parser: Parser)
        ensures
            parser.reader.data == data,
            parser.reader.cursor == 0,
    {
        Parser { reader: Reader::new(data) }
    }

    /// Reads one class file at the cursor: the magic number, the version,
    /// the constant pool, the class's flags and names, and the tables of
    /// interfaces, fields, methods and attributes. Fails with `BadMagic`
    /// where the first four bytes are not the magic number, with
    /// `TruncatedInput` where the buffer ends inside the class file, and
    /// with the error of the part that cannot be read otherwise.
    pub fn parse(&mut self) -> (r: Result<ClassFile, Error>)
        ensures
            decoded(
                old(self).reader,
                final(self).reader,
                r,
                parse_class(old(self).reader.data@, old(self).reader.cursor as int),
            ),
    {
        let magic = self.reader.read_int4()?;
        if magic != JVM_MAGIC {
            return Err(Error::BadMagic);
        }
        let minor_version = self.reader.read_int2()?;
        let major_version = self.reader.read_int2()?;
        let constant_pool_count = self.reader.read_int2()?;
        let constant_pool = read_pool(&mut self.reader, constant_pool_count)?;
        let access_flags = self.reader.read_int2()?;
        let this_class = self.reader.read_int2()?;
        let super_class = self.reader.read_int2()?;
        let (interfaces_count, interfaces) = decode_counted::<u16>(&mut self.reader)?;
        let (fields_count, fields) = read_fields(&mut self.reader, &constant_pool)?;
        let (method_count, method_info) = read_methods(&mut self.reader, &constant_pool)?;
        let attributes_count = self.reader.read_int2()?;
        let attributes = self.parse_attribute(&constant_pool, attributes_count)?;
        Ok(
            ClassFile {
                magic,
                minor_version,
                major_version,
                constant_pool_count,
                constant_pool,
                access_flags,
                this_class,
                super_class,
                interfaces_count,
                interfaces,
                fields_count,
                fields,
                method_count,
                method_info,
                attributes_count,
                attributes,
            },
        )
    }

    /// Reads `count` attributes at the cursor, the kind of each chosen by
    /// the name that its name index has in `pool`. Fails with
    /// `IndexOutOfRange` where a name index leads to no text of the pool,
    /// and with `UnknownAttribute` where the text is no known name.
    fn parse_attribute(&mut self, pool: &Vec<CpInfo>, count: u16) -> (r: Result<
        Vec<AttributeInfo>,
        Error,
    >)
        ensures
            final(self).reader.data == old(self).reader.data,
            old(self).reader.cursor <= final(self).reader.cursor,
            match parse_attributes(
                old(self).reader.data@,
                old(self).reader.cursor as int,
                models(pool@),
                count as int,
            ) {
                Ok((s, p)) => r matches Ok(v) && attribute_models(v@) == s
                    && final(self).reader.cursor == p,
                Err(e) => r matches Err(x) && x@ == e,
            },
    {
        read_attributes(&mut self.reader, pool, count)
    }
}

/// Decodes the class file that `data` starts with.
pub fn decode(data: Vec<u8>) -> (r: Result<ClassFile, Error>)
    ensures
        match parse_class(data@, 0) {
            Ok((class, end)) => r matches Ok(c) && c@ == class,
            Err(e) => r matches Err(x) && x@ == e,
        },
{
    let mut parser = Parser::new(data);
    parser.parse()
}

} // verus!
