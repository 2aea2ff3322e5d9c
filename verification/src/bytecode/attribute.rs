//! Attributes: the named blocks that hang on a class, a field, a method or
//! a method's code. An attribute is found by its name, which it holds as an
//! index into the constant pool.

use vstd::prelude::*;
use crate::error::{Error, ErrorModel};
use crate::reader::{
    carries, has_bytes, lemma_carries_split, lemma_u16_at_bytes, lemma_u32_at_bytes, u16_at,
    u16_bytes, u32_at, u32_bytes,
};
use crate::wire::{
    all_encodable, all_valid, clone_all, encode_all, encode_counted, expected, lemma_parse_counted,
    lemma_parse_n, models, parse_counted, parse_n, prepend, put_u16, put_u32, wire_all,
    wire_counted, Parse, Parsed, Wire,
};
use super::annotation::{
    Annotation, AnnotationModel, ElementValue, ElementValueModel, ParameterAnnotation,
    ParameterAnnotationModel,
};
use super::constant_pool::{pool_utf8, CpInfoModel};
use super::instr::{
    aligned_at, lemma_parse_instr, lemma_wire_nonempty, parse_instr, Opcode, OpcodeModel,
};
use super::stack_map::{StackMapFrame, StackMapFrameModel};
use super::{appended, encoded, ToJvmBytecode};
use super::tables::{
    BootstrapMethod, BootstrapMethodModel, ExceptionTable, InnerClass, LineNumberTable,
    LocalVariableTable, LocalVariableTypeTable,
};

verus! {

/// An attribute: the index of its name, the length of its payload, and the
/// payload.
#[derive(Debug, PartialEq)]
pub struct AttributeInfo {
    pub attribute_name_index: u16,
    pub attribute_length: u32,
    pub info: AttributeInfoKind,
}

/// The payload of an attribute, one variant for each known name.
#[derive(Debug, PartialEq)]
pub enum AttributeInfoKind {
    ConstantValue { constantvalue_index: u16 },
    Code {
        max_stack: u16,
        max_locals: u16,
        code_length: u32,
        code: Vec<Opcode>,
        exception_table_length: u16,
        exception_table: Vec<ExceptionTable>,
        attributes_count: u16,
        attributes: Vec<AttributeInfo>,
    },
    StackMapTable { number_of_entries: u16, entries: Vec<StackMapFrame> },
    Exceptions { number_of_exceptions: u16, exception_index_table: Vec<u16> },
    InnerClasses { number_of_classes: u16, classes: Vec<InnerClass> },
    EnclosingMethod { class_index: u16, method_index: u16 },
    Synthetic,
    Signature { signature_index: u16 },
    SourceFile { sourcefile_index: u16 },
    SourceDebugExtension { debug_extension: Vec<u8> },
    LineNumberTable { line_number_table_length: u16, line_number_table: Vec<LineNumberTable> },
    LocalVariableTable {
        local_variable_table_length: u16,
        local_variable_table: Vec<LocalVariableTable>,
    },
    LocalVariableTypeTable {
        local_variable_type_table_length: u16,
        local_variable_type_table: Vec<LocalVariableTypeTable>,
    },
    Deprecated,
    RuntimeVisibleAnnotations { num_annotations: u16, annotations: Vec<Annotation> },
    RuntimeInvisibleAnnotations { num_annotations: u16, annotations: Vec<Annotation> },
    RuntimeVisibleParameterAnnotations {
        num_parameters: u8,
        parameter_annotations: Vec<ParameterAnnotation>,
    },
    RuntimeInvisibleParameterAnnotations {
        num_parameters: u8,
        parameter_annotations: Vec<ParameterAnnotation>,
    },
    AnnotationDefault { default_value: ElementValue },
    BootstrapMethods { num_bootstrap_methods: u16, bootstrap_methods: Vec<BootstrapMethod> },
}

/// The model of an [`AttributeInfo`].
pub struct AttributeInfoModel {
    pub attribute_name_index: u16,
    pub attribute_length: u32,
    pub info: AttributeInfoKindModel,
}

/// The model of an [`AttributeInfoKind`]: every table as a sequence of the
/// models of its items.
pub enum AttributeInfoKindModel {
    ConstantValue { constantvalue_index: u16 },
    Code {
        max_stack: u16,
        max_locals: u16,
        code_length: u32,
        code: Seq<OpcodeModel>,
        exception_table_length: u16,
        exception_table: Seq<ExceptionTable>,
        attributes_count: u16,
        attributes: Seq<AttributeInfoModel>,
    },
    StackMapTable { number_of_entries: u16, entries: Seq<StackMapFrameModel> },
    Exceptions { number_of_exceptions: u16, exception_index_table: Seq<u16> },
    InnerClasses { number_of_classes: u16, classes: Seq<InnerClass> },
    EnclosingMethod { class_index: u16, method_index: u16 },
    Synthetic,
    Signature { signature_index: u16 },
    SourceFile { sourcefile_index: u16 },
    SourceDebugExtension { debug_extension: Seq<u8> },
    LineNumberTable { line_number_table_length: u16, line_number_table: Seq<LineNumberTable> },
    LocalVariableTable {
        local_variable_table_length: u16,
        local_variable_table: Seq<LocalVariableTable>,
    },
    LocalVariableTypeTable {
        local_variable_type_table_length: u16,
        local_variable_type_table: Seq<LocalVariableTypeTable>,
    },
    Deprecated,
    RuntimeVisibleAnnotations { num_annotations: u16, annotations: Seq<AnnotationModel> },
    RuntimeInvisibleAnnotations { num_annotations: u16, annotations: Seq<AnnotationModel> },
    RuntimeVisibleParameterAnnotations {
        num_parameters: u8,
        parameter_annotations: Seq<ParameterAnnotationModel>,
    },
    RuntimeInvisibleParameterAnnotations {
        num_parameters: u8,
        parameter_annotations: Seq<ParameterAnnotationModel>,
    },
    AnnotationDefault { default_value: ElementValueModel },
    BootstrapMethods { num_bootstrap_methods: u16, bootstrap_methods: Seq<BootstrapMethodModel> },
}

/// The model of an attribute.
pub open spec fn attribute_model(a: AttributeInfo) -> AttributeInfoModel
    decreases a,
{
    AttributeInfoModel {
        attribute_name_index: a.attribute_name_index,
        attribute_length: a.attribute_length,
        info: kind_model(a.info),
    }
}

/// The models of the attributes of a table.
pub open spec fn attribute_models(s: Seq<AttributeInfo>) -> Seq<AttributeInfoModel>
    decreases s,
{
    Seq::new(
        s.len(),
        |i: int|
            if 0 <= i < s.len() {
                attribute_model(s[i])
            } else {
                arbitrary()
            },
    )
}

/// The model of a payload.
pub open spec fn kind_model(k: AttributeInfoKind) -> AttributeInfoKindModel
    decreases k,
{
    match k {
        AttributeInfoKind::ConstantValue {
            constantvalue_index,
        } => AttributeInfoKindModel::ConstantValue { constantvalue_index },
        AttributeInfoKind::Code {
            max_stack,
            max_locals,
            code_length,
            code,
            exception_table_length,
            exception_table,
            attributes_count,
            attributes,
        } => AttributeInfoKindModel::Code {
            max_stack,
            max_locals,
            code_length,
            code: models(code@),
            exception_table_length,
            exception_table: models(exception_table@),
            attributes_count,
            attributes: attribute_models(attributes@),
        },
        AttributeInfoKind::StackMapTable {
            number_of_entries,
            entries,
        } => AttributeInfoKindModel::StackMapTable { number_of_entries, entries: models(entries@) },
        AttributeInfoKind::Exceptions {
            number_of_exceptions,
            exception_index_table,
        } => AttributeInfoKindModel::Exceptions {
            number_of_exceptions,
            exception_index_table: models(exception_index_table@),
        },
        AttributeInfoKind::InnerClasses {
            number_of_classes,
            classes,
        } => AttributeInfoKindModel::InnerClasses { number_of_classes, classes: models(classes@) },
        AttributeInfoKind::EnclosingMethod {
            class_index,
            method_index,
        } => AttributeInfoKindModel::EnclosingMethod { class_index, method_index },
        AttributeInfoKind::Synthetic => AttributeInfoKindModel::Synthetic,
        AttributeInfoKind::Signature { signature_index } => AttributeInfoKindModel::Signature {
            signature_index,
        },
        AttributeInfoKind::SourceFile { sourcefile_index } => AttributeInfoKindModel::SourceFile {
            sourcefile_index,
        },
        AttributeInfoKind::SourceDebugExtension {
            debug_extension,
        } => AttributeInfoKindModel::SourceDebugExtension { debug_extension: debug_extension@ },
        AttributeInfoKind::LineNumberTable {
            line_number_table_length,
            line_number_table,
        } => AttributeInfoKindModel::LineNumberTable {
            line_number_table_length,
            line_number_table: models(line_number_table@),
        },
        AttributeInfoKind::LocalVariableTable {
            local_variable_table_length,
            local_variable_table,
        } => AttributeInfoKindModel::LocalVariableTable {
            local_variable_table_length,
            local_variable_table: models(local_variable_table@),
        },
        AttributeInfoKind::LocalVariableTypeTable {
            local_variable_type_table_length,
            local_variable_type_table,
        } => AttributeInfoKindModel::LocalVariableTypeTable {
            local_variable_type_table_length,
            local_variable_type_table: models(local_variable_type_table@),
        },
        AttributeInfoKind::Deprecated => AttributeInfoKindModel::Deprecated,
        AttributeInfoKind::RuntimeVisibleAnnotations {
            num_annotations,
            annotations,
        } => AttributeInfoKindModel::RuntimeVisibleAnnotations {
            num_annotations,
            annotations: models(annotations@),
        },
        AttributeInfoKind::RuntimeInvisibleAnnotations {
            num_annotations,
            annotations,
        } => AttributeInfoKindModel::RuntimeInvisibleAnnotations {
            num_annotations,
            annotations: models(annotations@),
        },
        AttributeInfoKind::RuntimeVisibleParameterAnnotations {
            num_parameters,
            parameter_annotations,
        } => AttributeInfoKindModel::RuntimeVisibleParameterAnnotations {
            num_parameters,
            parameter_annotations: models(parameter_annotations@),
        },
        AttributeInfoKind::RuntimeInvisibleParameterAnnotations {
            num_parameters,
            parameter_annotations,
        } => AttributeInfoKindModel::RuntimeInvisibleParameterAnnotations {
            num_parameters,
            parameter_annotations: models(parameter_annotations@),
        },
        AttributeInfoKind::AnnotationDefault {
            default_value,
        } => AttributeInfoKindModel::AnnotationDefault { default_value: default_value@ },
        AttributeInfoKind::BootstrapMethods {
            num_bootstrap_methods,
            bootstrap_methods,
        } => AttributeInfoKindModel::BootstrapMethods {
            num_bootstrap_methods,
            bootstrap_methods: models(bootstrap_methods@),
        },
    }
}

impl View for AttributeInfo {
    type V = AttributeInfoModel;

    open spec fn view(&self) -> AttributeInfoModel {
        attribute_model(*self)
    }
}

impl View for AttributeInfoKind {
    type V = AttributeInfoKindModel;

    open spec fn view(&self) -> AttributeInfoKindModel {
        kind_model(*self)
    }
}

/// The names of the known kinds of attribute.
#[derive(Debug, Clone, Copy, PartialEq, Eq)]
pub enum AttributeName {
    ConstantValue,
    Code,
    StackMapTable,
    Exceptions,
    InnerClasses,
    EnclosingMethod,
    Synthetic,
    Signature,
    SourceFile,
    SourceDebugExtension,
    LineNumberTable,
    LocalVariableTable,
    LocalVariableTypeTable,
    Deprecated,
    RuntimeVisibleAnnotations,
    RuntimeInvisibleAnnotations,
    RuntimeVisibleParameterAnnotations,
    RuntimeInvisibleParameterAnnotations,
    AnnotationDefault,
    BootstrapMethods,
}

/// The text of each name.
pub open spec fn name_text(name: AttributeName) -> Seq<char> {
    match name {
        AttributeName::ConstantValue => "ConstantValue"@,
        AttributeName::Code => "Code"@,
        AttributeName::StackMapTable => "StackMapTable"@,
        AttributeName::Exceptions => "Exceptions"@,
        AttributeName::InnerClasses => "InnerClasses"@,
        AttributeName::EnclosingMethod => "EnclosingMethod"@,
        AttributeName::Synthetic => "Synthetic"@,
        AttributeName::Signature => "Signature"@,
        AttributeName::SourceFile => "SourceFile"@,
        AttributeName::SourceDebugExtension => "SourceDebugExtension"@,
        AttributeName::LineNumberTable => "LineNumberTable"@,
        AttributeName::LocalVariableTable => "LocalVariableTable"@,
        AttributeName::LocalVariableTypeTable => "LocalVariableTypeTable"@,
        AttributeName::Deprecated => "Deprecated"@,
        AttributeName::RuntimeVisibleAnnotations => "RuntimeVisibleAnnotations"@,
        AttributeName::RuntimeInvisibleAnnotations => "RuntimeInvisibleAnnotations"@,
        AttributeName::RuntimeVisibleParameterAnnotations => "RuntimeVisibleParameterAnnotations"@,
        AttributeName::RuntimeInvisibleParameterAnnotations => {
            "RuntimeInvisibleParameterAnnotations"@
        },
        AttributeName::AnnotationDefault => "AnnotationDefault"@,
        AttributeName::BootstrapMethods => "BootstrapMethods"@,
    }
}

/// The name that `text` spells, if it spells one.
pub open spec fn known_name(text: Seq<char>) -> Option<AttributeName> {
    if text == "ConstantValue"@ {
        Some(AttributeName::ConstantValue)
    } else if text == "Code"@ {
        Some(AttributeName::Code)
    } else if text == "StackMapTable"@ {
        Some(AttributeName::StackMapTable)
    } else if text == "Exceptions"@ {
        Some(AttributeName::Exceptions)
    } else if text == "InnerClasses"@ {
        Some(AttributeName::InnerClasses)
    } else if text == "EnclosingMethod"@ {
        Some(AttributeName::EnclosingMethod)
    } else if text == "Synthetic"@ {
        Some(AttributeName::Synthetic)
    } else if text == "Signature"@ {
        Some(AttributeName::Signature)
    } else if text == "SourceFile"@ {
        Some(AttributeName::SourceFile)
    } else if text == "SourceDebugExtension"@ {
        Some(AttributeName::SourceDebugExtension)
    } else if text == "LineNumberTable"@ {
        Some(AttributeName::LineNumberTable)
    } else if text == "LocalVariableTable"@ {
        Some(AttributeName::LocalVariableTable)
    } else if text == "LocalVariableTypeTable"@ {
        Some(AttributeName::LocalVariableTypeTable)
    } else if text == "Deprecated"@ {
        Some(AttributeName::Deprecated)
    } else if text == "RuntimeVisibleAnnotations"@ {
        Some(AttributeName::RuntimeVisibleAnnotations)
    } else if text == "RuntimeInvisibleAnnotations"@ {
        Some(AttributeName::RuntimeInvisibleAnnotations)
    } else if text == "RuntimeVisibleParameterAnnotations"@ {
        Some(AttributeName::RuntimeVisibleParameterAnnotations)
    } else if text == "RuntimeInvisibleParameterAnnotations"@ {
        Some(AttributeName::RuntimeInvisibleParameterAnnotations)
    } else if text == "AnnotationDefault"@ {
        Some(AttributeName::AnnotationDefault)
    } else if text == "BootstrapMethods"@ {
        Some(AttributeName::BootstrapMethods)
    } else {
        None
    }
}

/// The name of each kind of payload.
pub open spec fn kind_tag(k: AttributeInfoKindModel) -> AttributeName {
    match k {
        AttributeInfoKindModel::ConstantValue { .. } => AttributeName::ConstantValue,
        AttributeInfoKindModel::Code { .. } => AttributeName::Code,
        AttributeInfoKindModel::StackMapTable { .. } => AttributeName::StackMapTable,
        AttributeInfoKindModel::Exceptions { .. } => AttributeName::Exceptions,
        AttributeInfoKindModel::InnerClasses { .. } => AttributeName::InnerClasses,
        AttributeInfoKindModel::EnclosingMethod { .. } => AttributeName::EnclosingMethod,
        AttributeInfoKindModel::Synthetic => AttributeName::Synthetic,
        AttributeInfoKindModel::Signature { .. } => AttributeName::Signature,
        AttributeInfoKindModel::SourceFile { .. } => AttributeName::SourceFile,
        AttributeInfoKindModel::SourceDebugExtension { .. } => AttributeName::SourceDebugExtension,
        AttributeInfoKindModel::LineNumberTable { .. } => AttributeName::LineNumberTable,
        AttributeInfoKindModel::LocalVariableTable { .. } => AttributeName::LocalVariableTable,
        AttributeInfoKindModel::LocalVariableTypeTable { .. } => {
            AttributeName::LocalVariableTypeTable
        },
        AttributeInfoKindModel::Deprecated => AttributeName::Deprecated,
        AttributeInfoKindModel::RuntimeVisibleAnnotations { .. } => {
            AttributeName::RuntimeVisibleAnnotations
        },
        AttributeInfoKindModel::RuntimeInvisibleAnnotations { .. } => {
            AttributeName::RuntimeInvisibleAnnotations
        },
        AttributeInfoKindModel::RuntimeVisibleParameterAnnotations { .. } => {
            AttributeName::RuntimeVisibleParameterAnnotations
        },
        AttributeInfoKindModel::RuntimeInvisibleParameterAnnotations { .. } => {
            AttributeName::RuntimeInvisibleParameterAnnotations
        },
        AttributeInfoKindModel::AnnotationDefault { .. } => AttributeName::AnnotationDefault,
        AttributeInfoKindModel::BootstrapMethods { .. } => AttributeName::BootstrapMethods,
    }
}

/// The text under which each kind of payload is found.
pub open spec fn kind_name(k: AttributeInfoKindModel) -> Seq<char> {
    name_text(kind_tag(k))
}

/// The payload of an attribute that holds no attribute itself, every length
/// taken from the table it counts.
#[verifier::opaque]
pub open spec fn wire_plain(k: AttributeInfoKindModel) -> Seq<u8> {
    match k {
        AttributeInfoKindModel::ConstantValue { constantvalue_index } => u16_bytes(
            constantvalue_index,
        ),
        AttributeInfoKindModel::Code { .. } => Seq::empty(),
        AttributeInfoKindModel::StackMapTable { number_of_entries, entries } => {
            wire_counted(entries)
        },
        AttributeInfoKindModel::Exceptions {
            number_of_exceptions,
            exception_index_table,
        } => wire_counted(exception_index_table),
        AttributeInfoKindModel::InnerClasses { number_of_classes, classes } => {
            wire_counted(classes)
        },
        AttributeInfoKindModel::EnclosingMethod { class_index, method_index } => u16_bytes(
            class_index,
        ) + u16_bytes(method_index),
        AttributeInfoKindModel::Synthetic => Seq::empty(),
        AttributeInfoKindModel::Signature { signature_index } => u16_bytes(signature_index),
        AttributeInfoKindModel::SourceFile { sourcefile_index } => u16_bytes(sourcefile_index),
        AttributeInfoKindModel::SourceDebugExtension { debug_extension } => debug_extension,
        AttributeInfoKindModel::LineNumberTable {
            line_number_table_length,
            line_number_table,
        } => wire_counted(line_number_table),
        AttributeInfoKindModel::LocalVariableTable {
            local_variable_table_length,
            local_variable_table,
        } => wire_counted(local_variable_table),
        AttributeInfoKindModel::LocalVariableTypeTable {
            local_variable_type_table_length,
            local_variable_type_table,
        } => wire_counted(local_variable_type_table),
        AttributeInfoKindModel::Deprecated => Seq::empty(),
        AttributeInfoKindModel::RuntimeVisibleAnnotations { num_annotations, annotations } =>
            wire_counted(annotations),
        AttributeInfoKindModel::RuntimeInvisibleAnnotations { num_annotations, annotations } =>
            wire_counted(annotations),
        AttributeInfoKindModel::RuntimeVisibleParameterAnnotations {
            num_parameters,
            parameter_annotations,
        } => seq![parameter_annotations.len() as u8] + wire_all(parameter_annotations),
        AttributeInfoKindModel::RuntimeInvisibleParameterAnnotations {
            num_parameters,
            parameter_annotations,
        } => seq![parameter_annotations.len() as u8] + wire_all(parameter_annotations),
        AttributeInfoKindModel::AnnotationDefault { default_value } => default_value.wire(),
        AttributeInfoKindModel::BootstrapMethods { num_bootstrap_methods, bootstrap_methods } =>
            wire_counted(bootstrap_methods),
    }
}

/// The payload of an attribute, every length taken from the table it counts.
pub open spec fn wire_kind(k: AttributeInfoKindModel) -> Seq<u8>
    decreases k,
{
    match k {
        AttributeInfoKindModel::Code {
            max_stack,
            max_locals,
            code_length,
            code,
            exception_table_length,
            exception_table,
            attributes_count,
            attributes,
        } => u16_bytes(max_stack) + u16_bytes(max_locals) + u32_bytes(wire_all(code).len() as u32)
            + wire_all(code) + wire_counted(exception_table) + u16_bytes(attributes.len() as u16)
            + wire_attributes(attributes),
        _ => wire_plain(k),
    }
}

/// The index of the name, the length of the payload, and the payload.
pub open spec fn wire_attribute(a: AttributeInfoModel) -> Seq<u8>
    decreases a,
{
    u16_bytes(a.attribute_name_index) + u32_bytes(wire_kind(a.info).len() as u32) + wire_kind(
        a.info,
    )
}

/// The encodings of the attributes, one behind the other.
pub open spec fn wire_attributes(s: Seq<AttributeInfoModel>) -> Seq<u8>
    decreases s,
{
    if s.len() == 0 {
        Seq::empty()
    } else {
        wire_attribute(s[0]) + wire_attributes(s.drop_first())
    }
}

/// Whether the switches of `code` have the padding that their offsets ask
/// for, where the first instruction stands at offset `pos`.
pub open spec fn code_aligned(code: Seq<OpcodeModel>, pos: int) -> bool
    decreases code.len(),
{
    code.len() == 0 || (aligned_at(code[0], pos) && code_aligned(
        code.drop_first(),
        pos + code[0].wire().len(),
    ))
}

/// Whether a table with its stored count can be written, and with `strict`,
/// whether the count is the table's length and the items are valid.
pub open spec fn table_ok<M: Parse>(count: u16, s: Seq<M>, strict: bool) -> bool {
    &&& s.len() <= 0xffff
    &&& all_encodable(s)
    &&& strict ==> count == s.len() && all_valid(s)
}

/// Whether a payload that holds no attribute itself can be written, and
/// with `strict`, whether its stored counts are the lengths of its tables
/// and its parts are valid.
#[verifier::opaque]
pub open spec fn plain_ok(k: AttributeInfoKindModel, strict: bool) -> bool {
    match k {
        AttributeInfoKindModel::StackMapTable { number_of_entries, entries } => table_ok(
            number_of_entries,
            entries,
            strict,
        ),
        AttributeInfoKindModel::Exceptions { number_of_exceptions, exception_index_table } =>
            table_ok(number_of_exceptions, exception_index_table, strict),
        AttributeInfoKindModel::InnerClasses { number_of_classes, classes } => table_ok(
            number_of_classes,
            classes,
            strict,
        ),
        AttributeInfoKindModel::LineNumberTable { line_number_table_length, line_number_table } =>
            table_ok(line_number_table_length, line_number_table, strict),
        AttributeInfoKindModel::LocalVariableTable {
            local_variable_table_length,
            local_variable_table,
        } => table_ok(local_variable_table_length, local_variable_table, strict),
        AttributeInfoKindModel::LocalVariableTypeTable {
            local_variable_type_table_length,
            local_variable_type_table,
        } => table_ok(local_variable_type_table_length, local_variable_type_table, strict),
        AttributeInfoKindModel::RuntimeVisibleAnnotations { num_annotations, annotations } =>
            table_ok(num_annotations, annotations, strict),
        AttributeInfoKindModel::RuntimeInvisibleAnnotations { num_annotations, annotations } =>
            table_ok(num_annotations, annotations, strict),
        AttributeInfoKindModel::RuntimeVisibleParameterAnnotations {
            num_parameters,
            parameter_annotations,
        } => {
            &&& parameter_annotations.len() <= 0xff
            &&& all_encodable(parameter_annotations)
            &&& strict ==> num_parameters == parameter_annotations.len() && all_valid(
                parameter_annotations,
            )
        },
        AttributeInfoKindModel::RuntimeInvisibleParameterAnnotations {
            num_parameters,
            parameter_annotations,
        } => {
            &&& parameter_annotations.len() <= 0xff
            &&& all_encodable(parameter_annotations)
            &&& strict ==> num_parameters == parameter_annotations.len() && all_valid(
                parameter_annotations,
            )
        },
        AttributeInfoKindModel::AnnotationDefault { default_value } => default_value.encodable() && (
        strict ==> default_value.valid()),
        AttributeInfoKindModel::BootstrapMethods { num_bootstrap_methods, bootstrap_methods } =>
            table_ok(num_bootstrap_methods, bootstrap_methods, strict),
        _ => true,
    }
}

/// Whether the payload can be written: every table fits its length field
/// and every part is encodable. With `strict`, also whether decoding the
/// encoding gives the payload back: every stored count is the length of its
/// table, every switch of a code has the padding that its offset asks for,
/// and every nested attribute has its name in `pool`.
pub open spec fn kind_ok(k: AttributeInfoKindModel, strict: bool, pool: Seq<CpInfoModel>) -> bool
    decreases k,
{
    match k {
        AttributeInfoKindModel::Code {
            max_stack,
            max_locals,
            code_length,
            code,
            exception_table_length,
            exception_table,
            attributes_count,
            attributes,
        } => {
            &&& wire_all(code).len() <= u32::MAX
            &&& all_encodable(code)
            &&& table_ok(exception_table_length, exception_table, strict)
            &&& attributes.len() <= 0xffff
            &&& forall|i: int|
                0 <= i < attributes.len() ==> attribute_ok(#[trigger] attributes[i], strict, pool)
            &&& strict ==> {
                &&& code_length == wire_all(code).len()
                &&& code_aligned(code, 0)
                &&& attributes_count == attributes.len()
            }
        },
        _ => plain_ok(k, strict),
    }
}

/// Whether the attribute can be written: its payload can, and is not longer
/// than four bytes can say. With `strict`, also whether decoding the
/// encoding gives the attribute back: the payload is valid, the stored
/// length is the payload's, and the name index leads in `pool` to the name
/// of the attribute's kind.
pub open spec fn attribute_ok(a: AttributeInfoModel, strict: bool, pool: Seq<CpInfoModel>) -> bool
    decreases a,
{
    &&& kind_ok(a.info, strict, pool)
    &&& wire_kind(a.info).len() <= u32::MAX
    &&& strict ==> {
        &&& a.attribute_length == wire_kind(a.info).len()
        &&& pool_utf8(pool, a.attribute_name_index as int) == Some(kind_name(a.info))
    }
}

/// Whether every attribute of the table is `attribute_ok`.
pub open spec fn attributes_ok(
    s: Seq<AttributeInfoModel>,
    strict: bool,
    pool: Seq<CpInfoModel>,
) -> bool {
    forall|i: int| 0 <= i < s.len() ==> attribute_ok(#[trigger] s[i], strict, pool)
}

impl Wire for AttributeInfoKindModel {
    open spec fn encodable(self) -> bool {
        kind_ok(self, false, Seq::empty())
    }

    open spec fn wire(self) -> Seq<u8> {
        wire_kind(self)
    }
}

impl Wire for AttributeInfoModel {
    open spec fn encodable(self) -> bool {
        attribute_ok(self, false, Seq::empty())
    }

    open spec fn wire(self) -> Seq<u8> {
        wire_attribute(self)
    }
}

/// The instructions that fill `code` from offset `pos` to its end. A step
/// that would not move forward ends the decoding.
pub open spec fn parse_code(code: Seq<u8>, pos: int) -> Parsed<Seq<OpcodeModel>>
    decreases code.len() - pos,
{
    if pos >= code.len() {
        Ok((Seq::empty(), pos))
    } else {
        match parse_instr(code, pos) {
            Ok((op, p)) => if pos < p <= code.len() {
                prepend(seq![op], parse_code(code, p))
            } else {
                Err(ErrorModel::TruncatedInput)
            },
            Err(e) => Err(e),
        }
    }
}

/// The payload of a `Code` attribute behind its instructions: the exception
/// table and the nested attributes.
pub open spec fn parse_code_tail(
    max_stack: u16,
    max_locals: u16,
    code_length: u32,
    code: Seq<OpcodeModel>,
    data: Seq<u8>,
    pos: int,
    pool: Seq<CpInfoModel>,
) -> Parsed<AttributeInfoKindModel>
    decreases data.len() - pos, 0int,
{
    match parse_counted::<ExceptionTable>(data, pos) {
        Ok(((exception_table_length, exception_table), p)) => if !(pos <= p && has_bytes(
            data,
            p,
            2,
        )) {
            Err(ErrorModel::TruncatedInput)
        } else {
            let attributes_count = u16_at(data, p);
            match parse_attributes(data, p + 2, pool, attributes_count as int) {
                Ok((attributes, q)) => Ok(
                    (
                        AttributeInfoKindModel::Code {
                            max_stack,
                            max_locals,
                            code_length,
                            code,
                            exception_table_length,
                            exception_table,
                            attributes_count,
                            attributes,
                        },
                        q,
                    ),
                ),
                Err(e) => Err(e),
            }
        },
        Err(e) => Err(e),
    }
}

/// The payload of an attribute that holds no attribute itself, named `name`
/// and with stored length `length`, that stands in `data` at `pos`.
#[verifier::opaque]
pub open spec fn parse_plain(name: AttributeName, length: u32, data: Seq<u8>, pos: int) -> Parsed<
    AttributeInfoKindModel,
> {
    if name == AttributeName::ConstantValue {
        match u16::parse(data, pos) {
            Ok((i, p)) => Ok((AttributeInfoKindModel::ConstantValue { constantvalue_index: i }, p)),
            Err(e) => Err(e),
        }
    } else if name == AttributeName::StackMapTable {
        match parse_counted::<StackMapFrameModel>(data, pos) {
            Ok(((n, s), p)) => Ok(
                (AttributeInfoKindModel::StackMapTable { number_of_entries: n, entries: s }, p),
            ),
            Err(e) => Err(e),
        }
    } else if name == AttributeName::Exceptions {
        match parse_counted::<u16>(data, pos) {
            Ok(((n, s), p)) => Ok(
                (
                    AttributeInfoKindModel::Exceptions {
                        number_of_exceptions: n,
                        exception_index_table: s,
                    },
                    p,
                ),
            ),
            Err(e) => Err(e),
        }
    } else if name == AttributeName::InnerClasses {
        match parse_counted::<InnerClass>(data, pos) {
            Ok(((n, s), p)) => Ok(
                (AttributeInfoKindModel::InnerClasses { number_of_classes: n, classes: s }, p),
            ),
            Err(e) => Err(e),
        }
    } else if name == AttributeName::EnclosingMethod {
        if !has_bytes(data, pos, 4) {
            Err(ErrorModel::TruncatedInput)
        } else {
            Ok(
                (
                    AttributeInfoKindModel::EnclosingMethod {
                        class_index: u16_at(data, pos),
                        method_index: u16_at(data, pos + 2),
                    },
                    pos + 4,
                ),
            )
        }
    } else if name == AttributeName::Synthetic {
        Ok((AttributeInfoKindModel::Synthetic, pos))
    } else if name == AttributeName::Signature {
        match u16::parse(data, pos) {
            Ok((i, p)) => Ok((AttributeInfoKindModel::Signature { signature_index: i }, p)),
            Err(e) => Err(e),
        }
    } else if name == AttributeName::SourceFile {
        match u16::parse(data, pos) {
            Ok((i, p)) => Ok((AttributeInfoKindModel::SourceFile { sourcefile_index: i }, p)),
            Err(e) => Err(e),
        }
    } else if name == AttributeName::SourceDebugExtension {
        if !has_bytes(data, pos, length as int) {
            Err(ErrorModel::TruncatedInput)
        } else {
            Ok(
                (
                    AttributeInfoKindModel::SourceDebugExtension {
                        debug_extension: data.subrange(pos, pos + length),
                    },
                    pos + length,
                ),
            )
        }
    } else if name == AttributeName::LineNumberTable {
        match parse_counted::<LineNumberTable>(data, pos) {
            Ok(((n, s), p)) => Ok(
                (
                    AttributeInfoKindModel::LineNumberTable {
                        line_number_table_length: n,
                        line_number_table: s,
                    },
                    p,
                ),
            ),
            Err(e) => Err(e),
        }
    } else if name == AttributeName::LocalVariableTable {
        match parse_counted::<LocalVariableTable>(data, pos) {
            Ok(((n, s), p)) => Ok(
                (
                    AttributeInfoKindModel::LocalVariableTable {
                        local_variable_table_length: n,
                        local_variable_table: s,
                    },
                    p,
                ),
            ),
            Err(e) => Err(e),
        }
    } else if name == AttributeName::LocalVariableTypeTable {
        match parse_counted::<LocalVariableTypeTable>(data, pos) {
            Ok(((n, s), p)) => Ok(
                (
                    AttributeInfoKindModel::LocalVariableTypeTable {
                        local_variable_type_table_length: n,
                        local_variable_type_table: s,
                    },
                    p,
                ),
            ),
            Err(e) => Err(e),
        }
    } else if name == AttributeName::Deprecated {
        Ok((AttributeInfoKindModel::Deprecated, pos))
    } else if name == AttributeName::RuntimeVisibleAnnotations {
        match parse_counted::<AnnotationModel>(data, pos) {
            Ok(((n, s), p)) => Ok(
                (
                    AttributeInfoKindModel::RuntimeVisibleAnnotations {
                        num_annotations: n,
                        annotations: s,
                    },
                    p,
                ),
            ),
            Err(e) => Err(e),
        }
    } else if name == AttributeName::RuntimeInvisibleAnnotations {
        match parse_counted::<AnnotationModel>(data, pos) {
            Ok(((n, s), p)) => Ok(
                (
                    AttributeInfoKindModel::RuntimeInvisibleAnnotations {
                        num_annotations: n,
                        annotations: s,
                    },
                    p,
                ),
            ),
            Err(e) => Err(e),
        }
    } else if name == AttributeName::RuntimeVisibleParameterAnnotations {
        if !has_bytes(data, pos, 1) {
            Err(ErrorModel::TruncatedInput)
        } else {
            match parse_n::<ParameterAnnotationModel>(data, pos + 1, data[pos] as int) {
                Ok((s, p)) => Ok(
                    (
                        AttributeInfoKindModel::RuntimeVisibleParameterAnnotations {
                            num_parameters: data[pos],
                            parameter_annotations: s,
                        },
                        p,
                    ),
                ),
                Err(e) => Err(e),
            }
        }
    } else if name == AttributeName::RuntimeInvisibleParameterAnnotations {
        if !has_bytes(data, pos, 1) {
            Err(ErrorModel::TruncatedInput)
        } else {
            match parse_n::<ParameterAnnotationModel>(data, pos + 1, data[pos] as int) {
                Ok((s, p)) => Ok(
                    (
                        AttributeInfoKindModel::RuntimeInvisibleParameterAnnotations {
                            num_parameters: data[pos],
                            parameter_annotations: s,
                        },
                        p,
                    ),
                ),
                Err(e) => Err(e),
            }
        }
    } else if name == AttributeName::AnnotationDefault {
        match ElementValueModel::parse(data, pos) {
            Ok((v, p)) => Ok((AttributeInfoKindModel::AnnotationDefault { default_value: v }, p)),
            Err(e) => Err(e),
        }
    } else {
        match parse_counted::<BootstrapMethodModel>(data, pos) {
            Ok(((n, s), p)) => Ok(
                (
                    AttributeInfoKindModel::BootstrapMethods {
                        num_bootstrap_methods: n,
                        bootstrap_methods: s,
                    },
                    p,
                ),
            ),
            Err(e) => Err(e),
        }
    }
}

/// The payload of the attribute named `name` with stored length `length`
/// that stands in `data` at `pos`.
pub open spec fn parse_kind(
    name: AttributeName,
    length: u32,
    data: Seq<u8>,
    pos: int,
    pool: Seq<CpInfoModel>,
) -> Parsed<AttributeInfoKindModel>
    decreases data.len() - pos, 1int,
{
    if name == AttributeName::Code {
        if !has_bytes(data, pos, 8) {
            Err(ErrorModel::TruncatedInput)
        } else {
            let code_length = u32_at(data, pos + 4);
            if !has_bytes(data, pos + 8, code_length as int) {
                Err(ErrorModel::TruncatedInput)
            } else {
                match parse_code(data.subrange(pos + 8, pos + 8 + code_length), 0) {
                    Ok((code, end)) => parse_code_tail(
                        u16_at(data, pos),
                        u16_at(data, pos + 2),
                        code_length,
                        code,
                        data,
                        pos + 8 + code_length,
                        pool,
                    ),
                    Err(e) => Err(e),
                }
            }
        }
    } else {
        parse_plain(name, length, data, pos)
    }
}

/// The attribute that stands in `data` at `pos`, its kind chosen by the
/// name that its name index has in `pool`.
pub open spec fn parse_attribute(data: Seq<u8>, pos: int, pool: Seq<CpInfoModel>) -> Parsed<
    AttributeInfoModel,
>
    decreases data.len() - pos, 2int,
{
    if !has_bytes(data, pos, 6) {
        Err(ErrorModel::TruncatedInput)
    } else {
        let name_index = u16_at(data, pos);
        let length = u32_at(data, pos + 2);
        match pool_utf8(pool, name_index as int) {
            None => Err(ErrorModel::IndexOutOfRange),
            Some(text) => match known_name(text) {
                None => Err(ErrorModel::UnknownAttribute(text)),
                Some(name) => match parse_kind(name, length, data, pos + 6, pool) {
                    Ok((info, p)) => Ok(
                        (
                            AttributeInfoModel {
                                attribute_name_index: name_index,
                                attribute_length: length,
                                info,
                            },
                            p,
                        ),
                    ),
                    Err(e) => Err(e),
                },
            },
        }
    }
}

/// The `n` attributes that stand in `data` from `pos` on. A step that would
/// not move forward ends the decoding.
pub open spec fn parse_attributes(data: Seq<u8>, pos: int, pool: Seq<CpInfoModel>, n: int) -> Parsed<
    Seq<AttributeInfoModel>,
>
    decreases data.len() - pos, n + 3,
{
    if n <= 0 {
        Ok((Seq::empty(), pos))
    } else {
        match parse_attribute(data, pos, pool) {
            Ok((a, p)) => if pos < p <= data.len() {
                prepend(seq![a], parse_attributes(data, p, pool, n - 1))
            } else {
                Err(ErrorModel::TruncatedInput)
            },
            Err(e) => Err(e),
        }
    }
}


/// Each name is found again from its text.
pub proof fn lemma_known_name(name: AttributeName)
    ensures
        known_name(name_text(name)) == Some(name),
{
    reveal_strlit("ConstantValue");
    reveal_strlit("Code");
    reveal_strlit("StackMapTable");
    reveal_strlit("Exceptions");
    reveal_strlit("InnerClasses");
    reveal_strlit("EnclosingMethod");
    reveal_strlit("Synthetic");
    reveal_strlit("Signature");
    reveal_strlit("SourceFile");
    reveal_strlit("SourceDebugExtension");
    reveal_strlit("LineNumberTable");
    reveal_strlit("LocalVariableTable");
    reveal_strlit("LocalVariableTypeTable");
    reveal_strlit("Deprecated");
    reveal_strlit("RuntimeVisibleAnnotations");
    reveal_strlit("RuntimeInvisibleAnnotations");
    reveal_strlit("RuntimeVisibleParameterAnnotations");
    reveal_strlit("RuntimeInvisibleParameterAnnotations");
    reveal_strlit("AnnotationDefault");
    reveal_strlit("BootstrapMethods");
    assert("ConstantValue"@.len() == 13);
    assert("Code"@.len() == 4);
    assert("StackMapTable"@.len() == 13);
    assert("Exceptions"@.len() == 10);
    assert("InnerClasses"@.len() == 12);
    assert("EnclosingMethod"@.len() == 15);
    assert("Synthetic"@.len() == 9);
    assert("Signature"@.len() == 9);
    assert("SourceFile"@.len() == 10);
    assert("SourceDebugExtension"@.len() == 20);
    assert("LineNumberTable"@.len() == 15);
    assert("LocalVariableTable"@.len() == 18);
    assert("LocalVariableTypeTable"@.len() == 22);
    assert("Deprecated"@.len() == 10);
    assert("RuntimeVisibleAnnotations"@.len() == 25);
    assert("RuntimeInvisibleAnnotations"@.len() == 27);
    assert("RuntimeVisibleParameterAnnotations"@.len() == 34);
    assert("RuntimeInvisibleParameterAnnotations"@.len() == 36);
    assert("AnnotationDefault"@.len() == 17);
    assert("BootstrapMethods"@.len() == 16);
    assert("Synthetic"@[1] != "Signature"@[1]);
    assert("SourceFile"@[0] != "Exceptions"@[0]);
    assert("SourceFile"@[0] != "Deprecated"@[0]);
    assert("Exceptions"@[0] != "Deprecated"@[0]);
    assert("StackMapTable"@[0] != "ConstantValue"@[0]);
    assert("EnclosingMethod"@[0] != "LineNumberTable"@[0]);
}

/// Decoding a method's code that holds the encodings of encodable
/// instructions, each switch padded as its offset asks, gives the
/// instructions back.
pub proof fn lemma_parse_code(code: Seq<OpcodeModel>, window: Seq<u8>, pos: int)
    requires
        all_encodable(code),
        code_aligned(code, pos),
        0 <= pos,
        pos + wire_all(code).len() == window.len(),
        carries(window, pos, wire_all(code)),
    ensures
        parse_code(window, pos) == Ok::<(Seq<OpcodeModel>, int), ErrorModel>(
            (code, window.len() as int),
        ),
    decreases code.len(),
{
    if code.len() == 0 {
        assert(code =~= Seq::<OpcodeModel>::empty());
    } else {
        let head = code[0];
        let tail = code.drop_first();
        assert forall|i: int| 0 <= i < tail.len() implies (#[trigger] tail[i]).encodable() by {
            assert(tail[i] == code[i + 1]);
        }
        lemma_carries_split(window, pos, head.wire(), wire_all(tail));
        lemma_wire_nonempty(head);
        lemma_parse_instr(head, window, pos);
        lemma_parse_code(tail, window, pos + head.wire().len());
        assert(seq![head] + tail =~= code);
    }
}

/// Decoding where the encoding of a valid payload that holds no attribute
/// stands, under the name of its kind and with its length, gives the payload
/// back; where the buffer ends before the encoding does, decoding fails for
/// want of input.
#[verifier::rlimit(60)]
#[verifier::spinoff_prover]
pub proof fn lemma_parse_plain(k: AttributeInfoKindModel, length: u32, data: Seq<u8>, pos: int)
    requires
        !(k is Code),
        plain_ok(k, false),
        plain_ok(k, true),
        length == wire_plain(k).len(),
        0 <= pos <= data.len(),
        carries(data, pos, wire_plain(k)),
    ensures
        parse_plain(kind_tag(k), length, data, pos) == expected(k, data, pos, wire_plain(k)),
{
    reveal(wire_plain);
    reveal(plain_ok);
    reveal(parse_plain);
    match k {
        AttributeInfoKindModel::ConstantValue { constantvalue_index } => {
            constantvalue_index.lemma_parse(data, pos);
        },
        AttributeInfoKindModel::Code { .. } => {},
        AttributeInfoKindModel::StackMapTable { number_of_entries, entries } => {
            lemma_parse_counted::<StackMapFrameModel>(entries, data, pos);
        },
        AttributeInfoKindModel::Exceptions { number_of_exceptions, exception_index_table } => {
            lemma_parse_counted::<u16>(exception_index_table, data, pos);
        },
        AttributeInfoKindModel::InnerClasses { number_of_classes, classes } => {
            lemma_parse_counted::<InnerClass>(classes, data, pos);
        },
        AttributeInfoKindModel::EnclosingMethod { class_index, method_index } => {
            lemma_carries_split(data, pos, u16_bytes(class_index), u16_bytes(method_index));
            if has_bytes(data, pos, 4) {
                lemma_u16_at_bytes(data, pos, class_index);
                lemma_u16_at_bytes(data, pos + 2, method_index);
            }
        },
        AttributeInfoKindModel::Synthetic => {},
        AttributeInfoKindModel::Signature { signature_index } => {
            signature_index.lemma_parse(data, pos);
        },
        AttributeInfoKindModel::SourceFile { sourcefile_index } => {
            sourcefile_index.lemma_parse(data, pos);
        },
        AttributeInfoKindModel::SourceDebugExtension { debug_extension } => {
            if has_bytes(data, pos, length as int) {
                let got = data.subrange(pos, pos + length);
                assert forall|i: int| 0 <= i < got.len() implies #[trigger] got[i]
                    == debug_extension[i] by {
                    assert(data[pos + i] == debug_extension[i]);
                }
                assert(got =~= debug_extension);
            }
        },
        AttributeInfoKindModel::LineNumberTable { line_number_table_length, line_number_table } => {
            lemma_parse_counted::<LineNumberTable>(line_number_table, data, pos);
        },
        AttributeInfoKindModel::LocalVariableTable {
            local_variable_table_length,
            local_variable_table,
        } => {
            lemma_parse_counted::<LocalVariableTable>(local_variable_table, data, pos);
        },
        AttributeInfoKindModel::LocalVariableTypeTable {
            local_variable_type_table_length,
            local_variable_type_table,
        } => {
            lemma_parse_counted::<LocalVariableTypeTable>(local_variable_type_table, data, pos);
        },
        AttributeInfoKindModel::Deprecated => {},
        AttributeInfoKindModel::RuntimeVisibleAnnotations { num_annotations, annotations } => {
            lemma_parse_counted::<AnnotationModel>(annotations, data, pos);
        },
        AttributeInfoKindModel::RuntimeInvisibleAnnotations { num_annotations, annotations } => {
            lemma_parse_counted::<AnnotationModel>(annotations, data, pos);
        },
        AttributeInfoKindModel::RuntimeVisibleParameterAnnotations {
            num_parameters,
            parameter_annotations,
        } => {
            let n = seq![parameter_annotations.len() as u8];
            lemma_carries_split(data, pos, n, wire_all(parameter_annotations));
            if has_bytes(data, pos, 1) {
                assert(data[pos + 0] == n[0]);
                lemma_parse_n::<ParameterAnnotationModel>(parameter_annotations, data, pos + 1);
            }
        },
        AttributeInfoKindModel::RuntimeInvisibleParameterAnnotations {
            num_parameters,
            parameter_annotations,
        } => {
            let n = seq![parameter_annotations.len() as u8];
            lemma_carries_split(data, pos, n, wire_all(parameter_annotations));
            if has_bytes(data, pos, 1) {
                assert(data[pos + 0] == n[0]);
                lemma_parse_n::<ParameterAnnotationModel>(parameter_annotations, data, pos + 1);
            }
        },
        AttributeInfoKindModel::AnnotationDefault { default_value } => {
            default_value.lemma_parse(data, pos);
        },
        AttributeInfoKindModel::BootstrapMethods { num_bootstrap_methods, bootstrap_methods } => {
            lemma_parse_counted::<BootstrapMethodModel>(bootstrap_methods, data, pos);
        },
    }
}

/// Decoding where the encoding of a valid payload stands, under the name of
/// its kind and with its length, gives the payload back; where the buffer
/// ends before the encoding does, decoding fails for want of input.
pub proof fn lemma_parse_kind(
    k: AttributeInfoKindModel,
    length: u32,
    data: Seq<u8>,
    pos: int,
    pool: Seq<CpInfoModel>,
)
    requires
        kind_ok(k, false, Seq::empty()),
        kind_ok(k, true, pool),
        length == wire_kind(k).len(),
        0 <= pos <= data.len(),
        carries(data, pos, wire_kind(k)),
    ensures
        parse_kind(kind_tag(k), length, data, pos, pool) == expected(k, data, pos, wire_kind(k)),
    decreases k, 0int,
{
    match k {
        AttributeInfoKindModel::Code {
            max_stack,
            max_locals,
            code_length,
            code,
            exception_table_length,
            exception_table,
            attributes_count,
            attributes,
        } => {
            let w0 = u16_bytes(max_stack);
            let w1 = u16_bytes(max_locals);
            let w2 = u32_bytes(wire_all(code).len() as u32);
            let w3 = wire_all(code);
            let w4 = wire_counted(exception_table);
            let w5 = u16_bytes(attributes.len() as u16);
            let w6 = wire_attributes(attributes);
            lemma_carries_split(data, pos, w0 + w1 + w2 + w3 + w4 + w5, w6);
            lemma_carries_split(data, pos, w0 + w1 + w2 + w3 + w4, w5);
            lemma_carries_split(data, pos, w0 + w1 + w2 + w3, w4);
            lemma_carries_split(data, pos, w0 + w1 + w2, w3);
            lemma_carries_split(data, pos, w0 + w1, w2);
            lemma_carries_split(data, pos, w0, w1);
            if has_bytes(data, pos, 8) {
                lemma_u16_at_bytes(data, pos, max_stack);
                lemma_u16_at_bytes(data, pos + 2, max_locals);
                lemma_u32_at_bytes(data, pos + 4, wire_all(code).len() as u32);
                if has_bytes(data, pos + 8, code_length as int) {
                    let window = data.subrange(pos + 8, pos + 8 + code_length);
                    assert forall|i: int| 0 <= i < w3.len() implies window[0 + i] == #[trigger] w3[i] by {
                        assert(data[pos + 8 + i] == w3[i]);
                    }
                    lemma_parse_code(code, window, 0);
                    let behind_code = pos + 8 + code_length;
                    lemma_parse_counted::<ExceptionTable>(exception_table, data, behind_code);
                    let behind_table = behind_code + w4.len();
                    if has_bytes(data, behind_table, 2) {
                        lemma_u16_at_bytes(data, behind_table, attributes.len() as u16);
                        lemma_parse_attributes(attributes, data, behind_table + 2, pool);
                    }
                }
            }
        },
        _ => {
            lemma_parse_plain(k, length, data, pos);
        },
    }
}

/// Decoding where the encoding of a valid attribute stands gives the
/// attribute back; where the buffer ends before the encoding does, decoding
/// fails for want of input.
pub proof fn lemma_parse_attribute(
    a: AttributeInfoModel,
    data: Seq<u8>,
    pos: int,
    pool: Seq<CpInfoModel>,
)
    requires
        attribute_ok(a, false, Seq::empty()),
        attribute_ok(a, true, pool),
        0 <= pos <= data.len(),
        carries(data, pos, wire_attribute(a)),
    ensures
        parse_attribute(data, pos, pool) == expected(a, data, pos, wire_attribute(a)),
    decreases a, 1int,
{
    let n = u16_bytes(a.attribute_name_index);
    let l = u32_bytes(wire_kind(a.info).len() as u32);
    lemma_carries_split(data, pos, n + l, wire_kind(a.info));
    lemma_carries_split(data, pos, n, l);
    if has_bytes(data, pos, 6) {
        lemma_u16_at_bytes(data, pos, a.attribute_name_index);
        lemma_u32_at_bytes(data, pos + 2, wire_kind(a.info).len() as u32);
        lemma_known_name(kind_tag(a.info));
        lemma_parse_kind(a.info, a.attribute_length, data, pos + 6, pool);
    }
}

/// Decoding where the encodings of valid attributes stand gives the
/// attributes back; where the buffer ends before the encodings do, decoding
/// fails for want of input.
pub proof fn lemma_parse_attributes(
    s: Seq<AttributeInfoModel>,
    data: Seq<u8>,
    pos: int,
    pool: Seq<CpInfoModel>,
)
    requires
        attributes_ok(s, false, Seq::empty()),
        attributes_ok(s, true, pool),
        0 <= pos <= data.len(),
        carries(data, pos, wire_attributes(s)),
    ensures
        parse_attributes(data, pos, pool, s.len() as int) == expected(
            s,
            data,
            pos,
            wire_attributes(s),
        ),
    decreases s, 2int,
{
    if s.len() == 0 {
        assert(s =~= Seq::<AttributeInfoModel>::empty());
    } else {
        let head = s[0];
        let tail = s.drop_first();
        lemma_carries_split(data, pos, wire_attribute(head), wire_attributes(tail));
        lemma_parse_attribute(head, data, pos, pool);
        let mid = pos + wire_attribute(head).len();
        if mid <= data.len() {
            assert forall|i: int| 0 <= i < tail.len() implies attribute_ok(
                #[trigger] tail[i],
                false,
                Seq::empty(),
            ) && attribute_ok(tail[i], true, pool) by {
                assert(tail[i] == s[i + 1]);
            }
            lemma_parse_attributes(tail, data, mid, pool);
            assert(seq![head] + tail =~= s);
        }
    }
}


/// Encoding a table of attributes with one more attribute appends that
/// attribute's encoding.
pub proof fn lemma_wire_attributes_push(s: Seq<AttributeInfoModel>, a: AttributeInfoModel)
    ensures
        wire_attributes(s.push(a)) == wire_attributes(s) + wire_attribute(a),
    decreases s.len(),
{
    if s.len() == 0 {
        assert(s.push(a).drop_first() =~= Seq::<AttributeInfoModel>::empty());
        assert(wire_attributes(s.push(a).drop_first()) =~= Seq::<u8>::empty());
        assert(wire_attributes(s.push(a)) =~= wire_attribute(a));
        assert(wire_attributes(s) + wire_attribute(a) =~= wire_attribute(a));
    } else {
        lemma_wire_attributes_push(s.drop_first(), a);
        assert(s.push(a).drop_first() =~= s.drop_first().push(a));
        assert(wire_attribute(s[0]) + (wire_attributes(s.drop_first()) + wire_attribute(a)) =~= (
        wire_attribute(s[0]) + wire_attributes(s.drop_first())) + wire_attribute(a));
    }
}

/// Appends the bytes of `bytes`.
pub fn put_bytes(out: &mut Vec<u8>, bytes: &Vec<u8>)
    ensures
        final(out)@ == old(out)@ + bytes@,
{
    let mut i: usize = 0;
    while i < bytes.len()
        invariant
            i <= bytes.len(),
            out@ == old(out)@ + bytes@.take(i as int),
        decreases bytes.len() - i,
    {
        out.push(bytes[i]);
        i += 1;
    }
    proof {
        assert(bytes@.take(i as int) =~= bytes@);
    }
}

/// Appends a table of parameter annotations behind its length of one byte.
fn write_parameters(parameters: &Vec<ParameterAnnotation>, out: &mut Vec<u8>) -> (r: Result<
    (),
    Error,
>)
    ensures
        match r {
            Ok(()) => parameters@.len() <= 0xff && all_encodable(models(parameters@)) && final(out)@
                == old(out)@ + (seq![parameters@.len() as u8] + wire_all(models(parameters@))),
            Err(e) => !(parameters@.len() <= 0xff && all_encodable(models(parameters@))) && e
                == Error::IndexOutOfRange,
        },
{
    if parameters.len() > 0xff {
        return Err(Error::IndexOutOfRange);
    }
    out.push(parameters.len() as u8);
    encode_all(parameters, out)?;
    proof {
        assert(out@ =~= old(out)@ + (seq![parameters@.len() as u8] + wire_all(
            models(parameters@),
        )));
    }
    Ok(())
}

/// Appends the payload of an attribute that holds no attribute itself.
fn write_plain(k: &AttributeInfoKind, out: &mut Vec<u8>) -> (r: Result<(), Error>)
    requires
        !(k is Code),
    ensures
        match r {
            Ok(()) => plain_ok(k@, false) && final(out)@ == old(out)@ + wire_plain(k@),
            Err(e) => !plain_ok(k@, false) && e == Error::IndexOutOfRange,
        },
{
    proof {
        reveal(wire_plain);
        reveal(plain_ok);
    }
    match k {
        AttributeInfoKind::ConstantValue { constantvalue_index } => {
            put_u16(out, *constantvalue_index);
        },
        AttributeInfoKind::Code { .. } => {},
        AttributeInfoKind::StackMapTable { number_of_entries, entries } => {
            encode_counted(entries, out)?;
        },
        AttributeInfoKind::Exceptions { number_of_exceptions, exception_index_table } => {
            encode_counted(exception_index_table, out)?;
        },
        AttributeInfoKind::InnerClasses { number_of_classes, classes } => {
            encode_counted(classes, out)?;
        },
        AttributeInfoKind::EnclosingMethod { class_index, method_index } => {
            put_u16(out, *class_index);
            put_u16(out, *method_index);
        },
        AttributeInfoKind::Synthetic => {},
        AttributeInfoKind::Signature { signature_index } => {
            put_u16(out, *signature_index);
        },
        AttributeInfoKind::SourceFile { sourcefile_index } => {
            put_u16(out, *sourcefile_index);
        },
        AttributeInfoKind::SourceDebugExtension { debug_extension } => {
            put_bytes(out, debug_extension);
        },
        AttributeInfoKind::LineNumberTable { line_number_table_length, line_number_table } => {
            encode_counted(line_number_table, out)?;
        },
        AttributeInfoKind::LocalVariableTable {
            local_variable_table_length,
            local_variable_table,
        } => {
            encode_counted(local_variable_table, out)?;
        },
        AttributeInfoKind::LocalVariableTypeTable {
            local_variable_type_table_length,
            local_variable_type_table,
        } => {
            encode_counted(local_variable_type_table, out)?;
        },
        AttributeInfoKind::Deprecated => {},
        AttributeInfoKind::RuntimeVisibleAnnotations { num_annotations, annotations } => {
            encode_counted(annotations, out)?;
        },
        AttributeInfoKind::RuntimeInvisibleAnnotations { num_annotations, annotations } => {
            encode_counted(annotations, out)?;
        },
        AttributeInfoKind::RuntimeVisibleParameterAnnotations {
            num_parameters,
            parameter_annotations,
        } => {
            write_parameters(parameter_annotations, out)?;
        },
        AttributeInfoKind::RuntimeInvisibleParameterAnnotations {
            num_parameters,
            parameter_annotations,
        } => {
            write_parameters(parameter_annotations, out)?;
        },
        AttributeInfoKind::AnnotationDefault { default_value } => {
            let mut bytes = default_value.to_jvm_bytecode()?;
            out.append(&mut bytes);
        },
        AttributeInfoKind::BootstrapMethods { num_bootstrap_methods, bootstrap_methods } => {
            encode_counted(bootstrap_methods, out)?;
        },
    }
    proof {
        assert(out@ =~= old(out)@ + wire_plain(k@));
    }
    Ok(())
}

/// The payload of an attribute.
#[verifier::loop_isolation(false)]
fn write_kind(k: &AttributeInfoKind) -> (r: Result<Vec<u8>, Error>)
    ensures
        encoded(k@, r),
    decreases k,
{
    let mut bytes: Vec<u8> = Vec::new();
    match k {
        AttributeInfoKind::Code {
            max_stack,
            max_locals,
            code_length,
            code,
            exception_table_length,
            exception_table,
            attributes_count,
            attributes,
        } => {
            let mut code_bytes: Vec<u8> = Vec::new();
            encode_all(code, &mut code_bytes)?;
            if code_bytes.len() as u64 > 0xffff_ffff {
                return Err(Error::IndexOutOfRange);
            }
            put_u16(&mut bytes, *max_stack);
            put_u16(&mut bytes, *max_locals);
            put_u32(&mut bytes, code_bytes.len() as u32);
            put_bytes(&mut bytes, &code_bytes);
            encode_counted(exception_table, &mut bytes)?;
            if attributes.len() > 0xffff {
                return Err(Error::IndexOutOfRange);
            }
            put_u16(&mut bytes, attributes.len() as u16);
            write_attributes(attributes, &mut bytes)?;
        },
        _ => {
            write_plain(k, &mut bytes)?;
        },
    }
    proof {
        assert(bytes@ =~= wire_kind(k@));
    }
    Ok(bytes)
}

/// Appends the encoding of an attribute.
fn write_attribute(a: &AttributeInfo, out: &mut Vec<u8>) -> (r: Result<(), Error>)
    ensures
        appended(a@, old(out)@, final(out)@, r),
    decreases a,
{
    let payload = write_kind(&a.info)?;
    if payload.len() as u64 > 0xffff_ffff {
        return Err(Error::IndexOutOfRange);
    }
    put_u16(out, a.attribute_name_index);
    put_u32(out, payload.len() as u32);
    put_bytes(out, &payload);
    proof {
        assert(out@ =~= old(out)@ + wire_attribute(a@));
    }
    Ok(())
}

/// Appends the encodings of the attributes, one behind the other. On
/// failure `out` holds what was written until then.
#[verifier::loop_isolation(false)]
pub fn write_attributes(attributes: &Vec<AttributeInfo>, out: &mut Vec<u8>) -> (r: Result<
    (),
    Error,
>)
    ensures
        match r {
            Ok(()) => attributes_ok(attribute_models(attributes@), false, Seq::empty())
                && final(out)@ == old(out)@ + wire_attributes(attribute_models(attributes@)),
            Err(e) => !attributes_ok(attribute_models(attributes@), false, Seq::empty()) && e
                == Error::IndexOutOfRange,
        },
    decreases attributes,
{
    let ghost ms = attribute_models(attributes@);
    let mut i: usize = 0;
    proof {
        assert(ms.take(0) =~= Seq::<AttributeInfoModel>::empty());
        assert(old(out)@ + wire_attributes(ms.take(0)) =~= old(out)@);
    }
    while i < attributes.len()
        invariant
            i <= attributes.len(),
            forall|j: int| 0 <= j < i ==> attribute_ok(#[trigger] ms[j], false, Seq::empty()),
            out@ == old(out)@ + wire_attributes(ms.take(i as int)),
        decreases attributes.len() - i,
    {
        let ghost before = out@;
        assert(ms[i as int] == attributes@[i as int]@);
        write_attribute(&attributes[i], out)?;
        proof {
            lemma_wire_attributes_push(ms.take(i as int), ms[i as int]);
            assert(ms.take(i + 1) =~= ms.take(i as int).push(ms[i as int]));
            assert(old(out)@ + (wire_attributes(ms.take(i as int)) + wire_attribute(ms[i as int]))
                =~= before + wire_attribute(ms[i as int]));
        }
        i += 1;
    }
    proof {
        assert(ms.take(i as int) =~= ms);
    }
    Ok(())
}

impl ToJvmBytecode for AttributeInfoKind {
    /// The payload of the attribute, every length taken from the table it
    /// counts. Fails where a table or the code is longer than its length
    /// field can say, or a part cannot be written.
    fn to_jvm_bytecode(&self) -> (r: Result<Vec<u8>, Error>) {
        write_kind(self)
    }
}

impl ToJvmBytecode for AttributeInfo {
    /// The index of the name, the length of the payload as it is written,
    /// and the payload.
    fn to_jvm_bytecode(&self) -> (r: Result<Vec<u8>, Error>) {
        let mut bytes: Vec<u8> = Vec::new();
        write_attribute(self, &mut bytes)?;
        proof {
            assert(bytes@ =~= self@.wire());
        }
        Ok(bytes)
    }
}


/// A copy of a payload with the same model.
#[verifier::loop_isolation(false)]
fn copy_kind(k: &AttributeInfoKind) -> (copy: AttributeInfoKind)
    ensures
        copy@ == k@,
    decreases k,
{
    match k {
        AttributeInfoKind::ConstantValue {
            constantvalue_index,
        } => AttributeInfoKind::ConstantValue { constantvalue_index: *constantvalue_index },
        AttributeInfoKind::Code {
            max_stack,
            max_locals,
            code_length,
            code,
            exception_table_length,
            exception_table,
            attributes_count,
            attributes,
        } => {
            let mut copies: Vec<AttributeInfo> = Vec::new();
            let mut i: usize = 0;
            while i < attributes.len()
                invariant
                    i <= attributes.len(),
                    copies@.len() == i,
                    forall|j: int| 0 <= j < i ==> (#[trigger] copies@[j])@ == attributes@[j]@,
                decreases attributes.len() - i,
            {
                copies.push(copy_attribute(&attributes[i]));
                i += 1;
            }
            proof {
                assert(attribute_models(copies@) =~= attribute_models(attributes@));
            }
            AttributeInfoKind::Code {
                max_stack: *max_stack,
                max_locals: *max_locals,
                code_length: *code_length,
                code: clone_all(code),
                exception_table_length: *exception_table_length,
                exception_table: clone_all(exception_table),
                attributes_count: *attributes_count,
                attributes: copies,
            }
        },
        AttributeInfoKind::StackMapTable {
            number_of_entries,
            entries,
        } => AttributeInfoKind::StackMapTable {
            number_of_entries: *number_of_entries,
            entries: clone_all(entries),
        },
        AttributeInfoKind::Exceptions {
            number_of_exceptions,
            exception_index_table,
        } => AttributeInfoKind::Exceptions {
            number_of_exceptions: *number_of_exceptions,
            exception_index_table: clone_all(exception_index_table),
        },
        AttributeInfoKind::InnerClasses {
            number_of_classes,
            classes,
        } => AttributeInfoKind::InnerClasses {
            number_of_classes: *number_of_classes,
            classes: clone_all(classes),
        },
        AttributeInfoKind::LineNumberTable {
            line_number_table_length,
            line_number_table,
        } => AttributeInfoKind::LineNumberTable {
            line_number_table_length: *line_number_table_length,
            line_number_table: clone_all(line_number_table),
        },
        AttributeInfoKind::LocalVariableTable {
            local_variable_table_length,
            local_variable_table,
        } => AttributeInfoKind::LocalVariableTable {
            local_variable_table_length: *local_variable_table_length,
            local_variable_table: clone_all(local_variable_table),
        },
        AttributeInfoKind::LocalVariableTypeTable {
            local_variable_type_table_length,
            local_variable_type_table,
        } => AttributeInfoKind::LocalVariableTypeTable {
            local_variable_type_table_length: *local_variable_type_table_length,
            local_variable_type_table: clone_all(local_variable_type_table),
        },
        AttributeInfoKind::RuntimeVisibleAnnotations {
            num_annotations,
            annotations,
        } => AttributeInfoKind::RuntimeVisibleAnnotations {
            num_annotations: *num_annotations,
            annotations: clone_all(annotations),
        },
        AttributeInfoKind::RuntimeInvisibleAnnotations {
            num_annotations,
            annotations,
        } => AttributeInfoKind::RuntimeInvisibleAnnotations {
            num_annotations: *num_annotations,
            annotations: clone_all(annotations),
        },
        AttributeInfoKind::RuntimeVisibleParameterAnnotations {
            num_parameters,
            parameter_annotations,
        } => AttributeInfoKind::RuntimeVisibleParameterAnnotations {
            num_parameters: *num_parameters,
            parameter_annotations: clone_all(parameter_annotations),
        },
        AttributeInfoKind::RuntimeInvisibleParameterAnnotations {
            num_parameters,
            parameter_annotations,
        } => AttributeInfoKind::RuntimeInvisibleParameterAnnotations {
            num_parameters: *num_parameters,
            parameter_annotations: clone_all(parameter_annotations),
        },
        AttributeInfoKind::BootstrapMethods {
            num_bootstrap_methods,
            bootstrap_methods,
        } => AttributeInfoKind::BootstrapMethods {
            num_bootstrap_methods: *num_bootstrap_methods,
            bootstrap_methods: clone_all(bootstrap_methods),
        },
        AttributeInfoKind::EnclosingMethod {
            class_index,
            method_index,
        } => AttributeInfoKind::EnclosingMethod {
            class_index: *class_index,
            method_index: *method_index,
        },
        AttributeInfoKind::Synthetic => AttributeInfoKind::Synthetic,
        AttributeInfoKind::Signature { signature_index } => AttributeInfoKind::Signature {
            signature_index: *signature_index,
        },
        AttributeInfoKind::SourceFile { sourcefile_index } => AttributeInfoKind::SourceFile {
            sourcefile_index: *sourcefile_index,
        },
        AttributeInfoKind::SourceDebugExtension {
            debug_extension,
        } => AttributeInfoKind::SourceDebugExtension { debug_extension: debug_extension.clone() },
        AttributeInfoKind::Deprecated => AttributeInfoKind::Deprecated,
        AttributeInfoKind::AnnotationDefault {
            default_value,
        } => AttributeInfoKind::AnnotationDefault { default_value: default_value.clone() },
    }
}

/// A copy of an attribute with the same model.
fn copy_attribute(a: &AttributeInfo) -> (copy: AttributeInfo)
    ensures
        copy@ == a@,
    decreases a,
{
    AttributeInfo {
        attribute_name_index: a.attribute_name_index,
        attribute_length: a.attribute_length,
        info: copy_kind(&a.info),
    }
}

/// A copy of a table of attributes with the same models.
pub fn copy_attributes(attributes: &Vec<AttributeInfo>) -> (copy: Vec<AttributeInfo>)
    ensures
        attribute_models(copy@) == attribute_models(attributes@),
{
    let copy = clone_all(attributes);
    proof {
        assert(attribute_models(copy@) =~= models(copy@));
        assert(attribute_models(attributes@) =~= models(attributes@));
    }
    copy
}

impl Clone for AttributeInfoKind {
    /// A payload with the same model.
    fn clone(&self) -> (copy: AttributeInfoKind)
        ensures
            copy@ == self@,
    {
        copy_kind(self)
    }
}

impl Clone for AttributeInfo {
    /// An attribute with the same model.
    fn clone(&self) -> (copy: AttributeInfo)
        ensures
            copy@ == self@,
    {
        copy_attribute(self)
    }
}

} // verus!
