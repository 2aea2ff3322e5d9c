//! The records of fixed size that fill the tables of attributes, and the
//! bootstrap method with its table of arguments.

use vstd::prelude::*;
use crate::error::{Error, ErrorModel};
use crate::flags::Flags;
use crate::reader::{has_bytes, lemma_carries_split, lemma_u16_at_bytes, u16_at, u16_bytes, Reader};
use crate::wire::{
    decode_n, encode_all, lemma_parse_n, models, parse_n, put_u16, wire_all, Decode, Parse, Parsed,
    Wire,
};
use super::ToJvmBytecode;

verus! {

/// One entry of a method's exception table: the range of code it covers, the
/// handler, and the class it catches (0 for any).
#[derive(Debug, Clone, Copy, PartialEq)]
pub struct ExceptionTable {
    pub start_pc: u16,
    pub end_pc: u16,
    pub handler_pc: u16,
    pub catch_type: u16,
}

impl View for ExceptionTable {
    type V = ExceptionTable;

    open spec fn view(&self) -> ExceptionTable {
        *self
    }
}

impl Wire for ExceptionTable {
    open spec fn encodable(self) -> bool {
        true
    }

    open spec fn wire(self) -> Seq<u8> {
        u16_bytes(self.start_pc)
            + u16_bytes(self.end_pc)
            + u16_bytes(self.handler_pc)
            + u16_bytes(self.catch_type)
    }
}

impl Parse for ExceptionTable {
    open spec fn parse(data: Seq<u8>, pos: int) -> Parsed<ExceptionTable> {
        if has_bytes(data, pos, 8) {
            Ok(
                (
                    ExceptionTable {
                        start_pc: u16_at(data, pos),
                        end_pc: u16_at(data, pos + 2),
                        handler_pc: u16_at(data, pos + 4),
                        catch_type: u16_at(data, pos + 6),
                    },
                    pos + 8,
                ),
            )
        } else {
            Err(ErrorModel::TruncatedInput)
        }
    }

    open spec fn valid(self) -> bool {
        true
    }

    proof fn lemma_parse(self, data: Seq<u8>, pos: int) {
        let w0 = u16_bytes(self.start_pc);
        let w1 = u16_bytes(self.end_pc);
        let w2 = u16_bytes(self.handler_pc);
        let w3 = u16_bytes(self.catch_type);
        lemma_carries_split(data, pos, w0 + w1 + w2, w3);
        lemma_carries_split(data, pos, w0 + w1, w2);
        lemma_carries_split(data, pos, w0, w1);
        if has_bytes(data, pos, 8) {
            lemma_u16_at_bytes(data, pos, self.start_pc);
            lemma_u16_at_bytes(data, pos + 2, self.end_pc);
            lemma_u16_at_bytes(data, pos + 4, self.handler_pc);
            lemma_u16_at_bytes(data, pos + 6, self.catch_type);
        }
    }
}

impl ToJvmBytecode for ExceptionTable {
    fn to_jvm_bytecode(&self) -> (r: Result<Vec<u8>, Error>) {
        let mut bytes: Vec<u8> = Vec::new();
        put_u16(&mut bytes, self.start_pc);
        put_u16(&mut bytes, self.end_pc);
        put_u16(&mut bytes, self.handler_pc);
        put_u16(&mut bytes, self.catch_type);
        proof {
            assert(bytes@ =~= self@.wire());
        }
        Ok(bytes)
    }
}

impl Decode for ExceptionTable {
    fn decode(reader: &mut Reader) -> (r: Result<ExceptionTable, Error>) {
        let start_pc = reader.read_int2()?;
        let end_pc = reader.read_int2()?;
        let handler_pc = reader.read_int2()?;
        let catch_type = reader.read_int2()?;
        Ok(ExceptionTable { start_pc, end_pc, handler_pc, catch_type })
    }
}

/// The line of the source that the code from `start_pc` on belongs to.
#[derive(Debug, Clone, Copy, PartialEq)]
pub struct LineNumberTable {
    pub start_pc: u16,
    pub line_number: u16,
}

impl View for LineNumberTable {
    type V = LineNumberTable;

    open spec fn view(&self) -> LineNumberTable {
        *self
    }
}

impl Wire for LineNumberTable {
    open spec fn encodable(self) -> bool {
        true
    }

    open spec fn wire(self) -> Seq<u8> {
        u16_bytes(self.start_pc)
            + u16_bytes(self.line_number)
    }
}

impl Parse for LineNumberTable {
    open spec fn parse(data: Seq<u8>, pos: int) -> Parsed<LineNumberTable> {
        if has_bytes(data, pos, 4) {
            Ok(
                (
                    LineNumberTable {
                        start_pc: u16_at(data, pos),
                        line_number: u16_at(data, pos + 2),
                    },
                    pos + 4,
                ),
            )
        } else {
            Err(ErrorModel::TruncatedInput)
        }
    }

    open spec fn valid(self) -> bool {
        true
    }

    proof fn lemma_parse(self, data: Seq<u8>, pos: int) {
        let w0 = u16_bytes(self.start_pc);
        let w1 = u16_bytes(self.line_number);
        lemma_carries_split(data, pos, w0, w1);
        if has_bytes(data, pos, 4) {
            lemma_u16_at_bytes(data, pos, self.start_pc);
            lemma_u16_at_bytes(data, pos + 2, self.line_number);
        }
    }
}

impl ToJvmBytecode for LineNumberTable {
    fn to_jvm_bytecode(&self) -> (r: Result<Vec<u8>, Error>) {
        let mut bytes: Vec<u8> = Vec::new();
        put_u16(&mut bytes, self.start_pc);
        put_u16(&mut bytes, self.line_number);
        proof {
            assert(bytes@ =~= self@.wire());
        }
        Ok(bytes)
    }
}

impl Decode for LineNumberTable {
    fn decode(reader: &mut Reader) -> (r: Result<LineNumberTable, Error>) {
        let start_pc = reader.read_int2()?;
        let line_number = reader.read_int2()?;
        Ok(LineNumberTable { start_pc, line_number })
    }
}

/// A local variable: the range of code in which it lives, its name, its
/// descriptor and its slot.
#[derive(Debug, Clone, Copy, PartialEq)]
pub struct LocalVariableTable {
    pub start_pc: u16,
    pub length: u16,
    pub name_index: u16,
    pub descriptor_index: u16,
    pub index: u16,
}

impl View for LocalVariableTable {
    type V = LocalVariableTable;

    open spec fn view(&self) -> LocalVariableTable {
        *self
    }
}

impl Wire for LocalVariableTable {
    open spec fn encodable(self) -> bool {
        true
    }

    open spec fn wire(self) -> Seq<u8> {
        u16_bytes(self.start_pc)
            + u16_bytes(self.length)
            + u16_bytes(self.name_index)
            + u16_bytes(self.descriptor_index)
            + u16_bytes(self.index)
    }
}

impl Parse for LocalVariableTable {
    open spec fn parse(data: Seq<u8>, pos: int) -> Parsed<LocalVariableTable> {
        if has_bytes(data, pos, 10) {
            Ok(
                (
                    LocalVariableTable {
                        start_pc: u16_at(data, pos),
                        length: u16_at(data, pos + 2),
                        name_index: u16_at(data, pos + 4),
                        descriptor_index: u16_at(data, pos + 6),
                        index: u16_at(data, pos + 8),
                    },
                    pos + 10,
                ),
            )
        } else {
            Err(ErrorModel::TruncatedInput)
        }
    }

    open spec fn valid(self) -> bool {
        true
    }

    proof fn lemma_parse(self, data: Seq<u8>, pos: int) {
        let w0 = u16_bytes(self.start_pc);
        let w1 = u16_bytes(self.length);
        let w2 = u16_bytes(self.name_index);
        let w3 = u16_bytes(self.descriptor_index);
        let w4 = u16_bytes(self.index);
        lemma_carries_split(data, pos, w0 + w1 + w2 + w3, w4);
        lemma_carries_split(data, pos, w0 + w1 + w2, w3);
        lemma_carries_split(data, pos, w0 + w1, w2);
        lemma_carries_split(data, pos, w0, w1);
        if has_bytes(data, pos, 10) {
            lemma_u16_at_bytes(data, pos, self.start_pc);
            lemma_u16_at_bytes(data, pos + 2, self.length);
            lemma_u16_at_bytes(data, pos + 4, self.name_index);
            lemma_u16_at_bytes(data, pos + 6, self.descriptor_index);
            lemma_u16_at_bytes(data, pos + 8, self.index);
        }
    }
}

impl ToJvmBytecode for LocalVariableTable {
    fn to_jvm_bytecode(&self) -> (r: Result<Vec<u8>, Error>) {
        let mut bytes: Vec<u8> = Vec::new();
        put_u16(&mut bytes, self.start_pc);
        put_u16(&mut bytes, self.length);
        put_u16(&mut bytes, self.name_index);
        put_u16(&mut bytes, self.descriptor_index);
        put_u16(&mut bytes, self.index);
        proof {
            assert(bytes@ =~= self@.wire());
        }
        Ok(bytes)
    }
}

impl Decode for LocalVariableTable {
    fn decode(reader: &mut Reader) -> (r: Result<LocalVariableTable, Error>) {
        let start_pc = reader.read_int2()?;
        let length = reader.read_int2()?;
        let name_index = reader.read_int2()?;
        let descriptor_index = reader.read_int2()?;
        let index = reader.read_int2()?;
        Ok(LocalVariableTable { start_pc, length, name_index, descriptor_index, index })
    }
}

/// A local variable with a generic type: the range of code in which it lives,
/// its name, its signature and its slot.
#[derive(Debug, Clone, Copy, PartialEq)]
pub struct LocalVariableTypeTable {
    pub start_pc: u16,
    pub length: u16,
    pub name_index: u16,
    pub signature_index: u16,
    pub index: u16,
}

impl View for LocalVariableTypeTable {
    type V = LocalVariableTypeTable;

    open spec fn view(&self) -> LocalVariableTypeTable {
        *self
    }
}

impl Wire for LocalVariableTypeTable {
    open spec fn encodable(self) -> bool {
        true
    }

    open spec fn wire(self) -> Seq<u8> {
        u16_bytes(self.start_pc)
            + u16_bytes(self.length)
            + u16_bytes(self.name_index)
            + u16_bytes(self.signature_index)
            + u16_bytes(self.index)
    }
}

impl Parse for LocalVariableTypeTable {
    open spec fn parse(data: Seq<u8>, pos: int) -> Parsed<LocalVariableTypeTable> {
        if has_bytes(data, pos, 10) {
            Ok(
                (
                    LocalVariableTypeTable {
                        start_pc: u16_at(data, pos),
                        length: u16_at(data, pos + 2),
                        name_index: u16_at(data, pos + 4),
                        signature_index: u16_at(data, pos + 6),
                        index: u16_at(data, pos + 8),
                    },
                    pos + 10,
                ),
            )
        } else {
            Err(ErrorModel::TruncatedInput)
        }
    }

    open spec fn valid(self) -> bool {
        true
    }

    proof fn lemma_parse(self, data: Seq<u8>, pos: int) {
        let w0 = u16_bytes(self.start_pc);
        let w1 = u16_bytes(self.length);
        let w2 = u16_bytes(self.name_index);
        let w3 = u16_bytes(self.signature_index);
        let w4 = u16_bytes(self.index);
        lemma_carries_split(data, pos, w0 + w1 + w2 + w3, w4);
        lemma_carries_split(data, pos, w0 + w1 + w2, w3);
        lemma_carries_split(data, pos, w0 + w1, w2);
        lemma_carries_split(data, pos, w0, w1);
        if has_bytes(data, pos, 10) {
            lemma_u16_at_bytes(data, pos, self.start_pc);
            lemma_u16_at_bytes(data, pos + 2, self.length);
            lemma_u16_at_bytes(data, pos + 4, self.name_index);
            lemma_u16_at_bytes(data, pos + 6, self.signature_index);
            lemma_u16_at_bytes(data, pos + 8, self.index);
        }
    }
}

impl ToJvmBytecode for LocalVariableTypeTable {
    fn to_jvm_bytecode(&self) -> (r: Result<Vec<u8>, Error>) {
        let mut bytes: Vec<u8> = Vec::new();
        put_u16(&mut bytes, self.start_pc);
        put_u16(&mut bytes, self.length);
        put_u16(&mut bytes, self.name_index);
        put_u16(&mut bytes, self.signature_index);
        put_u16(&mut bytes, self.index);
        proof {
            assert(bytes@ =~= self@.wire());
        }
        Ok(bytes)
    }
}

impl Decode for LocalVariableTypeTable {
    fn decode(reader: &mut Reader) -> (r: Result<LocalVariableTypeTable, Error>) {
        let start_pc = reader.read_int2()?;
        let length = reader.read_int2()?;
        let name_index = reader.read_int2()?;
        let signature_index = reader.read_int2()?;
        let index = reader.read_int2()?;
        Ok(LocalVariableTypeTable { start_pc, length, name_index, signature_index, index })
    }
}

/// A class declared inside another: the two classes, the simple name and the
/// access flags.
#[derive(Debug, Clone, Copy, PartialEq)]
pub struct InnerClass {
    pub inner_class_info_index: u16,
    pub outer_class_info_index: u16,
    pub inner_name_index: u16,
    pub inner_class_access_flags: Flags<u16>,
}

impl View for InnerClass {
    type V = InnerClass;

    open spec fn view(&self) -> InnerClass {
        *self
    }
}

impl Wire for InnerClass {
    open spec fn encodable(self) -> bool {
        true
    }

    open spec fn wire(self) -> Seq<u8> {
        u16_bytes(self.inner_class_info_index)
            + u16_bytes(self.outer_class_info_index)
            + u16_bytes(self.inner_name_index)
            + u16_bytes(self.inner_class_access_flags.flags)
    }
}

impl Parse for InnerClass {
    open spec fn parse(data: Seq<u8>, pos: int) -> Parsed<InnerClass> {
        if has_bytes(data, pos, 8) {
            Ok(
                (
                    InnerClass {
                        inner_class_info_index: u16_at(data, pos),
                        outer_class_info_index: u16_at(data, pos + 2),
                        inner_name_index: u16_at(data, pos + 4),
                        inner_class_access_flags: Flags { flags: u16_at(data, pos + 6) },
                    },
                    pos + 8,
                ),
            )
        } else {
            Err(ErrorModel::TruncatedInput)
        }
    }

    open spec fn valid(self) -> bool {
        true
    }

    proof fn lemma_parse(self, data: Seq<u8>, pos: int) {
        let w0 = u16_bytes(self.inner_class_info_index);
        let w1 = u16_bytes(self.outer_class_info_index);
        let w2 = u16_bytes(self.inner_name_index);
        let w3 = u16_bytes(self.inner_class_access_flags.flags);
        lemma_carries_split(data, pos, w0 + w1 + w2, w3);
        lemma_carries_split(data, pos, w0 + w1, w2);
        lemma_carries_split(data, pos, w0, w1);
        if has_bytes(data, pos, 8) {
            lemma_u16_at_bytes(data, pos, self.inner_class_info_index);
            lemma_u16_at_bytes(data, pos + 2, self.outer_class_info_index);
            lemma_u16_at_bytes(data, pos + 4, self.inner_name_index);
            lemma_u16_at_bytes(data, pos + 6, self.inner_class_access_flags.flags);
        }
    }
}

impl ToJvmBytecode for InnerClass {
    fn to_jvm_bytecode(&self) -> (r: Result<Vec<u8>, Error>) {
        let mut bytes: Vec<u8> = Vec::new();
        put_u16(&mut bytes, self.inner_class_info_index);
        put_u16(&mut bytes, self.outer_class_info_index);
        put_u16(&mut bytes, self.inner_name_index);
        put_u16(&mut bytes, self.inner_class_access_flags.flags);
        proof {
            assert(bytes@ =~= self@.wire());
        }
        Ok(bytes)
    }
}

impl Decode for InnerClass {
    fn decode(reader: &mut Reader) -> (r: Result<InnerClass, Error>) {
        let inner_class_info_index = reader.read_int2()?;
        let outer_class_info_index = reader.read_int2()?;
        let inner_name_index = reader.read_int2()?;
        let inner_class_access_flags = Flags::new(reader.read_int2()?);
        Ok(InnerClass { inner_class_info_index, outer_class_info_index, inner_name_index, inner_class_access_flags })
    }
}

/// A bootstrap method: the method handle and the constants it is given.
#[derive(Debug, PartialEq)]
pub struct BootstrapMethod {
    pub bootstrap_method_ref: u16,
    pub num_bootstrap_arguments: u16,
    pub bootstrap_arguments: Vec<u16>,
}

/// The model of a [`BootstrapMethod`]: its arguments as a sequence.
pub struct BootstrapMethodModel {
    pub bootstrap_method_ref: u16,
    pub num_bootstrap_arguments: u16,
    pub bootstrap_arguments: Seq<u16>,
}

impl View for BootstrapMethod {
    type V = BootstrapMethodModel;

    open spec fn view(&self) -> BootstrapMethodModel {
        BootstrapMethodModel {
            bootstrap_method_ref: self.bootstrap_method_ref,
            num_bootstrap_arguments: self.num_bootstrap_arguments,
            bootstrap_arguments: self.bootstrap_arguments@,
        }
    }
}

impl Clone for BootstrapMethod {
    /// A bootstrap method with the same model.
    fn clone(&self) -> (copy: BootstrapMethod)
        ensures
            copy@ == self@,
    {
        BootstrapMethod {
            bootstrap_method_ref: self.bootstrap_method_ref,
            num_bootstrap_arguments: self.num_bootstrap_arguments,
            bootstrap_arguments: self.bootstrap_arguments.clone(),
        }
    }
}

impl Wire for BootstrapMethodModel {
    open spec fn encodable(self) -> bool {
        self.bootstrap_arguments.len() <= 0xffff
    }

    open spec fn wire(self) -> Seq<u8> {
        u16_bytes(self.bootstrap_method_ref) + u16_bytes(self.bootstrap_arguments.len() as u16)
            + wire_all(self.bootstrap_arguments)
    }
}

impl Parse for BootstrapMethodModel {
    open spec fn parse(data: Seq<u8>, pos: int) -> Parsed<BootstrapMethodModel> {
        if !has_bytes(data, pos, 4) {
            Err(ErrorModel::TruncatedInput)
        } else {
            let n = u16_at(data, pos + 2);
            match parse_n::<u16>(data, pos + 4, n as int) {
                Ok((arguments, p)) => Ok(
                    (
                        BootstrapMethodModel {
                            bootstrap_method_ref: u16_at(data, pos),
                            num_bootstrap_arguments: n,
                            bootstrap_arguments: arguments,
                        },
                        p,
                    ),
                ),
                Err(e) => Err(e),
            }
        }
    }

    open spec fn valid(self) -> bool {
        self.num_bootstrap_arguments == self.bootstrap_arguments.len()
    }

    proof fn lemma_parse(self, data: Seq<u8>, pos: int) {
        let m = u16_bytes(self.bootstrap_method_ref);
        let n = u16_bytes(self.bootstrap_arguments.len() as u16);
        lemma_carries_split(data, pos, m + n, wire_all(self.bootstrap_arguments));
        lemma_carries_split(data, pos, m, n);
        if has_bytes(data, pos, 4) {
            lemma_u16_at_bytes(data, pos, self.bootstrap_method_ref);
            lemma_u16_at_bytes(data, pos + 2, self.bootstrap_arguments.len() as u16);
            lemma_parse_n::<u16>(self.bootstrap_arguments, data, pos + 4);
        }
    }
}

impl ToJvmBytecode for BootstrapMethod {
    fn to_jvm_bytecode(&self) -> (r: Result<Vec<u8>, Error>) {
        if self.bootstrap_arguments.len() > 0xffff {
            return Err(Error::IndexOutOfRange);
        }
        let mut bytes: Vec<u8> = Vec::new();
        put_u16(&mut bytes, self.bootstrap_method_ref);
        put_u16(&mut bytes, self.bootstrap_arguments.len() as u16);
        proof {
            assert(models(self.bootstrap_arguments@) =~= self.bootstrap_arguments@);
        }
        encode_all(&self.bootstrap_arguments, &mut bytes)?;
        proof {
            assert(bytes@ =~= self@.wire());
        }
        Ok(bytes)
    }
}

impl Decode for BootstrapMethod {
    fn decode(reader: &mut Reader) -> (r: Result<BootstrapMethod, Error>) {
        let bootstrap_method_ref = reader.read_int2()?;
        let num_bootstrap_arguments = reader.read_int2()?;
        let bootstrap_arguments = decode_n::<u16>(reader, num_bootstrap_arguments as u64)?;
        proof {
            assert(models(bootstrap_arguments@) =~= bootstrap_arguments@);
        }
        Ok(BootstrapMethod { bootstrap_method_ref, num_bootstrap_arguments, bootstrap_arguments })
    }
}

} // verus!
