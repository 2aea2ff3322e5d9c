//! The class-file tree and its encoding.

use vstd::prelude::*;
use crate::error::Error;
use crate::wire::Wire;

pub mod annotation;
pub mod attribute;
pub mod class_file;
pub mod constant_pool;
pub mod instr;
pub mod stack_map;
pub mod tables;

pub use self::annotation::{
    Annotation, ElementValue, ElementValueKind, ElementValuePair, ParameterAnnotation,
};
pub use self::attribute::{AttributeInfo, AttributeInfoKind, AttributeName};
pub use self::class_file::{ClassFile, FieldInfo, MethodInfo};
pub use self::constant_pool::{
    CpInfo, CpInfoType, CP_TAG_CLASS, CP_TAG_DOUBLE, CP_TAG_FIELDREF, CP_TAG_FLOAT,
    CP_TAG_INTEGER, CP_TAG_INTERFACEMETHODREF, CP_TAG_INVOKEDYNAMIC, CP_TAG_LONG,
    CP_TAG_METHODHANDLE, CP_TAG_METHODREF, CP_TAG_METHODTYPE, CP_TAG_NAMEANDTYPE, CP_TAG_STRING,
    CP_TAG_UTF8,
};
pub use self::instr::{LookupSwitch, Opcode, TableSwitch};
pub use self::stack_map::{StackMapFrame, VerificationTypeInfo};
pub use self::tables::{
    BootstrapMethod, ExceptionTable, InnerClass, LineNumberTable, LocalVariableTable,
    LocalVariableTypeTable,
};

verus! {

pub const PUBLIC: u16 = 0x0001;

pub const FINAL: u16 = 0x0010;

pub const SUPER: u16 = 0x0020;

pub const INTERFACE: u16 = 0x0200;

pub const ABSTRACT: u16 = 0x0400;

pub const SYNTHETIC: u16 = 0x1000;

pub const ANNOTATION: u16 = 0x2000;

pub const ENUM: u16 = 0x4000;

pub const JVM_MAGIC: u32 = 0xCAFEBABE;

pub const FIELD_ACC_PUBLIC: u16 = 0x0001;

pub const FIELD_ACC_PRIVATE: u16 = 0x0002;

pub const FIELD_ACC_PROTECTED: u16 = 0x0004;

pub const FIELD_ACC_STATIC: u16 = 0x0008;

pub const FIELD_ACC_FINAL: u16 = 0x0010;

pub const FIELD_ACC_VOLATILE: u16 = 0x0040;

pub const FIELD_ACC_TRANSIENT: u16 = 0x0080;

pub const FIELD_ACC_SYNTHETIC: u16 = 0x1000;

pub const FIELD_ACC_ENUM: u16 = 0x4000;

pub const METHOD_ACC_PUBLIC: u16 = 0x0001;

pub const METHOD_ACC_PRIVATE: u16 = 0x0002;

pub const METHOD_ACC_PROTECTED: u16 = 0x0004;

pub const METHOD_ACC_STATIC: u16 = 0x0008;

pub const METHOD_ACC_FINAL: u16 = 0x0010;

pub const METHOD_ACC_SYNCHRONIZED: u16 = 0x0020;

pub const METHOD_ACC_BRIDGE: u16 = 0x0040;

pub const METHOD_ACC_VARARGS: u16 = 0x0080;

pub const METHOD_ACC_NATIVE: u16 = 0x0100;

pub const METHOD_ACC_ABSTRACT: u16 = 0x0400;

pub const METHOD_ACC_STRICT: u16 = 0x0800;

pub const METHOD_ACC_SYNTHETIC: u16 = 0x1000;

/// How the result of an encoder relates to the model of the value: the
/// encoder succeeds exactly on encodable values, and then gives their wire
/// form.
pub open spec fn encoded<M: Wire>(m: M, r: Result<Vec<u8>, Error>) -> bool {
    match r {
        Ok(bytes) => m.encodable() && bytes@ == m.wire(),
        Err(e) => !m.encodable() && e == Error::IndexOutOfRange,
    }
}

/// How the result of an encoder that appends to a buffer relates to the
/// model of the value: as `encoded`, with the bytes behind what the buffer
/// held.
pub open spec fn appended<M: Wire>(
    m: M,
    before: Seq<u8>,
    after: Seq<u8>,
    r: Result<(), Error>,
) -> bool {
    match r {
        Ok(()) => m.encodable() && after == before + m.wire(),
        Err(e) => !m.encodable() && e == Error::IndexOutOfRange,
    }
}

/// A value of the class-file tree that can be written in the class-file
/// format.
pub trait ToJvmBytecode: View + Sized where Self::V: Wire {
    /// The bytes of the value in the class-file format, every length field
    /// taken from the data that it counts.
    fn to_jvm_bytecode(&self) -> (r: Result<Vec<u8>, Error>)
        ensures
            encoded(self@, r),
    ;
}

} // verus!
