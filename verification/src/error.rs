//! The ways in which decoding, encoding and assembling can fail.

use vstd::prelude::*;

verus! {

/// The mathematical model of an [`Error`]: the same variants, with text as a
/// sequence of characters.
pub enum ErrorModel {
    TruncatedInput,
    BadMagic,
    UnknownTag(u8),
    UnknownOpcode(u8),
    UnknownAttribute(Seq<char>),
    InvalidDescriptor,
    InvalidUtf8,
    NoActiveMethod,
    IndexOutOfRange,
}

/// Why an operation of this library failed.
#[derive(Debug, Clone, PartialEq, Eq)]
pub enum Error {
    /// Fewer bytes remain than the next field needs.
    TruncatedInput,
    /// The buffer does not start with the class-file magic number.
    BadMagic,
    /// A tag byte that selects no known kind of entry.
    UnknownTag(u8),
    /// An opcode byte that selects no known instruction.
    UnknownOpcode(u8),
    /// An attribute whose name is not one of the known kinds.
    UnknownAttribute(String),
    /// A type descriptor that does not follow the grammar.
    InvalidDescriptor,
    /// The bytes of a text entry are not UTF-8.
    InvalidUtf8,
    /// An instruction was emitted while no method was being built.
    NoActiveMethod,
    /// An index, a count or a length lies outside the range that the format
    /// gives it: a pool index that names no fitting entry, a family index
    /// beyond its family, a table longer than its length field can say.
    IndexOutOfRange,
}

impl View for Error {
    type V = ErrorModel;

    open spec fn view(&self) -> ErrorModel {
        match self {
            Error::TruncatedInput => ErrorModel::TruncatedInput,
            Error::BadMagic => ErrorModel::BadMagic,
            Error::UnknownTag(t) => ErrorModel::UnknownTag(*t),
            Error::UnknownOpcode(b) => ErrorModel::UnknownOpcode(*b),
            Error::UnknownAttribute(name) => ErrorModel::UnknownAttribute(name@),
            Error::InvalidDescriptor => ErrorModel::InvalidDescriptor,
            Error::InvalidUtf8 => ErrorModel::InvalidUtf8,
            Error::NoActiveMethod => ErrorModel::NoActiveMethod,
            Error::IndexOutOfRange => ErrorModel::IndexOutOfRange,
        }
    }
}

} // verus!
