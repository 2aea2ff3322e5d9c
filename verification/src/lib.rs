//! A codec for the JVM class-file format.
//!
//! - [`reader`]: a cursor that reads big-endian fields from a buffer.
//! - [`wire`]: what it means for a model to have an encoding and a decoder,
//!   tables of such models, and the law that ties the two together.
//! - [`descriptor`]: the grammar of type descriptors.
//! - [`bytecode`]: the class-file tree, from instructions and pool entries
//!   to the class file, with the encoding of each part.
//! - [`parser`]: the decoder of class files.
//! - [`builder`]: an assembler that builds a class file and the bodies of its
//!   methods.
//! - [`flags`], [`error`]: bitsets of access flags, and the errors.
//!
//! Every executable function carries a contract over a mathematical model of
//! the data it handles: a type with vectors or text has a model with
//! sequences in their place, and what a function writes or reads is given by
//! a function of such models. Beside those functions stand the laws that
//! relate them: decoding what was encoded gives it back, a buffer cut short
//! is refused for want of input, and the assembler keeps a stack depth that
//! covers every depth the body reaches.

pub mod builder;
pub mod bytecode;
pub mod descriptor;
pub mod error;
pub mod flags;
pub mod parser;
pub mod reader;
pub mod wire;
