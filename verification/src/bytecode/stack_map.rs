//! Stack map frames and the verification types they are made of.

use vstd::prelude::*;
use crate::error::{Error, ErrorModel};
use crate::reader::{has_bytes, lemma_carries_split, lemma_u16_at_bytes, u16_at, u16_bytes, Reader};
use crate::wire::{
    decode_n, encode_all, lemma_parse_n, models, parse_n, put_u16, wire_all, Decode, Parse, Parsed,
    Wire,
};
use super::ToJvmBytecode;

verus! {

pub const ITEM_TOP: u8 = 0;

pub const ITEM_INTEGER: u8 = 1;

pub const ITEM_FLOAT: u8 = 2;

pub const ITEM_DOUBLE: u8 = 3;

pub const ITEM_LONG: u8 = 4;

pub const ITEM_NULL: u8 = 5;

pub const ITEM_UNINITIALIZED_THIS: u8 = 6;

pub const ITEM_OBJECT: u8 = 7;

pub const ITEM_UNINITIALIZED: u8 = 8;

/// The type of one local variable or stack entry, as the verifier sees it.
#[derive(Debug, Clone, Copy, PartialEq)]
pub enum VerificationTypeInfo {
    Top,
    Integer,
    Float,
    Long,
    Double,
    Null,
    UninitializedThis,
    Object { cpool_index: u16 },
    Uninitialized { offset: u16 },
}

impl View for VerificationTypeInfo {
    type V = VerificationTypeInfo;

    open spec fn view(&self) -> VerificationTypeInfo {
        *self
    }
}

impl Wire for VerificationTypeInfo {
    open spec fn encodable(self) -> bool {
        true
    }

    open spec fn wire(self) -> Seq<u8> {
        match self {
            VerificationTypeInfo::Top => seq![ITEM_TOP],
            VerificationTypeInfo::Integer => seq![ITEM_INTEGER],
            VerificationTypeInfo::Float => seq![ITEM_FLOAT],
            VerificationTypeInfo::Long => seq![ITEM_LONG],
            VerificationTypeInfo::Double => seq![ITEM_DOUBLE],
            VerificationTypeInfo::Null => seq![ITEM_NULL],
            VerificationTypeInfo::UninitializedThis => seq![ITEM_UNINITIALIZED_THIS],
            VerificationTypeInfo::Object { cpool_index } => seq![ITEM_OBJECT] + u16_bytes(
                cpool_index,
            ),
            VerificationTypeInfo::Uninitialized { offset } => seq![ITEM_UNINITIALIZED] + u16_bytes(
                offset,
            ),
        }
    }
}

impl Parse for VerificationTypeInfo {
    open spec fn parse(data: Seq<u8>, pos: int) -> Parsed<VerificationTypeInfo> {
        if !has_bytes(data, pos, 1) {
            Err(ErrorModel::TruncatedInput)
        } else {
            let tag = data[pos];
            if tag == ITEM_TOP {
                Ok((VerificationTypeInfo::Top, pos + 1))
            } else if tag == ITEM_INTEGER {
                Ok((VerificationTypeInfo::Integer, pos + 1))
            } else if tag == ITEM_FLOAT {
                Ok((VerificationTypeInfo::Float, pos + 1))
            } else if tag == ITEM_DOUBLE {
                Ok((VerificationTypeInfo::Double, pos + 1))
            } else if tag == ITEM_LONG {
                Ok((VerificationTypeInfo::Long, pos + 1))
            } else if tag == ITEM_NULL {
                Ok((VerificationTypeInfo::Null, pos + 1))
            } else if tag == ITEM_UNINITIALIZED_THIS {
                Ok((VerificationTypeInfo::UninitializedThis, pos + 1))
            } else if tag == ITEM_OBJECT || tag == ITEM_UNINITIALIZED {
                if !has_bytes(data, pos + 1, 2) {
                    Err(ErrorModel::TruncatedInput)
                } else if tag == ITEM_OBJECT {
                    Ok((VerificationTypeInfo::Object { cpool_index: u16_at(data, pos + 1) }, pos + 3))
                } else {
                    Ok((VerificationTypeInfo::Uninitialized { offset: u16_at(data, pos + 1) }, pos + 3))
                }
            } else {
                Err(ErrorModel::UnknownTag(tag))
            }
        }
    }

    open spec fn valid(self) -> bool {
        true
    }

    proof fn lemma_parse(self, data: Seq<u8>, pos: int) {
        if pos < data.len() {
            assert(data[pos + 0] == self.wire()[0]);
            match self {
                VerificationTypeInfo::Object { cpool_index } => {
                    lemma_carries_split(data, pos, seq![ITEM_OBJECT], u16_bytes(cpool_index));
                    if has_bytes(data, pos + 1, 2) {
                        lemma_u16_at_bytes(data, pos + 1, cpool_index);
                    }
                },
                VerificationTypeInfo::Uninitialized { offset } => {
                    lemma_carries_split(data, pos, seq![ITEM_UNINITIALIZED], u16_bytes(offset));
                    if has_bytes(data, pos + 1, 2) {
                        lemma_u16_at_bytes(data, pos + 1, offset);
                    }
                },
                _ => {},
            }
        }
    }
}

impl ToJvmBytecode for VerificationTypeInfo {
    fn to_jvm_bytecode(&self) -> (r: Result<Vec<u8>, Error>) {
        let mut bytes: Vec<u8> = Vec::new();
        match self {
            VerificationTypeInfo::Top => bytes.push(ITEM_TOP),
            VerificationTypeInfo::Integer => bytes.push(ITEM_INTEGER),
            VerificationTypeInfo::Float => bytes.push(ITEM_FLOAT),
            VerificationTypeInfo::Long => bytes.push(ITEM_LONG),
            VerificationTypeInfo::Double => bytes.push(ITEM_DOUBLE),
            VerificationTypeInfo::Null => bytes.push(ITEM_NULL),
            VerificationTypeInfo::UninitializedThis => bytes.push(ITEM_UNINITIALIZED_THIS),
            VerificationTypeInfo::Object { cpool_index } => {
                bytes.push(ITEM_OBJECT);
                put_u16(&mut bytes, *cpool_index);
            },
            VerificationTypeInfo::Uninitialized { offset } => {
                bytes.push(ITEM_UNINITIALIZED);
                put_u16(&mut bytes, *offset);
            },
        }
        proof {
            assert(bytes@ =~= self@.wire());
        }
        Ok(bytes)
    }
}

impl Decode for VerificationTypeInfo {
    fn decode(reader: &mut Reader) -> (r: Result<VerificationTypeInfo, Error>) {
        let tag = reader.read_int1()?;
        if tag == ITEM_TOP {
            Ok(VerificationTypeInfo::Top)
        } else if tag == ITEM_INTEGER {
            Ok(VerificationTypeInfo::Integer)
        } else if tag == ITEM_FLOAT {
            Ok(VerificationTypeInfo::Float)
        } else if tag == ITEM_DOUBLE {
            Ok(VerificationTypeInfo::Double)
        } else if tag == ITEM_LONG {
            Ok(VerificationTypeInfo::Long)
        } else if tag == ITEM_NULL {
            Ok(VerificationTypeInfo::Null)
        } else if tag == ITEM_UNINITIALIZED_THIS {
            Ok(VerificationTypeInfo::UninitializedThis)
        } else if tag == ITEM_OBJECT {
            let cpool_index = reader.read_int2()?;
            Ok(VerificationTypeInfo::Object { cpool_index })
        } else if tag == ITEM_UNINITIALIZED {
            let offset = reader.read_int2()?;
            Ok(VerificationTypeInfo::Uninitialized { offset })
        } else {
            Err(Error::UnknownTag(tag))
        }
    }
}

/// One frame of a stack map table. The frame type says which kind of frame
/// it is, and for some kinds an offset or a number of locals besides.
#[allow(inconsistent_fields)]
#[derive(Debug, PartialEq)]
pub enum StackMapFrame {
    /// Frame types 0 to 63.
    SameFrame { frame_type: u8 },
    /// Frame types 64 to 127.
    SameLocals1StackItemFrame { frame_type: u8, stack: VerificationTypeInfo },
    /// Frame type 247.
    SameLocals1StackItemFrameExtended {
        frame_type: u8,
        offset_delta: u16,
        stack: VerificationTypeInfo,
    },
    /// Frame types 248 to 250.
    ChopFrame { frame_type: u8, offset_delta: u16 },
    /// Frame type 251.
    SameFrameExtended { frame_type: u8, offset_delta: u16 },
    /// Frame types 252 to 254, with as many locals as the type is above 251.
    AppendFrame { frame_type: u8, offset_delta: u16, locals: Vec<VerificationTypeInfo> },
    /// Frame type 255.
    FullFrame {
        frame_type: u8,
        offset_delta: u16,
        locals: Vec<VerificationTypeInfo>,
        stack: Vec<VerificationTypeInfo>,
    },
}

/// The model of a [`StackMapFrame`]: locals and stack as sequences.
#[allow(inconsistent_fields)]
pub enum StackMapFrameModel {
    SameFrame { frame_type: u8 },
    SameLocals1StackItemFrame { frame_type: u8, stack: VerificationTypeInfo },
    SameLocals1StackItemFrameExtended {
        frame_type: u8,
        offset_delta: u16,
        stack: VerificationTypeInfo,
    },
    ChopFrame { frame_type: u8, offset_delta: u16 },
    SameFrameExtended { frame_type: u8, offset_delta: u16 },
    AppendFrame { frame_type: u8, offset_delta: u16, locals: Seq<VerificationTypeInfo> },
    FullFrame {
        frame_type: u8,
        offset_delta: u16,
        locals: Seq<VerificationTypeInfo>,
        stack: Seq<VerificationTypeInfo>,
    },
}

impl View for StackMapFrame {
    type V = StackMapFrameModel;

    open spec fn view(&self) -> StackMapFrameModel {
        match self {
            StackMapFrame::SameFrame { frame_type } => StackMapFrameModel::SameFrame {
                frame_type: *frame_type,
            },
            StackMapFrame::SameLocals1StackItemFrame {
                frame_type,
                stack,
            } => StackMapFrameModel::SameLocals1StackItemFrame {
                frame_type: *frame_type,
                stack: *stack,
            },
            StackMapFrame::SameLocals1StackItemFrameExtended {
                frame_type,
                offset_delta,
                stack,
            } => StackMapFrameModel::SameLocals1StackItemFrameExtended {
                frame_type: *frame_type,
                offset_delta: *offset_delta,
                stack: *stack,
            },
            StackMapFrame::ChopFrame { frame_type, offset_delta } => StackMapFrameModel::ChopFrame {
                frame_type: *frame_type,
                offset_delta: *offset_delta,
            },
            StackMapFrame::SameFrameExtended {
                frame_type,
                offset_delta,
            } => StackMapFrameModel::SameFrameExtended {
                frame_type: *frame_type,
                offset_delta: *offset_delta,
            },
            StackMapFrame::AppendFrame {
                frame_type,
                offset_delta,
                locals,
            } => StackMapFrameModel::AppendFrame {
                frame_type: *frame_type,
                offset_delta: *offset_delta,
                locals: locals@,
            },
            StackMapFrame::FullFrame {
                frame_type,
                offset_delta,
                locals,
                stack,
            } => StackMapFrameModel::FullFrame {
                frame_type: *frame_type,
                offset_delta: *offset_delta,
                locals: locals@,
                stack: stack@,
            },
        }
    }
}

impl Clone for StackMapFrame {
    /// A frame with the same model.
    fn clone(&self) -> (copy: StackMapFrame)
        ensures
            copy@ == self@,
    {
        match self {
            StackMapFrame::SameFrame { frame_type } => StackMapFrame::SameFrame {
                frame_type: *frame_type,
            },
            StackMapFrame::SameLocals1StackItemFrame {
                frame_type,
                stack,
            } => StackMapFrame::SameLocals1StackItemFrame { frame_type: *frame_type, stack: *stack },
            StackMapFrame::SameLocals1StackItemFrameExtended {
                frame_type,
                offset_delta,
                stack,
            } => StackMapFrame::SameLocals1StackItemFrameExtended {
                frame_type: *frame_type,
                offset_delta: *offset_delta,
                stack: *stack,
            },
            StackMapFrame::ChopFrame { frame_type, offset_delta } => StackMapFrame::ChopFrame {
                frame_type: *frame_type,
                offset_delta: *offset_delta,
            },
            StackMapFrame::SameFrameExtended {
                frame_type,
                offset_delta,
            } => StackMapFrame::SameFrameExtended {
                frame_type: *frame_type,
                offset_delta: *offset_delta,
            },
            StackMapFrame::AppendFrame {
                frame_type,
                offset_delta,
                locals,
            } => StackMapFrame::AppendFrame {
                frame_type: *frame_type,
                offset_delta: *offset_delta,
                locals: locals.clone(),
            },
            StackMapFrame::FullFrame {
                frame_type,
                offset_delta,
                locals,
                stack,
            } => StackMapFrame::FullFrame {
                frame_type: *frame_type,
                offset_delta: *offset_delta,
                locals: locals.clone(),
                stack: stack.clone(),
            },
        }
    }
}

impl Wire for StackMapFrameModel {
    /// The frame type must lie in the range of the kind of frame; an append
    /// frame must hold as many locals as its type says, and the tables of a
    /// full frame must not be longer than 65535.
    open spec fn encodable(self) -> bool {
        match self {
            StackMapFrameModel::SameFrame { frame_type } => frame_type <= 63,
            StackMapFrameModel::SameLocals1StackItemFrame { frame_type, stack } => 64
                <= frame_type <= 127,
            StackMapFrameModel::SameLocals1StackItemFrameExtended {
                frame_type,
                offset_delta,
                stack,
            } => frame_type == 247,
            StackMapFrameModel::ChopFrame { frame_type, offset_delta } => 248 <= frame_type <= 250,
            StackMapFrameModel::SameFrameExtended { frame_type, offset_delta } => frame_type == 251,
            StackMapFrameModel::AppendFrame { frame_type, offset_delta, locals } => 252
                <= frame_type <= 254 && locals.len() == frame_type - 251,
            StackMapFrameModel::FullFrame { frame_type, offset_delta, locals, stack } => frame_type
                == 255 && locals.len() <= 0xffff && stack.len() <= 0xffff,
        }
    }

    open spec fn wire(self) -> Seq<u8> {
        match self {
            StackMapFrameModel::SameFrame { frame_type } => seq![frame_type],
            StackMapFrameModel::SameLocals1StackItemFrame { frame_type, stack } => seq![frame_type]
                + stack.wire(),
            StackMapFrameModel::SameLocals1StackItemFrameExtended {
                frame_type,
                offset_delta,
                stack,
            } => seq![frame_type] + u16_bytes(offset_delta) + stack.wire(),
            StackMapFrameModel::ChopFrame { frame_type, offset_delta } => seq![frame_type]
                + u16_bytes(offset_delta),
            StackMapFrameModel::SameFrameExtended { frame_type, offset_delta } => seq![frame_type]
                + u16_bytes(offset_delta),
            StackMapFrameModel::AppendFrame { frame_type, offset_delta, locals } => seq![frame_type]
                + u16_bytes(offset_delta) + wire_all(locals),
            StackMapFrameModel::FullFrame { frame_type, offset_delta, locals, stack } =>
                seq![frame_type] + u16_bytes(offset_delta) + u16_bytes(locals.len() as u16)
                    + wire_all(locals) + u16_bytes(stack.len() as u16) + wire_all(stack),
        }
    }
}

/// The stack of a full frame behind its locals: the count and the entries.
pub open spec fn parse_full_frame_stack(
    data: Seq<u8>,
    offset_delta: u16,
    locals: Seq<VerificationTypeInfo>,
    pos: int,
) -> Parsed<StackMapFrameModel> {
    if !has_bytes(data, pos, 2) {
        Err(ErrorModel::TruncatedInput)
    } else {
        match parse_n::<VerificationTypeInfo>(data, pos + 2, u16_at(data, pos) as int) {
            Ok((stack, q)) => Ok(
                (StackMapFrameModel::FullFrame { frame_type: 255, offset_delta, locals, stack }, q),
            ),
            Err(e) => Err(e),
        }
    }
}

impl Parse for StackMapFrameModel {
    open spec fn parse(data: Seq<u8>, pos: int) -> Parsed<StackMapFrameModel> {
        if !has_bytes(data, pos, 1) {
            Err(ErrorModel::TruncatedInput)
        } else {
            let frame_type = data[pos];
            if frame_type <= 63 {
                Ok((StackMapFrameModel::SameFrame { frame_type }, pos + 1))
            } else if frame_type <= 127 {
                match VerificationTypeInfo::parse(data, pos + 1) {
                    Ok((stack, p)) => Ok(
                        (StackMapFrameModel::SameLocals1StackItemFrame { frame_type, stack }, p),
                    ),
                    Err(e) => Err(e),
                }
            } else if frame_type < 247 {
                Err(ErrorModel::UnknownTag(frame_type))
            } else if !has_bytes(data, pos + 1, 2) {
                Err(ErrorModel::TruncatedInput)
            } else {
                let offset_delta = u16_at(data, pos + 1);
                if frame_type == 247 {
                    match VerificationTypeInfo::parse(data, pos + 3) {
                        Ok((stack, p)) => Ok(
                            (
                                StackMapFrameModel::SameLocals1StackItemFrameExtended {
                                    frame_type,
                                    offset_delta,
                                    stack,
                                },
                                p,
                            ),
                        ),
                        Err(e) => Err(e),
                    }
                } else if frame_type <= 250 {
                    Ok((StackMapFrameModel::ChopFrame { frame_type, offset_delta }, pos + 3))
                } else if frame_type == 251 {
                    Ok((StackMapFrameModel::SameFrameExtended { frame_type, offset_delta }, pos + 3))
                } else if frame_type <= 254 {
                    match parse_n::<VerificationTypeInfo>(data, pos + 3, frame_type - 251) {
                        Ok((locals, p)) => Ok(
                            (StackMapFrameModel::AppendFrame { frame_type, offset_delta, locals }, p),
                        ),
                        Err(e) => Err(e),
                    }
                } else if !has_bytes(data, pos + 3, 2) {
                    Err(ErrorModel::TruncatedInput)
                } else {
                    match parse_n::<VerificationTypeInfo>(
                        data,
                        pos + 5,
                        u16_at(data, pos + 3) as int,
                    ) {
                        Ok((locals, p)) => parse_full_frame_stack(data, offset_delta, locals, p),
                        Err(e) => Err(e),
                    }
                }
            }
        }
    }

    open spec fn valid(self) -> bool {
        true
    }

    proof fn lemma_parse(self, data: Seq<u8>, pos: int) {
        if pos < data.len() {
            assert(data[pos + 0] == self.wire()[0]);
            match self {
                StackMapFrameModel::SameFrame { frame_type } => {},
                StackMapFrameModel::SameLocals1StackItemFrame { frame_type, stack } => {
                    lemma_carries_split(data, pos, seq![frame_type], stack.wire());
                    stack.lemma_parse(data, pos + 1);
                },
                StackMapFrameModel::SameLocals1StackItemFrameExtended {
                    frame_type,
                    offset_delta,
                    stack,
                } => {
                    let head = seq![frame_type];
                    lemma_carries_split(data, pos, head + u16_bytes(offset_delta), stack.wire());
                    lemma_carries_split(data, pos, head, u16_bytes(offset_delta));
                    if has_bytes(data, pos + 1, 2) {
                        lemma_u16_at_bytes(data, pos + 1, offset_delta);
                        stack.lemma_parse(data, pos + 3);
                    }
                },
                StackMapFrameModel::ChopFrame { frame_type, offset_delta } => {
                    lemma_carries_split(data, pos, seq![frame_type], u16_bytes(offset_delta));
                    if has_bytes(data, pos + 1, 2) {
                        lemma_u16_at_bytes(data, pos + 1, offset_delta);
                    }
                },
                StackMapFrameModel::SameFrameExtended { frame_type, offset_delta } => {
                    lemma_carries_split(data, pos, seq![frame_type], u16_bytes(offset_delta));
                    if has_bytes(data, pos + 1, 2) {
                        lemma_u16_at_bytes(data, pos + 1, offset_delta);
                    }
                },
                StackMapFrameModel::AppendFrame { frame_type, offset_delta, locals } => {
                    let head = seq![frame_type];
                    lemma_carries_split(data, pos, head + u16_bytes(offset_delta), wire_all(locals));
                    lemma_carries_split(data, pos, head, u16_bytes(offset_delta));
                    if has_bytes(data, pos + 1, 2) {
                        lemma_u16_at_bytes(data, pos + 1, offset_delta);
                        lemma_parse_n::<VerificationTypeInfo>(locals, data, pos + 3);
                    }
                },
                StackMapFrameModel::FullFrame { frame_type, offset_delta, locals, stack } => {
                    let head = seq![frame_type];
                    let d = u16_bytes(offset_delta);
                    let nl = u16_bytes(locals.len() as u16);
                    let ns = u16_bytes(stack.len() as u16);
                    lemma_carries_split(
                        data,
                        pos,
                        head + d + nl + wire_all(locals) + ns,
                        wire_all(stack),
                    );
                    lemma_carries_split(data, pos, head + d + nl + wire_all(locals), ns);
                    lemma_carries_split(data, pos, head + d + nl, wire_all(locals));
                    lemma_carries_split(data, pos, head + d, nl);
                    lemma_carries_split(data, pos, head, d);
                    if has_bytes(data, pos + 1, 4) {
                        lemma_u16_at_bytes(data, pos + 1, offset_delta);
                        lemma_u16_at_bytes(data, pos + 3, locals.len() as u16);
                        lemma_parse_n::<VerificationTypeInfo>(locals, data, pos + 5);
                        let p = pos + 5 + wire_all(locals).len();
                        if has_bytes(data, p, 2) {
                            lemma_u16_at_bytes(data, p, stack.len() as u16);
                            lemma_parse_n::<VerificationTypeInfo>(stack, data, p + 2);
                        }
                    }
                },
            }
        }
    }
}

impl ToJvmBytecode for StackMapFrame {
    fn to_jvm_bytecode(&self) -> (r: Result<Vec<u8>, Error>) {
        let mut bytes: Vec<u8> = Vec::new();
        match self {
            StackMapFrame::SameFrame { frame_type } => {
                if *frame_type > 63 {
                    return Err(Error::IndexOutOfRange);
                }
                bytes.push(*frame_type);
            },
            StackMapFrame::SameLocals1StackItemFrame { frame_type, stack } => {
                if *frame_type < 64 || *frame_type > 127 {
                    return Err(Error::IndexOutOfRange);
                }
                bytes.push(*frame_type);
                let mut item = stack.to_jvm_bytecode()?;
                bytes.append(&mut item);
            },
            StackMapFrame::SameLocals1StackItemFrameExtended {
                frame_type,
                offset_delta,
                stack,
            } => {
                if *frame_type != 247 {
                    return Err(Error::IndexOutOfRange);
                }
                bytes.push(*frame_type);
                put_u16(&mut bytes, *offset_delta);
                let mut item = stack.to_jvm_bytecode()?;
                bytes.append(&mut item);
            },
            StackMapFrame::ChopFrame { frame_type, offset_delta } => {
                if *frame_type < 248 || *frame_type > 250 {
                    return Err(Error::IndexOutOfRange);
                }
                bytes.push(*frame_type);
                put_u16(&mut bytes, *offset_delta);
            },
            StackMapFrame::SameFrameExtended { frame_type, offset_delta } => {
                if *frame_type != 251 {
                    return Err(Error::IndexOutOfRange);
                }
                bytes.push(*frame_type);
                put_u16(&mut bytes, *offset_delta);
            },
            StackMapFrame::AppendFrame { frame_type, offset_delta, locals } => {
                if *frame_type < 252 || *frame_type > 254 || locals.len() != (*frame_type
                    - 251) as usize {
                    return Err(Error::IndexOutOfRange);
                }
                bytes.push(*frame_type);
                put_u16(&mut bytes, *offset_delta);
                proof {
                    assert(models(locals@) =~= locals@);
                }
                encode_all(locals, &mut bytes)?;
            },
            StackMapFrame::FullFrame { frame_type, offset_delta, locals, stack } => {
                if *frame_type != 255 || locals.len() > 0xffff || stack.len() > 0xffff {
                    return Err(Error::IndexOutOfRange);
                }
                bytes.push(*frame_type);
                put_u16(&mut bytes, *offset_delta);
                put_u16(&mut bytes, locals.len() as u16);
                proof {
                    assert(models(locals@) =~= locals@);
                    assert(models(stack@) =~= stack@);
                }
                encode_all(locals, &mut bytes)?;
                put_u16(&mut bytes, stack.len() as u16);
                encode_all(stack, &mut bytes)?;
            },
        }
        proof {
            assert(bytes@ =~= self@.wire());
        }
        Ok(bytes)
    }
}

impl Decode for StackMapFrame {
    fn decode(reader: &mut Reader) -> (r: Result<StackMapFrame, Error>) {
        let frame_type = reader.read_int1()?;
        if frame_type <= 63 {
            Ok(StackMapFrame::SameFrame { frame_type })
        } else if frame_type <= 127 {
            let stack = VerificationTypeInfo::decode(reader)?;
            Ok(StackMapFrame::SameLocals1StackItemFrame { frame_type, stack })
        } else if frame_type < 247 {
            Err(Error::UnknownTag(frame_type))
        } else {
            let offset_delta = reader.read_int2()?;
            if frame_type == 247 {
                let stack = VerificationTypeInfo::decode(reader)?;
                Ok(
                    StackMapFrame::SameLocals1StackItemFrameExtended {
                        frame_type,
                        offset_delta,
                        stack,
                    },
                )
            } else if frame_type <= 250 {
                Ok(StackMapFrame::ChopFrame { frame_type, offset_delta })
            } else if frame_type == 251 {
                Ok(StackMapFrame::SameFrameExtended { frame_type, offset_delta })
            } else if frame_type <= 254 {
                let locals = decode_n::<VerificationTypeInfo>(reader, (frame_type - 251) as u64)?;
                proof {
                    assert(models(locals@) =~= locals@);
                }
                Ok(StackMapFrame::AppendFrame { frame_type, offset_delta, locals })
            } else {
                let number_of_locals = reader.read_int2()?;
                let locals = decode_n::<VerificationTypeInfo>(reader, number_of_locals as u64)?;
                let number_of_stack_items = reader.read_int2()?;
                let stack = decode_n::<VerificationTypeInfo>(reader, number_of_stack_items as u64)?;
                proof {
                    assert(models(locals@) =~= locals@);
                    assert(models(stack@) =~= stack@);
                }
                Ok(StackMapFrame::FullFrame { frame_type, offset_delta, locals, stack })
            }
        }
    }
}

} // verus!
