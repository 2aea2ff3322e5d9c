//! The instruction set: one variant for each mnemonic, the bytes that each
//! instruction takes on the wire, and the decoder that reads them back.
//!
//! An instruction that stands for a family of opcodes (`aload_0` to
//! `aload_3`) is one variant whose first field is the index in the family.
//! The two switch instructions carry their jump table and the number of
//! padding bytes that aligns it.

use vstd::prelude::*;
use crate::error::{Error, ErrorModel};
use crate::reader::{
    carries, has_bytes, lemma_carries_split, lemma_u32_at_bytes, u32_at, u32_bytes, Reader,
};
use crate::wire::{
    all_encodable, decode_n, decoded, encode_all, expected, lemma_parse_n, models, parse_n, put_u32,
    wire_all, Parse, Parsed, Wire,
};
use super::ToJvmBytecode;

verus! {

pub const AALOAD: u8 = 0x32;
pub const AASTORE: u8 = 0x53;
pub const ACONST_NULL: u8 = 0x01;
pub const ALOAD: u8 = 0x19;
pub const ALOAD_N: u8 = 0x2a;
pub const ANEWARRAY: u8 = 0xbd;
pub const ARETURN: u8 = 0xb0;
pub const ARRAYLENGTH: u8 = 0xbe;
pub const ASTORE: u8 = 0x3a;
pub const ASTORE_N: u8 = 0x4b;
pub const ATHROW: u8 = 0xbf;
pub const BALOAD: u8 = 0x33;
pub const BASTORE: u8 = 0x54;
pub const BIPUSH: u8 = 0x10;
pub const CALOAD: u8 = 0x34;
pub const CASTORE: u8 = 0x55;
pub const CHECKCAST: u8 = 0xc0;
pub const D2F: u8 = 0x90;
pub const D2I: u8 = 0x8e;
pub const D2L: u8 = 0x8f;
pub const DADD: u8 = 0x63;
pub const DALOAD: u8 = 0x31;
pub const DASTORE: u8 = 0x52;
pub const DCM_N: u8 = 0x97;
pub const DCONST_N: u8 = 0x0e;
pub const DDIV: u8 = 0x6f;
pub const DLOAD: u8 = 0x18;
pub const DLOAD_N: u8 = 0x26;
pub const DMUL: u8 = 0x6b;
pub const DNEG: u8 = 0x77;
pub const DREM: u8 = 0x73;
pub const DRETURN: u8 = 0xaf;
pub const DSTORE: u8 = 0x39;
pub const DSTORE_N: u8 = 0x47;
pub const DSUB: u8 = 0x67;
pub const DUP: u8 = 0x59;
pub const DUP_X1: u8 = 0x5a;
pub const DUP_X2: u8 = 0x5b;
pub const DUP2: u8 = 0x5c;
pub const DUP2_X1: u8 = 0x5d;
pub const DUP2_X2: u8 = 0x5e;
pub const F2D: u8 = 0x8d;
pub const F2I: u8 = 0x8b;
pub const F2L: u8 = 0x8c;
pub const FADD: u8 = 0x62;
pub const FALOAD: u8 = 0x30;
pub const FASTORE: u8 = 0x51;
pub const FCM_N: u8 = 0x95;
pub const FCONST_N: u8 = 0x0b;
pub const FDIV: u8 = 0x6e;
pub const FLOAD: u8 = 0x17;
pub const FLOAD_N: u8 = 0x22;
pub const FMUL: u8 = 0x6a;
pub const FNEG: u8 = 0x76;
pub const FREM: u8 = 0x72;
pub const FRETURN: u8 = 0xae;
pub const FSTORE: u8 = 0x38;
pub const FSTORE_N: u8 = 0x43;
pub const FSUB: u8 = 0x66;
pub const GETFIELD: u8 = 0xb4;
pub const GETSTATIC: u8 = 0xb2;
pub const GOTO: u8 = 0xa7;
pub const GOTO_W: u8 = 0xc8;
pub const I2B: u8 = 0x91;
pub const I2C: u8 = 0x92;
pub const I2D: u8 = 0x87;
pub const I2F: u8 = 0x86;
pub const I2L: u8 = 0x85;
pub const I2S: u8 = 0x93;
pub const IADD: u8 = 0x60;
pub const IALOAD: u8 = 0x2e;
pub const IAND: u8 = 0x7e;
pub const IASTORE: u8 = 0x4f;
pub const ICONST_N: u8 = 0x02;
pub const IDIV: u8 = 0x6c;
pub const IF_ACM_N: u8 = 0xa5;
pub const IF_ICM_N: u8 = 0x9f;
pub const I_N: u8 = 0x99;
pub const IFNONNULL: u8 = 0xc7;
pub const IFNULL: u8 = 0xc6;
pub const IINC: u8 = 0x84;
pub const ILOAD: u8 = 0x15;
pub const ILOAD_N: u8 = 0x1a;
pub const IMUL: u8 = 0x68;
pub const INEG: u8 = 0x74;
pub const INSTANCEOF: u8 = 0xc1;
pub const INVOKEDYNAMIC: u8 = 0xba;
pub const INVOKEINTERFACE: u8 = 0xb9;
pub const INVOKESPECIAL: u8 = 0xb7;
pub const INVOKESTATIC: u8 = 0xb8;
pub const INVOKEVIRTUAL: u8 = 0xb6;
pub const IOR: u8 = 0x80;
pub const IREM: u8 = 0x70;
pub const IRETURN: u8 = 0xac;
pub const ISHL: u8 = 0x78;
pub const ISHR: u8 = 0x7a;
pub const ISTORE: u8 = 0x36;
pub const ISTORE_N: u8 = 0x3b;
pub const ISUB: u8 = 0x64;
pub const IUSHR: u8 = 0x7c;
pub const IXOR: u8 = 0x82;
pub const JSR: u8 = 0xa8;
pub const JSR_W: u8 = 0xc9;
pub const L2D: u8 = 0x8a;
pub const L2F: u8 = 0x89;
pub const L2I: u8 = 0x88;
pub const LADD: u8 = 0x61;
pub const LALOAD: u8 = 0x2f;
pub const LAND: u8 = 0x7f;
pub const LASTORE: u8 = 0x50;
pub const LCMP: u8 = 0x94;
pub const LCONST_N: u8 = 0x09;
pub const LDC: u8 = 0x12;
pub const LDC_W: u8 = 0x13;
pub const LDC2_W: u8 = 0x14;
pub const LDIV: u8 = 0x6d;
pub const LLOAD: u8 = 0x16;
pub const LLOAD_N: u8 = 0x1e;
pub const LMUL: u8 = 0x69;
pub const LNEG: u8 = 0x75;
pub const LOOKUPSWITCH: u8 = 0xab;
pub const LOR: u8 = 0x81;
pub const LREM: u8 = 0x71;
pub const LRETURN: u8 = 0xad;
pub const LSHL: u8 = 0x79;
pub const LSHR: u8 = 0x7b;
pub const LSTORE: u8 = 0x37;
pub const LSTORE_N: u8 = 0x3f;
pub const LSUB: u8 = 0x65;
pub const LUSHR: u8 = 0x7d;
pub const LXOR: u8 = 0x83;
pub const MONITORENTER: u8 = 0xc2;
pub const MONITOREXIT: u8 = 0xc3;
pub const MULTIANEWARRAY: u8 = 0xc5;
pub const NEW: u8 = 0xbb;
pub const NEWARRAY: u8 = 0xbc;
pub const NOP: u8 = 0x00;
pub const POP: u8 = 0x57;
pub const POP2: u8 = 0x58;
pub const PUTFIELD: u8 = 0xb5;
pub const PUTSTATIC: u8 = 0xb3;
pub const RET: u8 = 0xa9;
pub const RETURN: u8 = 0xb1;
pub const SALOAD: u8 = 0x35;
pub const SASTORE: u8 = 0x56;
pub const SIPUSH: u8 = 0x11;
pub const SWAP: u8 = 0x5f;
pub const TABLESWITCH: u8 = 0xaa;

/// The payload of `lookupswitch`: the padding that aligns the table, the
/// default offset, and the pairs of match value and offset. The numbers are
/// the 32-bit words of the wire.
#[derive(Debug, PartialEq)]
pub struct LookupSwitch {
    pub pad: u8,
    pub default: u32,
    pub pairs: Vec<(u32, u32)>,
}

/// The payload of `tableswitch`: the padding that aligns the table, the
/// default offset, the bounds, and one offset for each value from `low` to
/// `high`. The numbers are the 32-bit words of the wire; the bounds are
/// compared as signed numbers.
#[derive(Debug, PartialEq)]
pub struct TableSwitch {
    pub pad: u8,
    pub default: u32,
    pub low: u32,
    pub high: u32,
    pub offsets: Vec<u32>,
}

/// An instruction with its operand bytes in wire order.
#[derive(Debug, PartialEq)]
pub enum Opcode {
    /// aaload
    Aaload,
    /// aastore
    Aastore,
    /// aconst_null
    AconstNull,
    /// aload index
    Aload(u8),
    /// aload_<n>
    AloadN(u8),
    /// anewarray index1 index2
    Anewarray(u8, u8),
    /// areturn
    Areturn,
    /// arraylength
    Arraylength,
    /// astore index
    Astore(u8),
    /// astore_<n>
    AstoreN(u8),
    /// athrow
    Athrow,
    /// baload
    Baload,
    /// bastore
    Bastore,
    /// bipush byte
    Bipush(u8),
    /// caload
    Caload,
    /// castore
    Castore,
    /// checkcast index1 index2
    Checkcast(u8, u8),
    /// d2f
    D2f,
    /// d2i
    D2i,
    /// d2l
    D2l,
    /// dadd
    Dadd,
    /// daload
    Daload,
    /// dastore
    Dastore,
    /// dcmpl, dcmpg
    DcmOP(u8),
    /// dconst_<d>
    DconstD(u8),
    /// ddiv
    Ddiv,
    /// dload index
    Dload(u8),
    /// dload_<n>
    DloadN(u8),
    /// dmul
    Dmul,
    /// dneg
    Dneg,
    /// drem
    Drem,
    /// dreturn
    Dreturn,
    /// dstore index
    Dstore(u8),
    /// dstore_<n>
    DstoreN(u8),
    /// dsub
    Dsub,
    /// dup
    Dup,
    /// dup_x1
    DupX1,
    /// dup_x2
    DupX2,
    /// dup2
    Dup2,
    /// dup2_x1
    Dup2X1,
    /// dup2_x2
    Dup2X2,
    /// f2d
    F2d,
    /// f2i
    F2i,
    /// f2l
    F2l,
    /// fadd
    Fadd,
    /// faload
    Faload,
    /// fastore
    Fastore,
    /// fcmpl, fcmpg
    FcmOP(u8),
    /// fconst_<f>
    FconstF(u8),
    /// fdiv
    Fdiv,
    /// fload index
    Fload(u8),
    /// fload_<n>
    FloadN(u8),
    /// fmul
    Fmul,
    /// fneg
    Fneg,
    /// frem
    Frem,
    /// freturn
    Freturn,
    /// fstore index
    Fstore(u8),
    /// fstore_<n>
    FstoreN(u8),
    /// fsub
    Fsub,
    /// getfield index1 index2
    Getfield(u8, u8),
    /// getstatic index1 index2
    Getstatic(u8, u8),
    /// goto branch1 branch2
    Goto(u8, u8),
    /// goto_w branch1 branch2 branch3 branch4
    GotoW(u8, u8, u8, u8),
    /// i2b
    I2b,
    /// i2c
    I2c,
    /// i2d
    I2d,
    /// i2f
    I2f,
    /// i2l
    I2l,
    /// i2s
    I2s,
    /// iadd
    Iadd,
    /// iaload
    Iaload,
    /// iand
    Iand,
    /// iastore
    Iastore,
    /// iconst_m1, iconst_<i>
    IconstI(u8),
    /// idiv
    Idiv,
    /// if_acmpeq, if_acmpne branch1 branch2
    IfAcmCond(u8, u8, u8),
    /// if_icmp<cond> branch1 branch2
    IfIcmCond(u8, u8, u8),
    /// if<cond> branch1 branch2
    ICOND(u8, u8, u8),
    /// ifnonnull branch1 branch2
    Ifnonnull(u8, u8),
    /// ifnull branch1 branch2
    Ifnull(u8, u8),
    /// iinc index delta
    Iinc(u8, u8),
    /// iload index
    Iload(u8),
    /// iload_<n>
    IloadN(u8),
    /// imul
    Imul,
    /// ineg
    Ineg,
    /// instanceof index1 index2
    Instanceof(u8, u8),
    /// invokedynamic index1 index2 zero1 zero2
    Invokedynamic(u8, u8, u8, u8),
    /// invokeinterface index1 index2 count zero
    Invokeinterface(u8, u8, u8, u8),
    /// invokespecial index1 index2
    Invokespecial(u8, u8),
    /// invokestatic index1 index2
    Invokestatic(u8, u8),
    /// invokevirtual index1 index2
    Invokevirtual(u8, u8),
    /// ior
    Ior,
    /// irem
    Irem,
    /// ireturn
    Ireturn,
    /// ishl
    Ishl,
    /// ishr
    Ishr,
    /// istore index
    Istore(u8),
    /// istore_<n>
    IstoreN(u8),
    /// isub
    Isub,
    /// iushr
    Iushr,
    /// ixor
    Ixor,
    /// jsr branch1 branch2
    Jsr(u8, u8),
    /// jsr_w branch1 branch2 branch3 branch4
    JsrW(u8, u8, u8, u8),
    /// l2d
    L2d,
    /// l2f
    L2f,
    /// l2i
    L2i,
    /// ladd
    Ladd,
    /// laload
    Laload,
    /// land
    Land,
    /// lastore
    Lastore,
    /// lcmp
    Lcmp,
    /// lconst_<l>
    LconstL(u8),
    /// ldc index
    Ldc(u8),
    /// ldc_w index1 index2
    LdcW(u8, u8),
    /// ldc2_w index1 index2
    Ldc2W(u8, u8),
    /// ldiv
    Ldiv,
    /// lload index
    Lload(u8),
    /// lload_<n>
    LloadN(u8),
    /// lmul
    Lmul,
    /// lneg
    Lneg,
    /// lookupswitch
    Lookupswitch(LookupSwitch),
    /// lor
    Lor,
    /// lrem
    Lrem,
    /// lreturn
    Lreturn,
    /// lshl
    Lshl,
    /// lshr
    Lshr,
    /// lstore index
    Lstore(u8),
    /// lstore_<n>
    LstoreN(u8),
    /// lsub
    Lsub,
    /// lushr
    Lushr,
    /// lxor
    Lxor,
    /// monitorenter
    Monitorenter,
    /// monitorexit
    Monitorexit,
    /// multianewarray index1 index2 dimensions
    Multianewarray(u8, u8, u8),
    /// new index1 index2
    New(u8, u8),
    /// newarray atype
    Newarray(u8),
    /// nop
    Nop,
    /// pop
    Pop,
    /// pop2
    Pop2,
    /// putfield index1 index2
    Putfield(u8, u8),
    /// putstatic index1 index2
    Putstatic(u8, u8),
    /// ret index
    Ret(u8),
    /// return
    Return_,
    /// saload
    Saload,
    /// sastore
    Sastore,
    /// sipush byte1 byte2
    Sipush(u8, u8),
    /// swap
    Swap,
    /// tableswitch
    Tableswitch(TableSwitch),
}

/// The model of an instruction. An instruction of fixed length is its own
/// model; a switch is modelled with sequences in place of vectors.
pub enum OpcodeModel {
    Fixed(Opcode),
    Lookupswitch { pad: u8, default: u32, pairs: Seq<(u32, u32)> },
    Tableswitch { pad: u8, default: u32, low: u32, high: u32, offsets: Seq<u32> },
}

impl View for Opcode {
    type V = OpcodeModel;

    open spec fn view(&self) -> OpcodeModel {
        match self {
            Opcode::Lookupswitch(s) => OpcodeModel::Lookupswitch {
                pad: s.pad,
                default: s.default,
                pairs: s.pairs@,
            },
            Opcode::Tableswitch(s) => OpcodeModel::Tableswitch {
                pad: s.pad,
                default: s.default,
                low: s.low,
                high: s.high,
                offsets: s.offsets@,
            },
            _ => OpcodeModel::Fixed(*self),
        }
    }
}

/// Whether `op` is one of the two instructions of variable length.
pub open spec fn is_switch(op: Opcode) -> bool {
    op is Lookupswitch || op is Tableswitch
}

/// Whether the family index of `op`, if it has one, names a member of its
/// family.
pub open spec fn family_in_range(op: Opcode) -> bool {
    match op {
        Opcode::DcmOP(n)
        | Opcode::DconstD(n)
        | Opcode::FcmOP(n)
        | Opcode::IfAcmCond(n, _, _)
        | Opcode::LconstL(n) => n <= 1,
        Opcode::FconstF(n) => n <= 2,
        Opcode::AloadN(n)
        | Opcode::AstoreN(n)
        | Opcode::DloadN(n)
        | Opcode::DstoreN(n)
        | Opcode::FloadN(n)
        | Opcode::FstoreN(n)
        | Opcode::IloadN(n)
        | Opcode::IstoreN(n)
        | Opcode::LloadN(n)
        | Opcode::LstoreN(n) => n <= 3,
        Opcode::IfIcmCond(n, _, _)
        | Opcode::ICOND(n, _, _) => n <= 5,
        Opcode::IconstI(n) => n <= 6,
        _ => true,
    }
}

/// The opcode of the member with index `n` of the family that starts at
/// `base`.
pub open spec fn member(base: u8, n: u8) -> u8 {
    (base + n) as u8
}

/// The index of the opcode `b` in the family that starts at `base`.
pub open spec fn index_in(base: u8, b: u8) -> u8 {
    (b - base) as u8
}

/// The opcode byte of an instruction of fixed length and its operand bytes
/// behind it. For a family the opcode is the family's first opcode plus the
/// index.
pub open spec fn fixed_bytes(op: Opcode) -> Seq<u8> {
    match op {
        Opcode::Aaload => seq![AALOAD],
        Opcode::Aastore => seq![AASTORE],
        Opcode::AconstNull => seq![ACONST_NULL],
        Opcode::Aload(index) => seq![ALOAD, index],
        Opcode::AloadN(n) => seq![member(ALOAD_N, n)],
        Opcode::Anewarray(index1, index2) => seq![ANEWARRAY, index1, index2],
        Opcode::Areturn => seq![ARETURN],
        Opcode::Arraylength => seq![ARRAYLENGTH],
        Opcode::Astore(index) => seq![ASTORE, index],
        Opcode::AstoreN(n) => seq![member(ASTORE_N, n)],
        Opcode::Athrow => seq![ATHROW],
        Opcode::Baload => seq![BALOAD],
        Opcode::Bastore => seq![BASTORE],
        Opcode::Bipush(byte) => seq![BIPUSH, byte],
        Opcode::Caload => seq![CALOAD],
        Opcode::Castore => seq![CASTORE],
        Opcode::Checkcast(index1, index2) => seq![CHECKCAST, index1, index2],
        Opcode::D2f => seq![D2F],
        Opcode::D2i => seq![D2I],
        Opcode::D2l => seq![D2L],
        Opcode::Dadd => seq![DADD],
        Opcode::Daload => seq![DALOAD],
        Opcode::Dastore => seq![DASTORE],
        Opcode::DcmOP(n) => seq![member(DCM_N, n)],
        Opcode::DconstD(n) => seq![member(DCONST_N, n)],
        Opcode::Ddiv => seq![DDIV],
        Opcode::Dload(index) => seq![DLOAD, index],
        Opcode::DloadN(n) => seq![member(DLOAD_N, n)],
        Opcode::Dmul => seq![DMUL],
        Opcode::Dneg => seq![DNEG],
        Opcode::Drem => seq![DREM],
        Opcode::Dreturn => seq![DRETURN],
        Opcode::Dstore(index) => seq![DSTORE, index],
        Opcode::DstoreN(n) => seq![member(DSTORE_N, n)],
        Opcode::Dsub => seq![DSUB],
        Opcode::Dup => seq![DUP],
        Opcode::DupX1 => seq![DUP_X1],
        Opcode::DupX2 => seq![DUP_X2],
        Opcode::Dup2 => seq![DUP2],
        Opcode::Dup2X1 => seq![DUP2_X1],
        Opcode::Dup2X2 => seq![DUP2_X2],
        Opcode::F2d => seq![F2D],
        Opcode::F2i => seq![F2I],
        Opcode::F2l => seq![F2L],
        Opcode::Fadd => seq![FADD],
        Opcode::Faload => seq![FALOAD],
        Opcode::Fastore => seq![FASTORE],
        Opcode::FcmOP(n) => seq![member(FCM_N, n)],
        Opcode::FconstF(n) => seq![member(FCONST_N, n)],
        Opcode::Fdiv => seq![FDIV],
        Opcode::Fload(index) => seq![FLOAD, index],
        Opcode::FloadN(n) => seq![member(FLOAD_N, n)],
        Opcode::Fmul => seq![FMUL],
        Opcode::Fneg => seq![FNEG],
        Opcode::Frem => seq![FREM],
        Opcode::Freturn => seq![FRETURN],
        Opcode::Fstore(index) => seq![FSTORE, index],
        Opcode::FstoreN(n) => seq![member(FSTORE_N, n)],
        Opcode::Fsub => seq![FSUB],
        Opcode::Getfield(index1, index2) => seq![GETFIELD, index1, index2],
        Opcode::Getstatic(index1, index2) => seq![GETSTATIC, index1, index2],
        Opcode::Goto(branch1, branch2) => seq![GOTO, branch1, branch2],
        Opcode::GotoW(branch1, branch2, branch3, branch4) => {
            seq![GOTO_W, branch1, branch2, branch3, branch4]
        },
        Opcode::I2b => seq![I2B],
        Opcode::I2c => seq![I2C],
        Opcode::I2d => seq![I2D],
        Opcode::I2f => seq![I2F],
        Opcode::I2l => seq![I2L],
        Opcode::I2s => seq![I2S],
        Opcode::Iadd => seq![IADD],
        Opcode::Iaload => seq![IALOAD],
        Opcode::Iand => seq![IAND],
        Opcode::Iastore => seq![IASTORE],
        Opcode::IconstI(n) => seq![member(ICONST_N, n)],
        Opcode::Idiv => seq![IDIV],
        Opcode::IfAcmCond(n, branch1, branch2) => seq![member(IF_ACM_N, n), branch1, branch2],
        Opcode::IfIcmCond(n, branch1, branch2) => seq![member(IF_ICM_N, n), branch1, branch2],
        Opcode::ICOND(n, branch1, branch2) => seq![member(I_N, n), branch1, branch2],
        Opcode::Ifnonnull(branch1, branch2) => seq![IFNONNULL, branch1, branch2],
        Opcode::Ifnull(branch1, branch2) => seq![IFNULL, branch1, branch2],
        Opcode::Iinc(index, delta) => seq![IINC, index, delta],
        Opcode::Iload(index) => seq![ILOAD, index],
        Opcode::IloadN(n) => seq![member(ILOAD_N, n)],
        Opcode::Imul => seq![IMUL],
        Opcode::Ineg => seq![INEG],
        Opcode::Instanceof(index1, index2) => seq![INSTANCEOF, index1, index2],
        Opcode::Invokedynamic(index1, index2, zero1, zero2) => {
            seq![INVOKEDYNAMIC, index1, index2, zero1, zero2]
        },
        Opcode::Invokeinterface(index1, index2, count, zero) => {
            seq![INVOKEINTERFACE, index1, index2, count, zero]
        },
        Opcode::Invokespecial(index1, index2) => seq![INVOKESPECIAL, index1, index2],
        Opcode::Invokestatic(index1, index2) => seq![INVOKESTATIC, index1, index2],
        Opcode::Invokevirtual(index1, index2) => seq![INVOKEVIRTUAL, index1, index2],
        Opcode::Ior => seq![IOR],
        Opcode::Irem => seq![IREM],
        Opcode::Ireturn => seq![IRETURN],
        Opcode::Ishl => seq![ISHL],
        Opcode::Ishr => seq![ISHR],
        Opcode::Istore(index) => seq![ISTORE, index],
        Opcode::IstoreN(n) => seq![member(ISTORE_N, n)],
        Opcode::Isub => seq![ISUB],
        Opcode::Iushr => seq![IUSHR],
        Opcode::Ixor => seq![IXOR],
        Opcode::Jsr(branch1, branch2) => seq![JSR, branch1, branch2],
        Opcode::JsrW(branch1, branch2, branch3, branch4) => {
            seq![JSR_W, branch1, branch2, branch3, branch4]
        },
        Opcode::L2d => seq![L2D],
        Opcode::L2f => seq![L2F],
        Opcode::L2i => seq![L2I],
        Opcode::Ladd => seq![LADD],
        Opcode::Laload => seq![LALOAD],
        Opcode::Land => seq![LAND],
        Opcode::Lastore => seq![LASTORE],
        Opcode::Lcmp => seq![LCMP],
        Opcode::LconstL(n) => seq![member(LCONST_N, n)],
        Opcode::Ldc(index) => seq![LDC, index],
        Opcode::LdcW(index1, index2) => seq![LDC_W, index1, index2],
        Opcode::Ldc2W(index1, index2) => seq![LDC2_W, index1, index2],
        Opcode::Ldiv => seq![LDIV],
        Opcode::Lload(index) => seq![LLOAD, index],
        Opcode::LloadN(n) => seq![member(LLOAD_N, n)],
        Opcode::Lmul => seq![LMUL],
        Opcode::Lneg => seq![LNEG],
        Opcode::Lookupswitch(_) => Seq::empty(),
        Opcode::Lor => seq![LOR],
        Opcode::Lrem => seq![LREM],
        Opcode::Lreturn => seq![LRETURN],
        Opcode::Lshl => seq![LSHL],
        Opcode::Lshr => seq![LSHR],
        Opcode::Lstore(index) => seq![LSTORE, index],
        Opcode::LstoreN(n) => seq![member(LSTORE_N, n)],
        Opcode::Lsub => seq![LSUB],
        Opcode::Lushr => seq![LUSHR],
        Opcode::Lxor => seq![LXOR],
        Opcode::Monitorenter => seq![MONITORENTER],
        Opcode::Monitorexit => seq![MONITOREXIT],
        Opcode::Multianewarray(index1, index2, dimensions) => {
            seq![MULTIANEWARRAY, index1, index2, dimensions]
        },
        Opcode::New(index1, index2) => seq![NEW, index1, index2],
        Opcode::Newarray(atype) => seq![NEWARRAY, atype],
        Opcode::Nop => seq![NOP],
        Opcode::Pop => seq![POP],
        Opcode::Pop2 => seq![POP2],
        Opcode::Putfield(index1, index2) => seq![PUTFIELD, index1, index2],
        Opcode::Putstatic(index1, index2) => seq![PUTSTATIC, index1, index2],
        Opcode::Ret(index) => seq![RET, index],
        Opcode::Return_ => seq![RETURN],
        Opcode::Saload => seq![SALOAD],
        Opcode::Sastore => seq![SASTORE],
        Opcode::Sipush(byte1, byte2) => seq![SIPUSH, byte1, byte2],
        Opcode::Swap => seq![SWAP],
        Opcode::Tableswitch(_) => Seq::empty(),
    }
}

/// The number of operand bytes behind the opcode byte `b`; nothing for the
/// switch opcodes and for bytes that are no opcode.
pub open spec fn operand_count(b: u8) -> Option<int> {
    if b <= 0x0f {
        Some(0)  // nop, the constants
    } else if b == BIPUSH || b == LDC {
        Some(1)
    } else if b == SIPUSH || b == LDC_W || b == LDC2_W {
        Some(2)
    } else if b <= ALOAD {
        Some(1)  // the loads with an index
    } else if b <= SALOAD {
        Some(0)  // the short loads, the array loads
    } else if b <= ASTORE {
        Some(1)  // the stores with an index
    } else if b <= LXOR {
        Some(0)  // the short stores, the array stores, stack and arithmetic
    } else if b == IINC {
        Some(2)
    } else if b <= 0x98 {
        Some(0)  // conversions and comparisons
    } else if b <= JSR {
        Some(2)  // the branches
    } else if b == RET {
        Some(1)
    } else if b == TABLESWITCH || b == LOOKUPSWITCH {
        None
    } else if b <= RETURN {
        Some(0)  // the returns
    } else if b <= INVOKESTATIC {
        Some(2)  // field access and the plain invocations
    } else if b == INVOKEINTERFACE || b == INVOKEDYNAMIC {
        Some(4)
    } else if b == NEWARRAY {
        Some(1)
    } else if b == NEW || b == ANEWARRAY || b == CHECKCAST || b == INSTANCEOF {
        Some(2)
    } else if b == ARRAYLENGTH || b == ATHROW || b == MONITORENTER || b == MONITOREXIT {
        Some(0)
    } else if b == MULTIANEWARRAY {
        Some(3)
    } else if b == IFNULL || b == IFNONNULL {
        Some(2)
    } else if b == GOTO_W || b == JSR_W {
        Some(4)
    } else {
        None
    }
}

/// The instruction of fixed length with opcode byte `b` and operand bytes `o`.
pub open spec fn fixed_from(b: u8, o: Seq<u8>) -> Opcode {
    match b {
        AALOAD => Opcode::Aaload,
        AASTORE => Opcode::Aastore,
        ACONST_NULL => Opcode::AconstNull,
        ALOAD => Opcode::Aload(o[0]),
        n if ALOAD_N <= n && n <= ALOAD_N + 3 => Opcode::AloadN(index_in(ALOAD_N, n)),
        ANEWARRAY => Opcode::Anewarray(o[0], o[1]),
        ARETURN => Opcode::Areturn,
        ARRAYLENGTH => Opcode::Arraylength,
        ASTORE => Opcode::Astore(o[0]),
        n if ASTORE_N <= n && n <= ASTORE_N + 3 => Opcode::AstoreN(index_in(ASTORE_N, n)),
        ATHROW => Opcode::Athrow,
        BALOAD => Opcode::Baload,
        BASTORE => Opcode::Bastore,
        BIPUSH => Opcode::Bipush(o[0]),
        CALOAD => Opcode::Caload,
        CASTORE => Opcode::Castore,
        CHECKCAST => Opcode::Checkcast(o[0], o[1]),
        D2F => Opcode::D2f,
        D2I => Opcode::D2i,
        D2L => Opcode::D2l,
        DADD => Opcode::Dadd,
        DALOAD => Opcode::Daload,
        DASTORE => Opcode::Dastore,
        n if DCM_N <= n && n <= DCM_N + 1 => Opcode::DcmOP(index_in(DCM_N, n)),
        n if DCONST_N <= n && n <= DCONST_N + 1 => Opcode::DconstD(index_in(DCONST_N, n)),
        DDIV => Opcode::Ddiv,
        DLOAD => Opcode::Dload(o[0]),
        n if DLOAD_N <= n && n <= DLOAD_N + 3 => Opcode::DloadN(index_in(DLOAD_N, n)),
        DMUL => Opcode::Dmul,
        DNEG => Opcode::Dneg,
        DREM => Opcode::Drem,
        DRETURN => Opcode::Dreturn,
        DSTORE => Opcode::Dstore(o[0]),
        n if DSTORE_N <= n && n <= DSTORE_N + 3 => Opcode::DstoreN(index_in(DSTORE_N, n)),
        DSUB => Opcode::Dsub,
        DUP => Opcode::Dup,
        DUP_X1 => Opcode::DupX1,
        DUP_X2 => Opcode::DupX2,
        DUP2 => Opcode::Dup2,
        DUP2_X1 => Opcode::Dup2X1,
        DUP2_X2 => Opcode::Dup2X2,
        F2D => Opcode::F2d,
        F2I => Opcode::F2i,
        F2L => Opcode::F2l,
        FADD => Opcode::Fadd,
        FALOAD => Opcode::Faload,
        FASTORE => Opcode::Fastore,
        n if FCM_N <= n && n <= FCM_N + 1 => Opcode::FcmOP(index_in(FCM_N, n)),
        n if FCONST_N <= n && n <= FCONST_N + 2 => Opcode::FconstF(index_in(FCONST_N, n)),
        FDIV => Opcode::Fdiv,
        FLOAD => Opcode::Fload(o[0]),
        n if FLOAD_N <= n && n <= FLOAD_N + 3 => Opcode::FloadN(index_in(FLOAD_N, n)),
        FMUL => Opcode::Fmul,
        FNEG => Opcode::Fneg,
        FREM => Opcode::Frem,
        FRETURN => Opcode::Freturn,
        FSTORE => Opcode::Fstore(o[0]),
        n if FSTORE_N <= n && n <= FSTORE_N + 3 => Opcode::FstoreN(index_in(FSTORE_N, n)),
        FSUB => Opcode::Fsub,
        GETFIELD => Opcode::Getfield(o[0], o[1]),
        GETSTATIC => Opcode::Getstatic(o[0], o[1]),
        GOTO => Opcode::Goto(o[0], o[1]),
        GOTO_W => Opcode::GotoW(o[0], o[1], o[2], o[3]),
        I2B => Opcode::I2b,
        I2C => Opcode::I2c,
        I2D => Opcode::I2d,
        I2F => Opcode::I2f,
        I2L => Opcode::I2l,
        I2S => Opcode::I2s,
        IADD => Opcode::Iadd,
        IALOAD => Opcode::Iaload,
        IAND => Opcode::Iand,
        IASTORE => Opcode::Iastore,
        n if ICONST_N <= n && n <= ICONST_N + 6 => Opcode::IconstI(index_in(ICONST_N, n)),
        IDIV => Opcode::Idiv,
        n if IF_ACM_N <= n && n <= IF_ACM_N + 1 => {
            Opcode::IfAcmCond(index_in(IF_ACM_N, n), o[0], o[1])
        },
        n if IF_ICM_N <= n && n <= IF_ICM_N + 5 => {
            Opcode::IfIcmCond(index_in(IF_ICM_N, n), o[0], o[1])
        },
        n if I_N <= n && n <= I_N + 5 => Opcode::ICOND(index_in(I_N, n), o[0], o[1]),
        IFNONNULL => Opcode::Ifnonnull(o[0], o[1]),
        IFNULL => Opcode::Ifnull(o[0], o[1]),
        IINC => Opcode::Iinc(o[0], o[1]),
        ILOAD => Opcode::Iload(o[0]),
        n if ILOAD_N <= n && n <= ILOAD_N + 3 => Opcode::IloadN(index_in(ILOAD_N, n)),
        IMUL => Opcode::Imul,
        INEG => Opcode::Ineg,
        INSTANCEOF => Opcode::Instanceof(o[0], o[1]),
        INVOKEDYNAMIC => Opcode::Invokedynamic(o[0], o[1], o[2], o[3]),
        INVOKEINTERFACE => Opcode::Invokeinterface(o[0], o[1], o[2], o[3]),
        INVOKESPECIAL => Opcode::Invokespecial(o[0], o[1]),
        INVOKESTATIC => Opcode::Invokestatic(o[0], o[1]),
        INVOKEVIRTUAL => Opcode::Invokevirtual(o[0], o[1]),
        IOR => Opcode::Ior,
        IREM => Opcode::Irem,
        IRETURN => Opcode::Ireturn,
        ISHL => Opcode::Ishl,
        ISHR => Opcode::Ishr,
        ISTORE => Opcode::Istore(o[0]),
        n if ISTORE_N <= n && n <= ISTORE_N + 3 => Opcode::IstoreN(index_in(ISTORE_N, n)),
        ISUB => Opcode::Isub,
        IUSHR => Opcode::Iushr,
        IXOR => Opcode::Ixor,
        JSR => Opcode::Jsr(o[0], o[1]),
        JSR_W => Opcode::JsrW(o[0], o[1], o[2], o[3]),
        L2D => Opcode::L2d,
        L2F => Opcode::L2f,
        L2I => Opcode::L2i,
        LADD => Opcode::Ladd,
        LALOAD => Opcode::Laload,
        LAND => Opcode::Land,
        LASTORE => Opcode::Lastore,
        LCMP => Opcode::Lcmp,
        n if LCONST_N <= n && n <= LCONST_N + 1 => Opcode::LconstL(index_in(LCONST_N, n)),
        LDC => Opcode::Ldc(o[0]),
        LDC_W => Opcode::LdcW(o[0], o[1]),
        LDC2_W => Opcode::Ldc2W(o[0], o[1]),
        LDIV => Opcode::Ldiv,
        LLOAD => Opcode::Lload(o[0]),
        n if LLOAD_N <= n && n <= LLOAD_N + 3 => Opcode::LloadN(index_in(LLOAD_N, n)),
        LMUL => Opcode::Lmul,
        LNEG => Opcode::Lneg,
        LOR => Opcode::Lor,
        LREM => Opcode::Lrem,
        LRETURN => Opcode::Lreturn,
        LSHL => Opcode::Lshl,
        LSHR => Opcode::Lshr,
        LSTORE => Opcode::Lstore(o[0]),
        n if LSTORE_N <= n && n <= LSTORE_N + 3 => Opcode::LstoreN(index_in(LSTORE_N, n)),
        LSUB => Opcode::Lsub,
        LUSHR => Opcode::Lushr,
        LXOR => Opcode::Lxor,
        MONITORENTER => Opcode::Monitorenter,
        MONITOREXIT => Opcode::Monitorexit,
        MULTIANEWARRAY => Opcode::Multianewarray(o[0], o[1], o[2]),
        NEW => Opcode::New(o[0], o[1]),
        NEWARRAY => Opcode::Newarray(o[0]),
        POP => Opcode::Pop,
        POP2 => Opcode::Pop2,
        PUTFIELD => Opcode::Putfield(o[0], o[1]),
        PUTSTATIC => Opcode::Putstatic(o[0], o[1]),
        RET => Opcode::Ret(o[0]),
        RETURN => Opcode::Return_,
        SALOAD => Opcode::Saload,
        SASTORE => Opcode::Sastore,
        SIPUSH => Opcode::Sipush(o[0], o[1]),
        SWAP => Opcode::Swap,
        _ => Opcode::Nop,
    }
}

/// The number that the word `x` stands for when read as a signed number.
pub open spec fn signed(x: u32) -> int {
    if x >= 0x8000_0000 {
        x - 0x1_0000_0000
    } else {
        x as int
    }
}

/// The number of offsets in the table of a `tableswitch` with these bounds.
pub open spec fn table_len(low: u32, high: u32) -> int {
    if signed(low) <= signed(high) {
        signed(high) - signed(low) + 1
    } else {
        0
    }
}

/// The number of padding bytes behind a switch opcode that stands at offset
/// `pos` of its method's code: as many as bring the next byte to a multiple
/// of four.
pub open spec fn switch_pad(pos: int) -> int {
    3 - pos % 4
}

/// `n` zero bytes.
pub open spec fn zeros(n: int) -> Seq<u8> {
    Seq::new(n as nat, |i: int| 0u8)
}

impl Wire for OpcodeModel {
    open spec fn encodable(self) -> bool {
        match self {
            OpcodeModel::Fixed(op) => !is_switch(op) && family_in_range(op),
            OpcodeModel::Lookupswitch { pad, default, pairs } => {
                pad <= 3 && pairs.len() <= u32::MAX
            },
            OpcodeModel::Tableswitch { pad, default, low, high, offsets } => pad <= 3
                && offsets.len() == table_len(low, high),
        }
    }

    open spec fn wire(self) -> Seq<u8> {
        match self {
            OpcodeModel::Fixed(op) => fixed_bytes(op),
            OpcodeModel::Lookupswitch { pad, default, pairs } => seq![LOOKUPSWITCH] + zeros(
                pad as int,
            ) + u32_bytes(default) + u32_bytes(pairs.len() as u32) + wire_all(pairs),
            OpcodeModel::Tableswitch { pad, default, low, high, offsets } => seq![TABLESWITCH]
                + zeros(pad as int) + u32_bytes(default) + u32_bytes(low) + u32_bytes(high)
                + wire_all(offsets),
        }
    }
}

/// The instruction that stands in `data` at `pos`, where offset 0 of `data`
/// is the start of the method's code, and the position behind it.
pub open spec fn parse_instr(data: Seq<u8>, pos: int) -> Parsed<OpcodeModel> {
    if !has_bytes(data, pos, 1) {
        Err(ErrorModel::TruncatedInput)
    } else if data[pos] == LOOKUPSWITCH {
        let pad = switch_pad(pos);
        let p = pos + 1 + pad;
        if !has_bytes(data, p, 8) {
            Err(ErrorModel::TruncatedInput)
        } else {
            match parse_n::<(u32, u32)>(data, p + 8, u32_at(data, p + 4) as int) {
                Ok((pairs, q)) => Ok(
                    (
                        OpcodeModel::Lookupswitch {
                            pad: pad as u8,
                            default: u32_at(data, p),
                            pairs,
                        },
                        q,
                    ),
                ),
                Err(e) => Err(e),
            }
        }
    } else if data[pos] == TABLESWITCH {
        let pad = switch_pad(pos);
        let p = pos + 1 + pad;
        if !has_bytes(data, p, 12) {
            Err(ErrorModel::TruncatedInput)
        } else {
            let low = u32_at(data, p + 4);
            let high = u32_at(data, p + 8);
            match parse_n::<u32>(data, p + 12, table_len(low, high)) {
                Ok((offsets, q)) => Ok(
                    (
                        OpcodeModel::Tableswitch {
                            pad: pad as u8,
                            default: u32_at(data, p),
                            low,
                            high,
                            offsets,
                        },
                        q,
                    ),
                ),
                Err(e) => Err(e),
            }
        }
    } else {
        match operand_count(data[pos]) {
            None => Err(ErrorModel::UnknownOpcode(data[pos])),
            Some(n) => if has_bytes(data, pos + 1, n) {
                Ok(
                    (
                        OpcodeModel::Fixed(
                            fixed_from(data[pos], data.subrange(pos + 1, pos + 1 + n)),
                        ),
                        pos + 1 + n,
                    ),
                )
            } else {
                Err(ErrorModel::TruncatedInput)
            },
        }
    }
}

/// Whether the instruction may stand at offset `pos` of a method's code: a
/// switch must have the padding that this offset asks for.
pub open spec fn aligned_at(m: OpcodeModel, pos: int) -> bool {
    match m {
        OpcodeModel::Fixed(_) => true,
        OpcodeModel::Lookupswitch { pad, .. } => pad == switch_pad(pos),
        OpcodeModel::Tableswitch { pad, .. } => pad == switch_pad(pos),
    }
}

impl Parse for OpcodeModel {
    open spec fn parse(data: Seq<u8>, pos: int) -> Parsed<OpcodeModel> {
        parse_instr(data, pos)
    }

    /// An instruction of fixed length decodes to itself wherever it stands;
    /// a switch does so only where its padding fits: see `aligned_at`.
    open spec fn valid(self) -> bool {
        self is Fixed
    }

    proof fn lemma_parse(self, data: Seq<u8>, pos: int) {
        lemma_parse_instr(self, data, pos);
    }
}

/// The opcode byte of an instruction of fixed length determines the number
/// of its operand bytes, and opcode and operands determine the instruction.
#[verifier::rlimit(100)]
#[verifier::spinoff_prover]
pub proof fn lemma_fixed_from_bytes(op: Opcode)
    requires
        !is_switch(op),
        family_in_range(op),
    ensures
        fixed_bytes(op).len() >= 1,
        fixed_bytes(op)[0] != LOOKUPSWITCH,
        fixed_bytes(op)[0] != TABLESWITCH,
        operand_count(fixed_bytes(op)[0]) == Some(fixed_bytes(op).len() - 1),
        fixed_from(fixed_bytes(op)[0], fixed_bytes(op).subrange(1, fixed_bytes(op).len() as int))
            == op,
{
    let w = fixed_bytes(op);
    let o = w.subrange(1, w.len() as int);
    if w.len() >= 2 {
        assert(o[0] == w[1]);
    }
    if w.len() >= 3 {
        assert(o[1] == w[2]);
    }
    if w.len() >= 4 {
        assert(o[2] == w[3]);
    }
    if w.len() >= 5 {
        assert(o[3] == w[4]);
    }
}

/// The encoding of an instruction holds its opcode byte at least.
pub proof fn lemma_wire_nonempty(m: OpcodeModel)
    requires
        m.encodable(),
    ensures
        m.wire().len() >= 1,
{
    if let OpcodeModel::Fixed(op) = m {
        lemma_fixed_from_bytes(op);
    }
}

/// Decoding where the encoding of an instruction stands, at an offset that
/// suits its padding, gives the instruction back; where the buffer ends
/// before the encoding does, decoding fails for want of input.
pub proof fn lemma_parse_instr(m: OpcodeModel, data: Seq<u8>, pos: int)
    requires
        m.encodable(),
        aligned_at(m, pos),
        0 <= pos <= data.len(),
        carries(data, pos, m.wire()),
    ensures
        parse_instr(data, pos) == expected(m, data, pos, m.wire()),
{
    match m {
        OpcodeModel::Fixed(op) => {
            lemma_fixed_from_bytes(op);
            let w = fixed_bytes(op);
            if pos < data.len() {
                assert(data[pos + 0] == w[0]);
                if pos + w.len() <= data.len() {
                    let got = data.subrange(pos + 1, pos + w.len());
                    let want = w.subrange(1, w.len() as int);
                    assert forall|i: int| 0 <= i < got.len() implies #[trigger] got[i] == want[i] by {
                        assert(data[pos + (i + 1)] == w[i + 1]);
                    }
                    assert(got =~= want);
                }
            }
        },
        OpcodeModel::Lookupswitch { pad, default, pairs } => {
            let head = seq![LOOKUPSWITCH] + zeros(pad as int);
            let n = u32_bytes(pairs.len() as u32);
            assert(m.wire() == ((head + u32_bytes(default)) + n) + wire_all(pairs));
            lemma_carries_split(data, pos, (head + u32_bytes(default)) + n, wire_all(pairs));
            lemma_carries_split(data, pos, head + u32_bytes(default), n);
            lemma_carries_split(data, pos, head, u32_bytes(default));
            let p = pos + 1 + pad;
            if pos < data.len() {
                assert(data[pos + 0] == head[0]);
            }
            if has_bytes(data, p, 8) {
                lemma_u32_at_bytes(data, p, default);
                lemma_u32_at_bytes(data, p + 4, pairs.len() as u32);
                lemma_tuples_valid(pairs);
                lemma_parse_n::<(u32, u32)>(pairs, data, p + 8);
            }
        },
        OpcodeModel::Tableswitch { pad, default, low, high, offsets } => {
            let head = seq![TABLESWITCH] + zeros(pad as int);
            assert(m.wire() == (((head + u32_bytes(default)) + u32_bytes(low)) + u32_bytes(high))
                + wire_all(offsets));
            lemma_carries_split(
                data,
                pos,
                ((head + u32_bytes(default)) + u32_bytes(low)) + u32_bytes(high),
                wire_all(offsets),
            );
            lemma_carries_split(data, pos, (head + u32_bytes(default)) + u32_bytes(low), u32_bytes(high));
            lemma_carries_split(data, pos, head + u32_bytes(default), u32_bytes(low));
            lemma_carries_split(data, pos, head, u32_bytes(default));
            let p = pos + 1 + pad;
            if pos < data.len() {
                assert(data[pos + 0] == head[0]);
            }
            if has_bytes(data, p, 12) {
                lemma_u32_at_bytes(data, p, default);
                lemma_u32_at_bytes(data, p + 4, low);
                lemma_u32_at_bytes(data, p + 8, high);
                lemma_words_valid(offsets);
                lemma_parse_n::<u32>(offsets, data, p + 12);
            }
        },
    }
}

/// Decoding the encoding of an instruction of fixed length, read from the
/// first byte of a buffer that holds nothing else, gives the instruction
/// back and ends behind its last byte.
pub proof fn lemma_decode_encode_fixed(op: Opcode)
    requires
        !is_switch(op),
        family_in_range(op),
    ensures
        parse_instr(fixed_bytes(op), 0) == Ok::<(OpcodeModel, int), ErrorModel>(
            (OpcodeModel::Fixed(op), fixed_bytes(op).len() as int),
        ),
{
    lemma_parse_instr(OpcodeModel::Fixed(op), fixed_bytes(op), 0);
}

proof fn lemma_tuples_valid(s: Seq<(u32, u32)>)
    ensures
        all_encodable(s),
        crate::wire::all_valid(s),
{
}

proof fn lemma_words_valid(s: Seq<u32>)
    ensures
        all_encodable(s),
        crate::wire::all_valid(s),
{
}

impl Clone for LookupSwitch {
    /// A payload with the same numbers and pairs.
    fn clone(&self) -> (copy: LookupSwitch)
        ensures
            copy.pad == self.pad,
            copy.default == self.default,
            copy.pairs@ == self.pairs@,
    {
        let mut pairs: Vec<(u32, u32)> = Vec::new();
        let mut i: usize = 0;
        while i < self.pairs.len()
            invariant
                i <= self.pairs.len(),
                pairs@ == self.pairs@.take(i as int),
            decreases self.pairs.len() - i,
        {
            let pair = (self.pairs[i].0, self.pairs[i].1);
            pairs.push(pair);
            i += 1;
        }
        proof {
            assert(self.pairs@.take(i as int) =~= self.pairs@);
        }
        LookupSwitch { pad: self.pad, default: self.default, pairs }
    }
}

impl Clone for TableSwitch {
    /// A payload with the same numbers and offsets.
    fn clone(&self) -> (copy: TableSwitch)
        ensures
            copy.pad == self.pad,
            copy.default == self.default,
            copy.low == self.low,
            copy.high == self.high,
            copy.offsets@ == self.offsets@,
    {
        TableSwitch {
            pad: self.pad,
            default: self.default,
            low: self.low,
            high: self.high,
            offsets: self.offsets.clone(),
        }
    }
}

impl Clone for Opcode {
    /// An instruction with the same model.
    #[verifier::rlimit(100)]
    #[verifier::spinoff_prover]
    fn clone(&self) -> (copy: Opcode)
        ensures
            copy@ == self@,
    {
        match self {
            Opcode::Aaload => Opcode::Aaload,
            Opcode::Aastore => Opcode::Aastore,
            Opcode::AconstNull => Opcode::AconstNull,
            Opcode::Aload(index) => Opcode::Aload(*index),
            Opcode::AloadN(n) => Opcode::AloadN(*n),
            Opcode::Anewarray(index1, index2) => Opcode::Anewarray(*index1, *index2),
            Opcode::Areturn => Opcode::Areturn,
            Opcode::Arraylength => Opcode::Arraylength,
            Opcode::Astore(index) => Opcode::Astore(*index),
            Opcode::AstoreN(n) => Opcode::AstoreN(*n),
            Opcode::Athrow => Opcode::Athrow,
            Opcode::Baload => Opcode::Baload,
            Opcode::Bastore => Opcode::Bastore,
            Opcode::Bipush(byte) => Opcode::Bipush(*byte),
            Opcode::Caload => Opcode::Caload,
            Opcode::Castore => Opcode::Castore,
            Opcode::Checkcast(index1, index2) => Opcode::Checkcast(*index1, *index2),
            Opcode::D2f => Opcode::D2f,
            Opcode::D2i => Opcode::D2i,
            Opcode::D2l => Opcode::D2l,
            Opcode::Dadd => Opcode::Dadd,
            Opcode::Daload => Opcode::Daload,
            Opcode::Dastore => Opcode::Dastore,
            Opcode::DcmOP(n) => Opcode::DcmOP(*n),
            Opcode::DconstD(n) => Opcode::DconstD(*n),
            Opcode::Ddiv => Opcode::Ddiv,
            Opcode::Dload(index) => Opcode::Dload(*index),
            Opcode::DloadN(n) => Opcode::DloadN(*n),
            Opcode::Dmul => Opcode::Dmul,
            Opcode::Dneg => Opcode::Dneg,
            Opcode::Drem => Opcode::Drem,
            Opcode::Dreturn => Opcode::Dreturn,
            Opcode::Dstore(index) => Opcode::Dstore(*index),
            Opcode::DstoreN(n) => Opcode::DstoreN(*n),
            Opcode::Dsub => Opcode::Dsub,
            Opcode::Dup => Opcode::Dup,
            Opcode::DupX1 => Opcode::DupX1,
            Opcode::DupX2 => Opcode::DupX2,
            Opcode::Dup2 => Opcode::Dup2,
            Opcode::Dup2X1 => Opcode::Dup2X1,
            Opcode::Dup2X2 => Opcode::Dup2X2,
            Opcode::F2d => Opcode::F2d,
            Opcode::F2i => Opcode::F2i,
            Opcode::F2l => Opcode::F2l,
            Opcode::Fadd => Opcode::Fadd,
            Opcode::Faload => Opcode::Faload,
            Opcode::Fastore => Opcode::Fastore,
            Opcode::FcmOP(n) => Opcode::FcmOP(*n),
            Opcode::FconstF(n) => Opcode::FconstF(*n),
            Opcode::Fdiv => Opcode::Fdiv,
            Opcode::Fload(index) => Opcode::Fload(*index),
            Opcode::FloadN(n) => Opcode::FloadN(*n),
            Opcode::Fmul => Opcode::Fmul,
            Opcode::Fneg => Opcode::Fneg,
            Opcode::Frem => Opcode::Frem,
            Opcode::Freturn => Opcode::Freturn,
            Opcode::Fstore(index) => Opcode::Fstore(*index),
            Opcode::FstoreN(n) => Opcode::FstoreN(*n),
            Opcode::Fsub => Opcode::Fsub,
            Opcode::Getfield(index1, index2) => Opcode::Getfield(*index1, *index2),
            Opcode::Getstatic(index1, index2) => Opcode::Getstatic(*index1, *index2),
            Opcode::Goto(branch1, branch2) => Opcode::Goto(*branch1, *branch2),
            Opcode::GotoW(branch1, branch2, branch3, branch4) => {
                Opcode::GotoW(*branch1, *branch2, *branch3, *branch4)
            },
            Opcode::I2b => Opcode::I2b,
            Opcode::I2c => Opcode::I2c,
            Opcode::I2d => Opcode::I2d,
            Opcode::I2f => Opcode::I2f,
            Opcode::I2l => Opcode::I2l,
            Opcode::I2s => Opcode::I2s,
            Opcode::Iadd => Opcode::Iadd,
            Opcode::Iaload => Opcode::Iaload,
            Opcode::Iand => Opcode::Iand,
            Opcode::Iastore => Opcode::Iastore,
            Opcode::IconstI(n) => Opcode::IconstI(*n),
            Opcode::Idiv => Opcode::Idiv,
            Opcode::IfAcmCond(n, branch1, branch2) => Opcode::IfAcmCond(*n, *branch1, *branch2),
            Opcode::IfIcmCond(n, branch1, branch2) => Opcode::IfIcmCond(*n, *branch1, *branch2),
            Opcode::ICOND(n, branch1, branch2) => Opcode::ICOND(*n, *branch1, *branch2),
            Opcode::Ifnonnull(branch1, branch2) => Opcode::Ifnonnull(*branch1, *branch2),
            Opcode::Ifnull(branch1, branch2) => Opcode::Ifnull(*branch1, *branch2),
            Opcode::Iinc(index, delta) => Opcode::Iinc(*index, *delta),
            Opcode::Iload(index) => Opcode::Iload(*index),
            Opcode::IloadN(n) => Opcode::IloadN(*n),
            Opcode::Imul => Opcode::Imul,
            Opcode::Ineg => Opcode::Ineg,
            Opcode::Instanceof(index1, index2) => Opcode::Instanceof(*index1, *index2),
            Opcode::Invokedynamic(index1, index2, zero1, zero2) => {
                Opcode::Invokedynamic(*index1, *index2, *zero1, *zero2)
            },
            Opcode::Invokeinterface(index1, index2, count, zero) => {
                Opcode::Invokeinterface(*index1, *index2, *count, *zero)
            },
            Opcode::Invokespecial(index1, index2) => Opcode::Invokespecial(*index1, *index2),
            Opcode::Invokestatic(index1, index2) => Opcode::Invokestatic(*index1, *index2),
            Opcode::Invokevirtual(index1, index2) => Opcode::Invokevirtual(*index1, *index2),
            Opcode::Ior => Opcode::Ior,
            Opcode::Irem => Opcode::Irem,
            Opcode::Ireturn => Opcode::Ireturn,
            Opcode::Ishl => Opcode::Ishl,
            Opcode::Ishr => Opcode::Ishr,
            Opcode::Istore(index) => Opcode::Istore(*index),
            Opcode::IstoreN(n) => Opcode::IstoreN(*n),
            Opcode::Isub => Opcode::Isub,
            Opcode::Iushr => Opcode::Iushr,
            Opcode::Ixor => Opcode::Ixor,
            Opcode::Jsr(branch1, branch2) => Opcode::Jsr(*branch1, *branch2),
            Opcode::JsrW(branch1, branch2, branch3, branch4) => {
                Opcode::JsrW(*branch1, *branch2, *branch3, *branch4)
            },
            Opcode::L2d => Opcode::L2d,
            Opcode::L2f => Opcode::L2f,
            Opcode::L2i => Opcode::L2i,
            Opcode::Ladd => Opcode::Ladd,
            Opcode::Laload => Opcode::Laload,
            Opcode::Land => Opcode::Land,
            Opcode::Lastore => Opcode::Lastore,
            Opcode::Lcmp => Opcode::Lcmp,
            Opcode::LconstL(n) => Opcode::LconstL(*n),
            Opcode::Ldc(index) => Opcode::Ldc(*index),
            Opcode::LdcW(index1, index2) => Opcode::LdcW(*index1, *index2),
            Opcode::Ldc2W(index1, index2) => Opcode::Ldc2W(*index1, *index2),
            Opcode::Ldiv => Opcode::Ldiv,
            Opcode::Lload(index) => Opcode::Lload(*index),
            Opcode::LloadN(n) => Opcode::LloadN(*n),
            Opcode::Lmul => Opcode::Lmul,
            Opcode::Lneg => Opcode::Lneg,
            Opcode::Lookupswitch(s) => Opcode::Lookupswitch(s.clone()),
            Opcode::Lor => Opcode::Lor,
            Opcode::Lrem => Opcode::Lrem,
            Opcode::Lreturn => Opcode::Lreturn,
            Opcode::Lshl => Opcode::Lshl,
            Opcode::Lshr => Opcode::Lshr,
            Opcode::Lstore(index) => Opcode::Lstore(*index),
            Opcode::LstoreN(n) => Opcode::LstoreN(*n),
            Opcode::Lsub => Opcode::Lsub,
            Opcode::Lushr => Opcode::Lushr,
            Opcode::Lxor => Opcode::Lxor,
            Opcode::Monitorenter => Opcode::Monitorenter,
            Opcode::Monitorexit => Opcode::Monitorexit,
            Opcode::Multianewarray(index1, index2, dimensions) => {
                Opcode::Multianewarray(*index1, *index2, *dimensions)
            },
            Opcode::New(index1, index2) => Opcode::New(*index1, *index2),
            Opcode::Newarray(atype) => Opcode::Newarray(*atype),
            Opcode::Nop => Opcode::Nop,
            Opcode::Pop => Opcode::Pop,
            Opcode::Pop2 => Opcode::Pop2,
            Opcode::Putfield(index1, index2) => Opcode::Putfield(*index1, *index2),
            Opcode::Putstatic(index1, index2) => Opcode::Putstatic(*index1, *index2),
            Opcode::Ret(index) => Opcode::Ret(*index),
            Opcode::Return_ => Opcode::Return_,
            Opcode::Saload => Opcode::Saload,
            Opcode::Sastore => Opcode::Sastore,
            Opcode::Sipush(byte1, byte2) => Opcode::Sipush(*byte1, *byte2),
            Opcode::Swap => Opcode::Swap,
            Opcode::Tableswitch(s) => Opcode::Tableswitch(s.clone()),
        }
    }
}

impl ToJvmBytecode for Opcode {
    /// The opcode byte and the operand bytes of the instruction. Fails where
    /// a family index is out of its family, a switch has more than three
    /// padding bytes, or its table has not the length that its header says.
    #[verifier::rlimit(100)]
    #[verifier::spinoff_prover]
    fn to_jvm_bytecode(&self) -> (r: Result<Vec<u8>, Error>) {
        let mut bytecode: Vec<u8> = Vec::new();
        match self {
            Opcode::Aaload => bytecode.push(AALOAD),
            Opcode::Aastore => bytecode.push(AASTORE),
            Opcode::AconstNull => bytecode.push(ACONST_NULL),
            Opcode::Aload(index) => {
                bytecode.push(ALOAD);
                bytecode.push(*index);
            },
            Opcode::AloadN(n) => {
                if *n > 3 {
                    return Err(Error::IndexOutOfRange);
                }
                bytecode.push(ALOAD_N + *n);
            },
            Opcode::Anewarray(index1, index2) => {
                bytecode.push(ANEWARRAY);
                bytecode.push(*index1);
                bytecode.push(*index2);
            },
            Opcode::Areturn => bytecode.push(ARETURN),
            Opcode::Arraylength => bytecode.push(ARRAYLENGTH),
            Opcode::Astore(index) => {
                bytecode.push(ASTORE);
                bytecode.push(*index);
            },
            Opcode::AstoreN(n) => {
                if *n > 3 {
                    return Err(Error::IndexOutOfRange);
                }
                bytecode.push(ASTORE_N + *n);
            },
            Opcode::Athrow => bytecode.push(ATHROW),
            Opcode::Baload => bytecode.push(BALOAD),
            Opcode::Bastore => bytecode.push(BASTORE),
            Opcode::Bipush(byte) => {
                bytecode.push(BIPUSH);
                bytecode.push(*byte);
            },
            Opcode::Caload => bytecode.push(CALOAD),
            Opcode::Castore => bytecode.push(CASTORE),
            Opcode::Checkcast(index1, index2) => {
                bytecode.push(CHECKCAST);
                bytecode.push(*index1);
                bytecode.push(*index2);
            },
            Opcode::D2f => bytecode.push(D2F),
            Opcode::D2i => bytecode.push(D2I),
            Opcode::D2l => bytecode.push(D2L),
            Opcode::Dadd => bytecode.push(DADD),
            Opcode::Daload => bytecode.push(DALOAD),
            Opcode::Dastore => bytecode.push(DASTORE),
            Opcode::DcmOP(n) => {
                if *n > 1 {
                    return Err(Error::IndexOutOfRange);
                }
                bytecode.push(DCM_N + *n);
            },
            Opcode::DconstD(n) => {
                if *n > 1 {
                    return Err(Error::IndexOutOfRange);
                }
                bytecode.push(DCONST_N + *n);
            },
            Opcode::Ddiv => bytecode.push(DDIV),
            Opcode::Dload(index) => {
                bytecode.push(DLOAD);
                bytecode.push(*index);
            },
            Opcode::DloadN(n) => {
                if *n > 3 {
                    return Err(Error::IndexOutOfRange);
                }
                bytecode.push(DLOAD_N + *n);
            },
            Opcode::Dmul => bytecode.push(DMUL),
            Opcode::Dneg => bytecode.push(DNEG),
            Opcode::Drem => bytecode.push(DREM),
            Opcode::Dreturn => bytecode.push(DRETURN),
            Opcode::Dstore(index) => {
                bytecode.push(DSTORE);
                bytecode.push(*index);
            },
            Opcode::DstoreN(n) => {
                if *n > 3 {
                    return Err(Error::IndexOutOfRange);
                }
                bytecode.push(DSTORE_N + *n);
            },
            Opcode::Dsub => bytecode.push(DSUB),
            Opcode::Dup => bytecode.push(DUP),
            Opcode::DupX1 => bytecode.push(DUP_X1),
            Opcode::DupX2 => bytecode.push(DUP_X2),
            Opcode::Dup2 => bytecode.push(DUP2),
            Opcode::Dup2X1 => bytecode.push(DUP2_X1),
            Opcode::Dup2X2 => bytecode.push(DUP2_X2),
            Opcode::F2d => bytecode.push(F2D),
            Opcode::F2i => bytecode.push(F2I),
            Opcode::F2l => bytecode.push(F2L),
            Opcode::Fadd => bytecode.push(FADD),
            Opcode::Faload => bytecode.push(FALOAD),
            Opcode::Fastore => bytecode.push(FASTORE),
            Opcode::FcmOP(n) => {
                if *n > 1 {
                    return Err(Error::IndexOutOfRange);
                }
                bytecode.push(FCM_N + *n);
            },
            Opcode::FconstF(n) => {
                if *n > 2 {
                    return Err(Error::IndexOutOfRange);
                }
                bytecode.push(FCONST_N + *n);
            },
            Opcode::Fdiv => bytecode.push(FDIV),
            Opcode::Fload(index) => {
                bytecode.push(FLOAD);
                bytecode.push(*index);
            },
            Opcode::FloadN(n) => {
                if *n > 3 {
                    return Err(Error::IndexOutOfRange);
                }
                bytecode.push(FLOAD_N + *n);
            },
            Opcode::Fmul => bytecode.push(FMUL),
            Opcode::Fneg => bytecode.push(FNEG),
            Opcode::Frem => bytecode.push(FREM),
            Opcode::Freturn => bytecode.push(FRETURN),
            Opcode::Fstore(index) => {
                bytecode.push(FSTORE);
                bytecode.push(*index);
            },
            Opcode::FstoreN(n) => {
                if *n > 3 {
                    return Err(Error::IndexOutOfRange);
                }
                bytecode.push(FSTORE_N + *n);
            },
            Opcode::Fsub => bytecode.push(FSUB),
            Opcode::Getfield(index1, index2) => {
                bytecode.push(GETFIELD);
                bytecode.push(*index1);
                bytecode.push(*index2);
            },
            Opcode::Getstatic(index1, index2) => {
                bytecode.push(GETSTATIC);
                bytecode.push(*index1);
                bytecode.push(*index2);
            },
            Opcode::Goto(branch1, branch2) => {
                bytecode.push(GOTO);
                bytecode.push(*branch1);
                bytecode.push(*branch2);
            },
            Opcode::GotoW(branch1, branch2, branch3, branch4) => {
                bytecode.push(GOTO_W);
                bytecode.push(*branch1);
                bytecode.push(*branch2);
                bytecode.push(*branch3);
                bytecode.push(*branch4);
            },
            Opcode::I2b => bytecode.push(I2B),
            Opcode::I2c => bytecode.push(I2C),
            Opcode::I2d => bytecode.push(I2D),
            Opcode::I2f => bytecode.push(I2F),
            Opcode::I2l => bytecode.push(I2L),
            Opcode::I2s => bytecode.push(I2S),
            Opcode::Iadd => bytecode.push(IADD),
            Opcode::Iaload => bytecode.push(IALOAD),
            Opcode::Iand => bytecode.push(IAND),
            Opcode::Iastore => bytecode.push(IASTORE),
            Opcode::IconstI(n) => {
                if *n > 6 {
                    return Err(Error::IndexOutOfRange);
                }
                bytecode.push(ICONST_N + *n);
            },
            Opcode::Idiv => bytecode.push(IDIV),
            Opcode::IfAcmCond(n, branch1, branch2) => {
                if *n > 1 {
                    return Err(Error::IndexOutOfRange);
                }
                bytecode.push(IF_ACM_N + *n);
                bytecode.push(*branch1);
                bytecode.push(*branch2);
            },
            Opcode::IfIcmCond(n, branch1, branch2) => {
                if *n > 5 {
                    return Err(Error::IndexOutOfRange);
                }
                bytecode.push(IF_ICM_N + *n);
                bytecode.push(*branch1);
                bytecode.push(*branch2);
            },
            Opcode::ICOND(n, branch1, branch2) => {
                if *n > 5 {
                    return Err(Error::IndexOutOfRange);
                }
                bytecode.push(I_N + *n);
                bytecode.push(*branch1);
                bytecode.push(*branch2);
            },
            Opcode::Ifnonnull(branch1, branch2) => {
                bytecode.push(IFNONNULL);
                bytecode.push(*branch1);
                bytecode.push(*branch2);
            },
            Opcode::Ifnull(branch1, branch2) => {
                bytecode.push(IFNULL);
                bytecode.push(*branch1);
                bytecode.push(*branch2);
            },
            Opcode::Iinc(index, delta) => {
                bytecode.push(IINC);
                bytecode.push(*index);
                bytecode.push(*delta);
            },
            Opcode::Iload(index) => {
                bytecode.push(ILOAD);
                bytecode.push(*index);
            },
            Opcode::IloadN(n) => {
                if *n > 3 {
                    return Err(Error::IndexOutOfRange);
                }
                bytecode.push(ILOAD_N + *n);
            },
            Opcode::Imul => bytecode.push(IMUL),
            Opcode::Ineg => bytecode.push(INEG),
            Opcode::Instanceof(index1, index2) => {
                bytecode.push(INSTANCEOF);
                bytecode.push(*index1);
                bytecode.push(*index2);
            },
            Opcode::Invokedynamic(index1, index2, zero1, zero2) => {
                bytecode.push(INVOKEDYNAMIC);
                bytecode.push(*index1);
                bytecode.push(*index2);
                bytecode.push(*zero1);
                bytecode.push(*zero2);
            },
            Opcode::Invokeinterface(index1, index2, count, zero) => {
                bytecode.push(INVOKEINTERFACE);
                bytecode.push(*index1);
                bytecode.push(*index2);
                bytecode.push(*count);
                bytecode.push(*zero);
            },
            Opcode::Invokespecial(index1, index2) => {
                bytecode.push(INVOKESPECIAL);
                bytecode.push(*index1);
                bytecode.push(*index2);
            },
            Opcode::Invokestatic(index1, index2) => {
                bytecode.push(INVOKESTATIC);
                bytecode.push(*index1);
                bytecode.push(*index2);
            },
            Opcode::Invokevirtual(index1, index2) => {
                bytecode.push(INVOKEVIRTUAL);
                bytecode.push(*index1);
                bytecode.push(*index2);
            },
            Opcode::Ior => bytecode.push(IOR),
            Opcode::Irem => bytecode.push(IREM),
            Opcode::Ireturn => bytecode.push(IRETURN),
            Opcode::Ishl => bytecode.push(ISHL),
            Opcode::Ishr => bytecode.push(ISHR),
            Opcode::Istore(index) => {
                bytecode.push(ISTORE);
                bytecode.push(*index);
            },
            Opcode::IstoreN(n) => {
                if *n > 3 {
                    return Err(Error::IndexOutOfRange);
                }
                bytecode.push(ISTORE_N + *n);
            },
            Opcode::Isub => bytecode.push(ISUB),
            Opcode::Iushr => bytecode.push(IUSHR),
            Opcode::Ixor => bytecode.push(IXOR),
            Opcode::Jsr(branch1, branch2) => {
                bytecode.push(JSR);
                bytecode.push(*branch1);
                bytecode.push(*branch2);
            },
            Opcode::JsrW(branch1, branch2, branch3, branch4) => {
                bytecode.push(JSR_W);
                bytecode.push(*branch1);
                bytecode.push(*branch2);
                bytecode.push(*branch3);
                bytecode.push(*branch4);
            },
            Opcode::L2d => bytecode.push(L2D),
            Opcode::L2f => bytecode.push(L2F),
            Opcode::L2i => bytecode.push(L2I),
            Opcode::Ladd => bytecode.push(LADD),
            Opcode::Laload => bytecode.push(LALOAD),
            Opcode::Land => bytecode.push(LAND),
            Opcode::Lastore => bytecode.push(LASTORE),
            Opcode::Lcmp => bytecode.push(LCMP),
            Opcode::LconstL(n) => {
                if *n > 1 {
                    return Err(Error::IndexOutOfRange);
                }
                bytecode.push(LCONST_N + *n);
            },
            Opcode::Ldc(index) => {
                bytecode.push(LDC);
                bytecode.push(*index);
            },
            Opcode::LdcW(index1, index2) => {
                bytecode.push(LDC_W);
                bytecode.push(*index1);
                bytecode.push(*index2);
            },
            Opcode::Ldc2W(index1, index2) => {
                bytecode.push(LDC2_W);
                bytecode.push(*index1);
                bytecode.push(*index2);
            },
            Opcode::Ldiv => bytecode.push(LDIV),
            Opcode::Lload(index) => {
                bytecode.push(LLOAD);
                bytecode.push(*index);
            },
            Opcode::LloadN(n) => {
                if *n > 3 {
                    return Err(Error::IndexOutOfRange);
                }
                bytecode.push(LLOAD_N + *n);
            },
            Opcode::Lmul => bytecode.push(LMUL),
            Opcode::Lneg => bytecode.push(LNEG),
            Opcode::Lookupswitch(s) => {
                return encode_lookupswitch(s);
            },
            Opcode::Lor => bytecode.push(LOR),
            Opcode::Lrem => bytecode.push(LREM),
            Opcode::Lreturn => bytecode.push(LRETURN),
            Opcode::Lshl => bytecode.push(LSHL),
            Opcode::Lshr => bytecode.push(LSHR),
            Opcode::Lstore(index) => {
                bytecode.push(LSTORE);
                bytecode.push(*index);
            },
            Opcode::LstoreN(n) => {
                if *n > 3 {
                    return Err(Error::IndexOutOfRange);
                }
                bytecode.push(LSTORE_N + *n);
            },
            Opcode::Lsub => bytecode.push(LSUB),
            Opcode::Lushr => bytecode.push(LUSHR),
            Opcode::Lxor => bytecode.push(LXOR),
            Opcode::Monitorenter => bytecode.push(MONITORENTER),
            Opcode::Monitorexit => bytecode.push(MONITOREXIT),
            Opcode::Multianewarray(index1, index2, dimensions) => {
                bytecode.push(MULTIANEWARRAY);
                bytecode.push(*index1);
                bytecode.push(*index2);
                bytecode.push(*dimensions);
            },
            Opcode::New(index1, index2) => {
                bytecode.push(NEW);
                bytecode.push(*index1);
                bytecode.push(*index2);
            },
            Opcode::Newarray(atype) => {
                bytecode.push(NEWARRAY);
                bytecode.push(*atype);
            },
            Opcode::Nop => bytecode.push(NOP),
            Opcode::Pop => bytecode.push(POP),
            Opcode::Pop2 => bytecode.push(POP2),
            Opcode::Putfield(index1, index2) => {
                bytecode.push(PUTFIELD);
                bytecode.push(*index1);
                bytecode.push(*index2);
            },
            Opcode::Putstatic(index1, index2) => {
                bytecode.push(PUTSTATIC);
                bytecode.push(*index1);
                bytecode.push(*index2);
            },
            Opcode::Ret(index) => {
                bytecode.push(RET);
                bytecode.push(*index);
            },
            Opcode::Return_ => bytecode.push(RETURN),
            Opcode::Saload => bytecode.push(SALOAD),
            Opcode::Sastore => bytecode.push(SASTORE),
            Opcode::Sipush(byte1, byte2) => {
                bytecode.push(SIPUSH);
                bytecode.push(*byte1);
                bytecode.push(*byte2);
            },
            Opcode::Swap => bytecode.push(SWAP),
            Opcode::Tableswitch(s) => {
                return encode_tableswitch(s);
            },
        }
        proof {
            assert(bytecode@ =~= fixed_bytes(*self));
        }
        Ok(bytecode)
    }
}

fn push_zeros(out: &mut Vec<u8>, n: u8)
    ensures
        final(out)@ == old(out)@ + zeros(n as int),
{
    let mut i: u8 = 0;
    while i < n
        invariant
            i <= n,
            out@ == old(out)@ + zeros(i as int),
        decreases n - i,
    {
        out.push(0);
        i += 1;
        assert(zeros(i as int) =~= zeros(i - 1).push(0u8));
    }
}

fn encode_lookupswitch(s: &LookupSwitch) -> (r: Result<Vec<u8>, Error>)
    ensures
        crate::bytecode::encoded(Opcode::Lookupswitch(*s)@, r),
{
    if s.pad > 3 || s.pairs.len() > 0xffff_ffff {
        return Err(Error::IndexOutOfRange);
    }
    let mut out: Vec<u8> = Vec::new();
    out.push(LOOKUPSWITCH);
    push_zeros(&mut out, s.pad);
    put_u32(&mut out, s.default);
    put_u32(&mut out, s.pairs.len() as u32);
    proof {
        lemma_tuples_valid(s.pairs@);
        assert(models(s.pairs@) =~= s.pairs@);
    }
    encode_all(&s.pairs, &mut out)?;
    Ok(out)
}

/// The signed number of a word, ready to be subtracted.
fn signed_of(x: u32) -> (r: i64)
    ensures
        r == signed(x),
{
    if x >= 0x8000_0000 {
        x as i64 - 0x1_0000_0000
    } else {
        x as i64
    }
}

/// The length that the bounds of a `tableswitch` give its table.
fn table_len_of(low: u32, high: u32) -> (n: u64)
    ensures
        n == table_len(low, high),
{
    let lo = signed_of(low);
    let hi = signed_of(high);
    if lo <= hi {
        (hi - lo + 1) as u64
    } else {
        0
    }
}

fn encode_tableswitch(s: &TableSwitch) -> (r: Result<Vec<u8>, Error>)
    ensures
        crate::bytecode::encoded(Opcode::Tableswitch(*s)@, r),
{
    if s.pad > 3 || s.offsets.len() as u64 != table_len_of(s.low, s.high) {
        return Err(Error::IndexOutOfRange);
    }
    let mut out: Vec<u8> = Vec::new();
    out.push(TABLESWITCH);
    push_zeros(&mut out, s.pad);
    put_u32(&mut out, s.default);
    put_u32(&mut out, s.low);
    put_u32(&mut out, s.high);
    proof {
        lemma_words_valid(s.offsets@);
        assert(models(s.offsets@) =~= s.offsets@);
    }
    encode_all(&s.offsets, &mut out)?;
    Ok(out)
}

/// The number of operand bytes behind the opcode byte `b`.
fn operand_count_of(b: u8) -> (n: Option<usize>)
    ensures
        match operand_count(b) {
            Some(k) => n == Some(k as usize) && 0 <= k <= 4,
            None => n is None,
        },
{
    if b <= 0x0f {
        Some(0)
    } else if b == BIPUSH || b == LDC {
        Some(1)
    } else if b == SIPUSH || b == LDC_W || b == LDC2_W {
        Some(2)
    } else if b <= ALOAD {
        Some(1)
    } else if b <= SALOAD {
        Some(0)
    } else if b <= ASTORE {
        Some(1)
    } else if b <= LXOR {
        Some(0)
    } else if b == IINC {
        Some(2)
    } else if b <= 0x98 {
        Some(0)
    } else if b <= JSR {
        Some(2)
    } else if b == RET {
        Some(1)
    } else if b == TABLESWITCH || b == LOOKUPSWITCH {
        None
    } else if b <= RETURN {
        Some(0)
    } else if b <= INVOKESTATIC {
        Some(2)
    } else if b == INVOKEINTERFACE || b == INVOKEDYNAMIC {
        Some(4)
    } else if b == NEWARRAY {
        Some(1)
    } else if b == NEW || b == ANEWARRAY || b == CHECKCAST || b == INSTANCEOF {
        Some(2)
    } else if b == ARRAYLENGTH || b == ATHROW || b == MONITORENTER || b == MONITOREXIT {
        Some(0)
    } else if b == MULTIANEWARRAY {
        Some(3)
    } else if b == IFNULL || b == IFNONNULL {
        Some(2)
    } else if b == GOTO_W || b == JSR_W {
        Some(4)
    } else {
        None
    }
}

/// The instruction of fixed length with opcode byte `b` and operand bytes `o`.
fn fixed_from_bytes(b: u8, o: &Vec<u8>) -> (op: Opcode)
    requires
        operand_count(b) matches Some(k) && k == o.len(),
    ensures
        op == fixed_from(b, o@),
{
    match b {
        AALOAD => Opcode::Aaload,
        AASTORE => Opcode::Aastore,
        ACONST_NULL => Opcode::AconstNull,
        ALOAD => Opcode::Aload(o[0]),
        n if ALOAD_N <= n && n <= ALOAD_N + 3 => Opcode::AloadN(n - ALOAD_N),
        ANEWARRAY => Opcode::Anewarray(o[0], o[1]),
        ARETURN => Opcode::Areturn,
        ARRAYLENGTH => Opcode::Arraylength,
        ASTORE => Opcode::Astore(o[0]),
        n if ASTORE_N <= n && n <= ASTORE_N + 3 => Opcode::AstoreN(n - ASTORE_N),
        ATHROW => Opcode::Athrow,
        BALOAD => Opcode::Baload,
        BASTORE => Opcode::Bastore,
        BIPUSH => Opcode::Bipush(o[0]),
        CALOAD => Opcode::Caload,
        CASTORE => Opcode::Castore,
        CHECKCAST => Opcode::Checkcast(o[0], o[1]),
        D2F => Opcode::D2f,
        D2I => Opcode::D2i,
        D2L => Opcode::D2l,
        DADD => Opcode::Dadd,
        DALOAD => Opcode::Daload,
        DASTORE => Opcode::Dastore,
        n if DCM_N <= n && n <= DCM_N + 1 => Opcode::DcmOP(n - DCM_N),
        n if DCONST_N <= n && n <= DCONST_N + 1 => Opcode::DconstD(n - DCONST_N),
        DDIV => Opcode::Ddiv,
        DLOAD => Opcode::Dload(o[0]),
        n if DLOAD_N <= n && n <= DLOAD_N + 3 => Opcode::DloadN(n - DLOAD_N),
        DMUL => Opcode::Dmul,
        DNEG => Opcode::Dneg,
        DREM => Opcode::Drem,
        DRETURN => Opcode::Dreturn,
        DSTORE => Opcode::Dstore(o[0]),
        n if DSTORE_N <= n && n <= DSTORE_N + 3 => Opcode::DstoreN(n - DSTORE_N),
        DSUB => Opcode::Dsub,
        DUP => Opcode::Dup,
        DUP_X1 => Opcode::DupX1,
        DUP_X2 => Opcode::DupX2,
        DUP2 => Opcode::Dup2,
        DUP2_X1 => Opcode::Dup2X1,
        DUP2_X2 => Opcode::Dup2X2,
        F2D => Opcode::F2d,
        F2I => Opcode::F2i,
        F2L => Opcode::F2l,
        FADD => Opcode::Fadd,
        FALOAD => Opcode::Faload,
        FASTORE => Opcode::Fastore,
        n if FCM_N <= n && n <= FCM_N + 1 => Opcode::FcmOP(n - FCM_N),
        n if FCONST_N <= n && n <= FCONST_N + 2 => Opcode::FconstF(n - FCONST_N),
        FDIV => Opcode::Fdiv,
        FLOAD => Opcode::Fload(o[0]),
        n if FLOAD_N <= n && n <= FLOAD_N + 3 => Opcode::FloadN(n - FLOAD_N),
        FMUL => Opcode::Fmul,
        FNEG => Opcode::Fneg,
        FREM => Opcode::Frem,
        FRETURN => Opcode::Freturn,
        FSTORE => Opcode::Fstore(o[0]),
        n if FSTORE_N <= n && n <= FSTORE_N + 3 => Opcode::FstoreN(n - FSTORE_N),
        FSUB => Opcode::Fsub,
        GETFIELD => Opcode::Getfield(o[0], o[1]),
        GETSTATIC => Opcode::Getstatic(o[0], o[1]),
        GOTO => Opcode::Goto(o[0], o[1]),
        GOTO_W => Opcode::GotoW(o[0], o[1], o[2], o[3]),
        I2B => Opcode::I2b,
        I2C => Opcode::I2c,
        I2D => Opcode::I2d,
        I2F => Opcode::I2f,
        I2L => Opcode::I2l,
        I2S => Opcode::I2s,
        IADD => Opcode::Iadd,
        IALOAD => Opcode::Iaload,
        IAND => Opcode::Iand,
        IASTORE => Opcode::Iastore,
        n if ICONST_N <= n && n <= ICONST_N + 6 => Opcode::IconstI(n - ICONST_N),
        IDIV => Opcode::Idiv,
        n if IF_ACM_N <= n && n <= IF_ACM_N + 1 => Opcode::IfAcmCond(n - IF_ACM_N, o[0], o[1]),
        n if IF_ICM_N <= n && n <= IF_ICM_N + 5 => Opcode::IfIcmCond(n - IF_ICM_N, o[0], o[1]),
        n if I_N <= n && n <= I_N + 5 => Opcode::ICOND(n - I_N, o[0], o[1]),
        IFNONNULL => Opcode::Ifnonnull(o[0], o[1]),
        IFNULL => Opcode::Ifnull(o[0], o[1]),
        IINC => Opcode::Iinc(o[0], o[1]),
        ILOAD => Opcode::Iload(o[0]),
        n if ILOAD_N <= n && n <= ILOAD_N + 3 => Opcode::IloadN(n - ILOAD_N),
        IMUL => Opcode::Imul,
        INEG => Opcode::Ineg,
        INSTANCEOF => Opcode::Instanceof(o[0], o[1]),
        INVOKEDYNAMIC => Opcode::Invokedynamic(o[0], o[1], o[2], o[3]),
        INVOKEINTERFACE => Opcode::Invokeinterface(o[0], o[1], o[2], o[3]),
        INVOKESPECIAL => Opcode::Invokespecial(o[0], o[1]),
        INVOKESTATIC => Opcode::Invokestatic(o[0], o[1]),
        INVOKEVIRTUAL => Opcode::Invokevirtual(o[0], o[1]),
        IOR => Opcode::Ior,
        IREM => Opcode::Irem,
        IRETURN => Opcode::Ireturn,
        ISHL => Opcode::Ishl,
        ISHR => Opcode::Ishr,
        ISTORE => Opcode::Istore(o[0]),
        n if ISTORE_N <= n && n <= ISTORE_N + 3 => Opcode::IstoreN(n - ISTORE_N),
        ISUB => Opcode::Isub,
        IUSHR => Opcode::Iushr,
        IXOR => Opcode::Ixor,
        JSR => Opcode::Jsr(o[0], o[1]),
        JSR_W => Opcode::JsrW(o[0], o[1], o[2], o[3]),
        L2D => Opcode::L2d,
        L2F => Opcode::L2f,
        L2I => Opcode::L2i,
        LADD => Opcode::Ladd,
        LALOAD => Opcode::Laload,
        LAND => Opcode::Land,
        LASTORE => Opcode::Lastore,
        LCMP => Opcode::Lcmp,
        n if LCONST_N <= n && n <= LCONST_N + 1 => Opcode::LconstL(n - LCONST_N),
        LDC => Opcode::Ldc(o[0]),
        LDC_W => Opcode::LdcW(o[0], o[1]),
        LDC2_W => Opcode::Ldc2W(o[0], o[1]),
        LDIV => Opcode::Ldiv,
        LLOAD => Opcode::Lload(o[0]),
        n if LLOAD_N <= n && n <= LLOAD_N + 3 => Opcode::LloadN(n - LLOAD_N),
        LMUL => Opcode::Lmul,
        LNEG => Opcode::Lneg,
        LOR => Opcode::Lor,
        LREM => Opcode::Lrem,
        LRETURN => Opcode::Lreturn,
        LSHL => Opcode::Lshl,
        LSHR => Opcode::Lshr,
        LSTORE => Opcode::Lstore(o[0]),
        n if LSTORE_N <= n && n <= LSTORE_N + 3 => Opcode::LstoreN(n - LSTORE_N),
        LSUB => Opcode::Lsub,
        LUSHR => Opcode::Lushr,
        LXOR => Opcode::Lxor,
        MONITORENTER => Opcode::Monitorenter,
        MONITOREXIT => Opcode::Monitorexit,
        MULTIANEWARRAY => Opcode::Multianewarray(o[0], o[1], o[2]),
        NEW => Opcode::New(o[0], o[1]),
        NEWARRAY => Opcode::Newarray(o[0]),
        POP => Opcode::Pop,
        POP2 => Opcode::Pop2,
        PUTFIELD => Opcode::Putfield(o[0], o[1]),
        PUTSTATIC => Opcode::Putstatic(o[0], o[1]),
        RET => Opcode::Ret(o[0]),
        RETURN => Opcode::Return_,
        SALOAD => Opcode::Saload,
        SASTORE => Opcode::Sastore,
        SIPUSH => Opcode::Sipush(o[0], o[1]),
        SWAP => Opcode::Swap,
        _ => Opcode::Nop,
    }
}

impl Opcode {
    /// Reads one instruction at the cursor. The reader's buffer is the code
    /// of one method from its first byte, so that the cursor is the offset
    /// by which a switch is aligned.
    pub fn from_reader(reader: &mut Reader) -> (r: Result<Opcode, Error>)
        ensures
            decoded(
                *old(reader),
                *final(reader),
                r,
                parse_instr(old(reader).data@, old(reader).cursor as int),
            ),
    {
        let at = reader.cursor;
        let b = reader.read_int1()?;
        if b == LOOKUPSWITCH {
            let pad = 3 - (at % 4) as u8;
            let _ = reader.read_bytes(pad as usize)?;
            let default = reader.read_int4()?;
            let count = reader.read_int4()?;
            let pairs = decode_n::<(u32, u32)>(reader, count as u64)?;
            proof {
                assert(models(pairs@) =~= pairs@);
            }
            Ok(Opcode::Lookupswitch(LookupSwitch { pad, default, pairs }))
        } else if b == TABLESWITCH {
            let pad = 3 - (at % 4) as u8;
            let _ = reader.read_bytes(pad as usize)?;
            let default = reader.read_int4()?;
            let low = reader.read_int4()?;
            let high = reader.read_int4()?;
            let offsets = decode_n::<u32>(reader, table_len_of(low, high))?;
            proof {
                assert(models(offsets@) =~= offsets@);
            }
            Ok(Opcode::Tableswitch(TableSwitch { pad, default, low, high, offsets }))
        } else {
            match operand_count_of(b) {
                None => Err(Error::UnknownOpcode(b)),
                Some(n) => {
                    let operands = reader.read_bytes(n)?;
                    Ok(fixed_from_bytes(b, &operands))
                },
            }
        }
    }
}

} // verus!
