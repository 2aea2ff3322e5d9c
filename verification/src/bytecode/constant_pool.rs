//! The entries of the constant pool, and the pool as a table that is
//! indexed by slot: an entry takes one slot, a long or a double two.
//!
//! A text is read and written as plain UTF-8. The format's own encoding
//! differs from it for the null character and for characters outside the
//! basic plane; texts with such characters are not read as the format means
//! them.

use vstd::prelude::*;
use vstd::utf8::{
    decode_utf8, encode_utf8, encode_utf8_decode_utf8, encode_utf8_valid_utf8, valid_utf8,
};
use crate::error::{Error, ErrorModel};
use crate::reader::{
    carries, has_bytes, lemma_carries_split, lemma_u16_at_bytes, lemma_u32_at_bytes, u16_at,
    u16_bytes, u32_at, u32_bytes, Reader,
};
use crate::wire::{
    all_encodable, all_valid, decoded_table, expected, lemma_prepend_empty, lemma_prepend_push,
    models, prepend, put_u16, put_u32, wire_all, Decode, Parse, Parsed, Wire,
};
use super::ToJvmBytecode;

verus! {

pub const CP_TAG_UTF8: u8 = 1;

pub const CP_TAG_INTEGER: u8 = 3;

pub const CP_TAG_FLOAT: u8 = 4;

pub const CP_TAG_LONG: u8 = 5;

pub const CP_TAG_DOUBLE: u8 = 6;

pub const CP_TAG_CLASS: u8 = 7;

pub const CP_TAG_STRING: u8 = 8;

pub const CP_TAG_FIELDREF: u8 = 9;

pub const CP_TAG_METHODREF: u8 = 10;

pub const CP_TAG_INTERFACEMETHODREF: u8 = 11;

pub const CP_TAG_NAMEANDTYPE: u8 = 12;

pub const CP_TAG_METHODHANDLE: u8 = 15;

pub const CP_TAG_METHODTYPE: u8 = 16;

pub const CP_TAG_INVOKEDYNAMIC: u8 = 18;

/// An entry of the constant pool with its tag byte.
#[derive(Debug, PartialEq)]
pub struct CpInfo {
    pub tag: u8,
    pub info: CpInfoType,
}

/// What an entry of the constant pool holds: numbers as they stand on the
/// wire, references as indices into the same pool. A float is kept as its
/// four bytes, a long and a double as their two halves.
#[allow(inconsistent_fields)]
#[derive(Debug, PartialEq)]
pub enum CpInfoType {
    Class { name_index: u16 },
    Fieldref { class_index: u16, name_and_type_index: u16 },
    Methodref { class_index: u16, name_and_type_index: u16 },
    InterfaceMethodref { class_index: u16, name_and_type_index: u16 },
    String { string_index: u16 },
    Integer { bytes: u32 },
    Float { bytes: u32 },
    Long { high_bytes: u32, low_bytes: u32 },
    Double { high_bytes: u32, low_bytes: u32 },
    NameAndType { name_index: u16, descriptor_index: u16 },
    /// The text and the number of bytes of its encoding.
    Utf8 { length: u16, bytes: String },
    MethodHandle { reference_kind: u8, reference_index: u16 },
    MethodType { descriptor_index: u16 },
    InvokeDynamic { bootstrap_method_attr_index: u16, name_and_type_index: u16 },
}

/// The model of a [`CpInfo`].
pub struct CpInfoModel {
    pub tag: u8,
    pub info: CpInfoTypeModel,
}

/// The model of a [`CpInfoType`]: text as a sequence of characters.
#[allow(inconsistent_fields)]
pub enum CpInfoTypeModel {
    Class { name_index: u16 },
    Fieldref { class_index: u16, name_and_type_index: u16 },
    Methodref { class_index: u16, name_and_type_index: u16 },
    InterfaceMethodref { class_index: u16, name_and_type_index: u16 },
    String { string_index: u16 },
    Integer { bytes: u32 },
    Float { bytes: u32 },
    Long { high_bytes: u32, low_bytes: u32 },
    Double { high_bytes: u32, low_bytes: u32 },
    NameAndType { name_index: u16, descriptor_index: u16 },
    Utf8 { length: u16, bytes: Seq<char> },
    MethodHandle { reference_kind: u8, reference_index: u16 },
    MethodType { descriptor_index: u16 },
    InvokeDynamic { bootstrap_method_attr_index: u16, name_and_type_index: u16 },
}

impl View for CpInfoType {
    type V = CpInfoTypeModel;

    open spec fn view(&self) -> CpInfoTypeModel {
        match self {
            CpInfoType::Class { name_index } => CpInfoTypeModel::Class { name_index: *name_index },
            CpInfoType::Fieldref { class_index, name_and_type_index } => CpInfoTypeModel::Fieldref {
                class_index: *class_index,
                name_and_type_index: *name_and_type_index,
            },
            CpInfoType::Methodref {
                class_index,
                name_and_type_index,
            } => CpInfoTypeModel::Methodref {
                class_index: *class_index,
                name_and_type_index: *name_and_type_index,
            },
            CpInfoType::InterfaceMethodref {
                class_index,
                name_and_type_index,
            } => CpInfoTypeModel::InterfaceMethodref {
                class_index: *class_index,
                name_and_type_index: *name_and_type_index,
            },
            CpInfoType::String { string_index } => CpInfoTypeModel::String {
                string_index: *string_index,
            },
            CpInfoType::Integer { bytes } => CpInfoTypeModel::Integer { bytes: *bytes },
            CpInfoType::Float { bytes } => CpInfoTypeModel::Float { bytes: *bytes },
            CpInfoType::Long { high_bytes, low_bytes } => CpInfoTypeModel::Long {
                high_bytes: *high_bytes,
                low_bytes: *low_bytes,
            },
            CpInfoType::Double { high_bytes, low_bytes } => CpInfoTypeModel::Double {
                high_bytes: *high_bytes,
                low_bytes: *low_bytes,
            },
            CpInfoType::NameAndType {
                name_index,
                descriptor_index,
            } => CpInfoTypeModel::NameAndType {
                name_index: *name_index,
                descriptor_index: *descriptor_index,
            },
            CpInfoType::Utf8 { length, bytes } => CpInfoTypeModel::Utf8 {
                length: *length,
                bytes: bytes@,
            },
            CpInfoType::MethodHandle {
                reference_kind,
                reference_index,
            } => CpInfoTypeModel::MethodHandle {
                reference_kind: *reference_kind,
                reference_index: *reference_index,
            },
            CpInfoType::MethodType { descriptor_index } => CpInfoTypeModel::MethodType {
                descriptor_index: *descriptor_index,
            },
            CpInfoType::InvokeDynamic {
                bootstrap_method_attr_index,
                name_and_type_index,
            } => CpInfoTypeModel::InvokeDynamic {
                bootstrap_method_attr_index: *bootstrap_method_attr_index,
                name_and_type_index: *name_and_type_index,
            },
        }
    }
}

impl View for CpInfo {
    type V = CpInfoModel;

    open spec fn view(&self) -> CpInfoModel {
        CpInfoModel { tag: self.tag, info: self.info@ }
    }
}

impl Clone for CpInfoType {
    /// An entry with the same model.
    fn clone(&self) -> (copy: CpInfoType)
        ensures
            copy@ == self@,
    {
        match self {
            CpInfoType::Class { name_index } => CpInfoType::Class { name_index: *name_index },
            CpInfoType::Fieldref { class_index, name_and_type_index } => CpInfoType::Fieldref {
                class_index: *class_index,
                name_and_type_index: *name_and_type_index,
            },
            CpInfoType::Methodref { class_index, name_and_type_index } => CpInfoType::Methodref {
                class_index: *class_index,
                name_and_type_index: *name_and_type_index,
            },
            CpInfoType::InterfaceMethodref {
                class_index,
                name_and_type_index,
            } => CpInfoType::InterfaceMethodref {
                class_index: *class_index,
                name_and_type_index: *name_and_type_index,
            },
            CpInfoType::String { string_index } => CpInfoType::String {
                string_index: *string_index,
            },
            CpInfoType::Integer { bytes } => CpInfoType::Integer { bytes: *bytes },
            CpInfoType::Float { bytes } => CpInfoType::Float { bytes: *bytes },
            CpInfoType::Long { high_bytes, low_bytes } => CpInfoType::Long {
                high_bytes: *high_bytes,
                low_bytes: *low_bytes,
            },
            CpInfoType::Double { high_bytes, low_bytes } => CpInfoType::Double {
                high_bytes: *high_bytes,
                low_bytes: *low_bytes,
            },
            CpInfoType::NameAndType { name_index, descriptor_index } => CpInfoType::NameAndType {
                name_index: *name_index,
                descriptor_index: *descriptor_index,
            },
            CpInfoType::Utf8 { length, bytes } => CpInfoType::Utf8 {
                length: *length,
                bytes: bytes.clone(),
            },
            CpInfoType::MethodHandle {
                reference_kind,
                reference_index,
            } => CpInfoType::MethodHandle {
                reference_kind: *reference_kind,
                reference_index: *reference_index,
            },
            CpInfoType::MethodType { descriptor_index } => CpInfoType::MethodType {
                descriptor_index: *descriptor_index,
            },
            CpInfoType::InvokeDynamic {
                bootstrap_method_attr_index,
                name_and_type_index,
            } => CpInfoType::InvokeDynamic {
                bootstrap_method_attr_index: *bootstrap_method_attr_index,
                name_and_type_index: *name_and_type_index,
            },
        }
    }
}

impl Clone for CpInfo {
    /// An entry with the same model.
    fn clone(&self) -> (copy: CpInfo)
        ensures
            copy@ == self@,
    {
        CpInfo { tag: self.tag, info: self.info.clone() }
    }
}

/// The tag byte of each kind of entry.
pub open spec fn tag_of(info: CpInfoTypeModel) -> u8 {
    match info {
        CpInfoTypeModel::Class { .. } => CP_TAG_CLASS,
        CpInfoTypeModel::Fieldref { .. } => CP_TAG_FIELDREF,
        CpInfoTypeModel::Methodref { .. } => CP_TAG_METHODREF,
        CpInfoTypeModel::InterfaceMethodref { .. } => CP_TAG_INTERFACEMETHODREF,
        CpInfoTypeModel::String { .. } => CP_TAG_STRING,
        CpInfoTypeModel::Integer { .. } => CP_TAG_INTEGER,
        CpInfoTypeModel::Float { .. } => CP_TAG_FLOAT,
        CpInfoTypeModel::Long { .. } => CP_TAG_LONG,
        CpInfoTypeModel::Double { .. } => CP_TAG_DOUBLE,
        CpInfoTypeModel::NameAndType { .. } => CP_TAG_NAMEANDTYPE,
        CpInfoTypeModel::Utf8 { .. } => CP_TAG_UTF8,
        CpInfoTypeModel::MethodHandle { .. } => CP_TAG_METHODHANDLE,
        CpInfoTypeModel::MethodType { .. } => CP_TAG_METHODTYPE,
        CpInfoTypeModel::InvokeDynamic { .. } => CP_TAG_INVOKEDYNAMIC,
    }
}

/// The bytes of an entry behind its tag.
impl Wire for CpInfoTypeModel {
    /// A text must not take more than 65535 bytes.
    open spec fn encodable(self) -> bool {
        self matches CpInfoTypeModel::Utf8 { length, bytes } ==> encode_utf8(bytes).len() <= 0xffff
    }

    open spec fn wire(self) -> Seq<u8> {
        match self {
            CpInfoTypeModel::Class { name_index } => u16_bytes(name_index),
            CpInfoTypeModel::Fieldref { class_index, name_and_type_index } => u16_bytes(class_index)
                + u16_bytes(name_and_type_index),
            CpInfoTypeModel::Methodref { class_index, name_and_type_index } => u16_bytes(
                class_index,
            ) + u16_bytes(name_and_type_index),
            CpInfoTypeModel::InterfaceMethodref { class_index, name_and_type_index } => u16_bytes(
                class_index,
            ) + u16_bytes(name_and_type_index),
            CpInfoTypeModel::String { string_index } => u16_bytes(string_index),
            CpInfoTypeModel::Integer { bytes } => u32_bytes(bytes),
            CpInfoTypeModel::Float { bytes } => u32_bytes(bytes),
            CpInfoTypeModel::Long { high_bytes, low_bytes } => u32_bytes(high_bytes) + u32_bytes(
                low_bytes,
            ),
            CpInfoTypeModel::Double { high_bytes, low_bytes } => u32_bytes(high_bytes) + u32_bytes(
                low_bytes,
            ),
            CpInfoTypeModel::NameAndType { name_index, descriptor_index } => u16_bytes(name_index)
                + u16_bytes(descriptor_index),
            CpInfoTypeModel::Utf8 { length, bytes } => u16_bytes(encode_utf8(bytes).len() as u16)
                + encode_utf8(bytes),
            CpInfoTypeModel::MethodHandle { reference_kind, reference_index } =>
                seq![reference_kind] + u16_bytes(reference_index),
            CpInfoTypeModel::MethodType { descriptor_index } => u16_bytes(descriptor_index),
            CpInfoTypeModel::InvokeDynamic { bootstrap_method_attr_index, name_and_type_index } =>
                u16_bytes(bootstrap_method_attr_index) + u16_bytes(name_and_type_index),
        }
    }
}

impl Wire for CpInfoModel {
    open spec fn encodable(self) -> bool {
        self.info.encodable()
    }

    /// The tag of the kind of entry, whatever tag is stored, and the entry.
    open spec fn wire(self) -> Seq<u8> {
        seq![tag_of(self.info)] + self.info.wire()
    }
}

/// The entry with tag `tag` whose bytes stand in `data` at `pos`.
pub open spec fn parse_info(tag: u8, data: Seq<u8>, pos: int) -> Parsed<CpInfoTypeModel> {
    if tag == CP_TAG_CLASS || tag == CP_TAG_STRING || tag == CP_TAG_METHODTYPE {
        if !has_bytes(data, pos, 2) {
            Err(ErrorModel::TruncatedInput)
        } else {
            let index = u16_at(data, pos);
            Ok(
                (
                    if tag == CP_TAG_CLASS {
                        CpInfoTypeModel::Class { name_index: index }
                    } else if tag == CP_TAG_STRING {
                        CpInfoTypeModel::String { string_index: index }
                    } else {
                        CpInfoTypeModel::MethodType { descriptor_index: index }
                    },
                    pos + 2,
                ),
            )
        }
    } else if tag == CP_TAG_FIELDREF || tag == CP_TAG_METHODREF || tag == CP_TAG_INTERFACEMETHODREF
        || tag == CP_TAG_NAMEANDTYPE || tag == CP_TAG_INVOKEDYNAMIC {
        if !has_bytes(data, pos, 4) {
            Err(ErrorModel::TruncatedInput)
        } else {
            let first = u16_at(data, pos);
            let second = u16_at(data, pos + 2);
            Ok(
                (
                    if tag == CP_TAG_FIELDREF {
                        CpInfoTypeModel::Fieldref { class_index: first, name_and_type_index: second }
                    } else if tag == CP_TAG_METHODREF {
                        CpInfoTypeModel::Methodref { class_index: first, name_and_type_index: second }
                    } else if tag == CP_TAG_INTERFACEMETHODREF {
                        CpInfoTypeModel::InterfaceMethodref {
                            class_index: first,
                            name_and_type_index: second,
                        }
                    } else if tag == CP_TAG_NAMEANDTYPE {
                        CpInfoTypeModel::NameAndType { name_index: first, descriptor_index: second }
                    } else {
                        CpInfoTypeModel::InvokeDynamic {
                            bootstrap_method_attr_index: first,
                            name_and_type_index: second,
                        }
                    },
                    pos + 4,
                ),
            )
        }
    } else if tag == CP_TAG_INTEGER || tag == CP_TAG_FLOAT {
        if !has_bytes(data, pos, 4) {
            Err(ErrorModel::TruncatedInput)
        } else if tag == CP_TAG_INTEGER {
            Ok((CpInfoTypeModel::Integer { bytes: u32_at(data, pos) }, pos + 4))
        } else {
            Ok((CpInfoTypeModel::Float { bytes: u32_at(data, pos) }, pos + 4))
        }
    } else if tag == CP_TAG_LONG || tag == CP_TAG_DOUBLE {
        if !has_bytes(data, pos, 8) {
            Err(ErrorModel::TruncatedInput)
        } else if tag == CP_TAG_LONG {
            Ok(
                (
                    CpInfoTypeModel::Long {
                        high_bytes: u32_at(data, pos),
                        low_bytes: u32_at(data, pos + 4),
                    },
                    pos + 8,
                ),
            )
        } else {
            Ok(
                (
                    CpInfoTypeModel::Double {
                        high_bytes: u32_at(data, pos),
                        low_bytes: u32_at(data, pos + 4),
                    },
                    pos + 8,
                ),
            )
        }
    } else if tag == CP_TAG_UTF8 {
        if !has_bytes(data, pos, 2) {
            Err(ErrorModel::TruncatedInput)
        } else {
            let length = u16_at(data, pos);
            if !has_bytes(data, pos + 2, length as int) {
                Err(ErrorModel::TruncatedInput)
            } else {
                let text = data.subrange(pos + 2, pos + 2 + length);
                if valid_utf8(text) {
                    Ok((CpInfoTypeModel::Utf8 { length, bytes: decode_utf8(text) }, pos + 2 + length))
                } else {
                    Err(ErrorModel::InvalidUtf8)
                }
            }
        }
    } else if tag == CP_TAG_METHODHANDLE {
        if !has_bytes(data, pos, 3) {
            Err(ErrorModel::TruncatedInput)
        } else {
            Ok(
                (
                    CpInfoTypeModel::MethodHandle {
                        reference_kind: data[pos],
                        reference_index: u16_at(data, pos + 1),
                    },
                    pos + 3,
                ),
            )
        }
    } else {
        Err(ErrorModel::UnknownTag(tag))
    }
}

/// Decoding the bytes of an entry under the tag of its kind gives the entry
/// back.
pub proof fn lemma_parse_info(info: CpInfoTypeModel, data: Seq<u8>, pos: int)
    requires
        info.encodable(),
        info matches CpInfoTypeModel::Utf8 { length, bytes } ==> length == encode_utf8(bytes).len(),
        0 <= pos <= data.len(),
        carries(data, pos, info.wire()),
    ensures
        parse_info(tag_of(info), data, pos) == expected(info, data, pos, info.wire()),
{
    match info {
        CpInfoTypeModel::Class { name_index } => {
            if has_bytes(data, pos, 2) {
                lemma_u16_at_bytes(data, pos, name_index);
            }
        },
        CpInfoTypeModel::String { string_index } => {
            if has_bytes(data, pos, 2) {
                lemma_u16_at_bytes(data, pos, string_index);
            }
        },
        CpInfoTypeModel::MethodType { descriptor_index } => {
            if has_bytes(data, pos, 2) {
                lemma_u16_at_bytes(data, pos, descriptor_index);
            }
        },
        CpInfoTypeModel::Fieldref { class_index, name_and_type_index } => {
            lemma_two_indices(data, pos, class_index, name_and_type_index);
        },
        CpInfoTypeModel::Methodref { class_index, name_and_type_index } => {
            lemma_two_indices(data, pos, class_index, name_and_type_index);
        },
        CpInfoTypeModel::InterfaceMethodref { class_index, name_and_type_index } => {
            lemma_two_indices(data, pos, class_index, name_and_type_index);
        },
        CpInfoTypeModel::NameAndType { name_index, descriptor_index } => {
            lemma_two_indices(data, pos, name_index, descriptor_index);
        },
        CpInfoTypeModel::InvokeDynamic { bootstrap_method_attr_index, name_and_type_index } => {
            lemma_two_indices(data, pos, bootstrap_method_attr_index, name_and_type_index);
        },
        CpInfoTypeModel::Integer { bytes } => {
            if has_bytes(data, pos, 4) {
                lemma_u32_at_bytes(data, pos, bytes);
            }
        },
        CpInfoTypeModel::Float { bytes } => {
            if has_bytes(data, pos, 4) {
                lemma_u32_at_bytes(data, pos, bytes);
            }
        },
        CpInfoTypeModel::Long { high_bytes, low_bytes } => {
            lemma_carries_split(data, pos, u32_bytes(high_bytes), u32_bytes(low_bytes));
            if has_bytes(data, pos, 8) {
                lemma_u32_at_bytes(data, pos, high_bytes);
                lemma_u32_at_bytes(data, pos + 4, low_bytes);
            }
        },
        CpInfoTypeModel::Double { high_bytes, low_bytes } => {
            lemma_carries_split(data, pos, u32_bytes(high_bytes), u32_bytes(low_bytes));
            if has_bytes(data, pos, 8) {
                lemma_u32_at_bytes(data, pos, high_bytes);
                lemma_u32_at_bytes(data, pos + 4, low_bytes);
            }
        },
        CpInfoTypeModel::Utf8 { length, bytes } => {
            let text = encode_utf8(bytes);
            lemma_carries_split(data, pos, u16_bytes(text.len() as u16), text);
            if has_bytes(data, pos, 2) {
                lemma_u16_at_bytes(data, pos, text.len() as u16);
                if has_bytes(data, pos + 2, text.len() as int) {
                    let got = data.subrange(pos + 2, pos + 2 + text.len());
                    assert forall|i: int| 0 <= i < got.len() implies #[trigger] got[i] == text[i] by {
                        assert(data[pos + 2 + i] == text[i]);
                    }
                    assert(got =~= text);
                    encode_utf8_valid_utf8(bytes);
                    encode_utf8_decode_utf8(bytes);
                }
            }
        },
        CpInfoTypeModel::MethodHandle { reference_kind, reference_index } => {
            lemma_carries_split(data, pos, seq![reference_kind], u16_bytes(reference_index));
            if has_bytes(data, pos, 3) {
                assert(data[pos + 0] == seq![reference_kind][0]);
                lemma_u16_at_bytes(data, pos + 1, reference_index);
            }
        },
    }
}

proof fn lemma_two_indices(data: Seq<u8>, pos: int, a: u16, b: u16)
    requires
        0 <= pos <= data.len(),
        carries(data, pos, u16_bytes(a) + u16_bytes(b)),
    ensures
        has_bytes(data, pos, 4) ==> u16_at(data, pos) == a && u16_at(data, pos + 2) == b,
{
    lemma_carries_split(data, pos, u16_bytes(a), u16_bytes(b));
    if has_bytes(data, pos, 4) {
        lemma_u16_at_bytes(data, pos, a);
        lemma_u16_at_bytes(data, pos + 2, b);
    }
}

impl Parse for CpInfoModel {
    open spec fn parse(data: Seq<u8>, pos: int) -> Parsed<CpInfoModel> {
        if !has_bytes(data, pos, 1) {
            Err(ErrorModel::TruncatedInput)
        } else {
            match parse_info(data[pos], data, pos + 1) {
                Ok((info, p)) => Ok((CpInfoModel { tag: data[pos], info }, p)),
                Err(e) => Err(e),
            }
        }
    }

    /// The stored tag is that of the kind of entry, and the stored length of
    /// a text is the number of bytes of its encoding.
    open spec fn valid(self) -> bool {
        &&& self.tag == tag_of(self.info)
        &&& self.info matches CpInfoTypeModel::Utf8 { length, bytes } ==> length == encode_utf8(
            bytes,
        ).len()
    }

    proof fn lemma_parse(self, data: Seq<u8>, pos: int) {
        lemma_carries_split(data, pos, seq![tag_of(self.info)], self.info.wire());
        if pos < data.len() {
            assert(data[pos + 0] == seq![tag_of(self.info)][0]);
            lemma_parse_info(self.info, data, pos + 1);
        }
    }
}

/// The number of slots that an entry takes in the pool.
pub open spec fn entry_width(e: CpInfoModel) -> int {
    if e.info is Long || e.info is Double {
        2
    } else {
        1
    }
}

/// The number of slots that the entries of `pool` take together.
pub open spec fn pool_slots(pool: Seq<CpInfoModel>) -> int
    decreases pool.len(),
{
    if pool.len() == 0 {
        0
    } else {
        entry_width(pool[0]) + pool_slots(pool.drop_first())
    }
}

/// The entry that starts at slot `index` of `pool`; the first entry starts
/// at slot 1. Nothing for slot 0, for the second slot of a long or double,
/// and for a slot behind the last entry.
pub open spec fn pool_entry(pool: Seq<CpInfoModel>, index: int) -> Option<CpInfoModel>
    decreases pool.len(),
{
    if pool.len() == 0 || index < 1 {
        None
    } else if index == 1 {
        Some(pool[0])
    } else {
        pool_entry(pool.drop_first(), index - entry_width(pool[0]))
    }
}

/// The text of the entry at slot `index`, if that entry is a text.
pub open spec fn pool_utf8(pool: Seq<CpInfoModel>, index: int) -> Option<Seq<char>> {
    match pool_entry(pool, index) {
        Some(e) => match e.info {
            CpInfoTypeModel::Utf8 { length, bytes } => Some(bytes),
            _ => None,
        },
        None => None,
    }
}

/// The entries that stand in `data` from `pos` on and fill `slots` slots.
pub open spec fn parse_pool(data: Seq<u8>, pos: int, slots: int) -> Parsed<Seq<CpInfoModel>>
    decreases slots,
{
    if slots <= 0 {
        Ok((Seq::empty(), pos))
    } else {
        match CpInfoModel::parse(data, pos) {
            Ok((e, p)) => prepend(
                seq![e],
                if slots > entry_width(e) {
                    parse_pool(data, p, slots - entry_width(e))
                } else {
                    Ok((Seq::empty(), p))
                },
            ),
            Err(e) => Err(e),
        }
    }
}

/// Decoding where the encoding of a pool of valid entries stands, for as
/// many slots as the pool takes, gives the pool back; where the buffer ends
/// before the encoding does, decoding fails for want of input.
pub proof fn lemma_parse_pool(pool: Seq<CpInfoModel>, data: Seq<u8>, pos: int)
    requires
        all_encodable(pool),
        all_valid(pool),
        0 <= pos <= data.len(),
        carries(data, pos, wire_all(pool)),
    ensures
        parse_pool(data, pos, pool_slots(pool)) == expected(pool, data, pos, wire_all(pool)),
        pool_slots(pool) >= pool.len(),
    decreases pool.len(),
{
    if pool.len() == 0 {
        assert(pool =~= Seq::<CpInfoModel>::empty());
    } else {
        let head = pool[0];
        let tail = pool.drop_first();
        assert forall|i: int| 0 <= i < tail.len() implies (#[trigger] tail[i]).encodable()
            && tail[i].valid() by {
            assert(tail[i] == pool[i + 1]);
        }
        lemma_carries_split(data, pos, head.wire(), wire_all(tail));
        head.lemma_parse(data, pos);
        let mid = pos + head.wire().len();
        if mid <= data.len() {
            lemma_parse_pool(tail, data, mid);
            assert(seq![head] + tail =~= pool);
        } else {
            lemma_pool_slots_len(tail);
        }
    }
}

/// A pool takes at least one slot for each entry.
pub proof fn lemma_pool_slots_len(pool: Seq<CpInfoModel>)
    ensures
        pool_slots(pool) >= pool.len(),
    decreases pool.len(),
{
    if pool.len() > 0 {
        lemma_pool_slots_len(pool.drop_first());
    }
}

/// A pool with one more entry takes the slots of that entry more.
pub proof fn lemma_pool_slots_push(pool: Seq<CpInfoModel>, e: CpInfoModel)
    ensures
        pool_slots(pool.push(e)) == pool_slots(pool) + entry_width(e),
    decreases pool.len(),
{
    if pool.len() == 0 {
        assert(pool.push(e).drop_first() =~= Seq::<CpInfoModel>::empty());
        assert(pool.push(e)[0] == e);
        assert(pool_slots(pool.push(e).drop_first()) == 0);
    } else {
        assert(pool.push(e)[0] == pool[0]);
        lemma_pool_slots_push(pool.drop_first(), e);
        assert(pool.push(e).drop_first() =~= pool.drop_first().push(e));
    }
}

/// An entry pushed to a pool starts at the slot behind the slots of the
/// pool, and the entries before it stay where they were.
pub proof fn lemma_pool_entry_push(pool: Seq<CpInfoModel>, e: CpInfoModel, index: int)
    ensures
        pool_entry(pool.push(e), pool_slots(pool) + 1) == Some(e),
        index <= pool_slots(pool) ==> pool_entry(pool.push(e), index) == pool_entry(pool, index),
    decreases pool.len(),
{
    if pool.len() == 0 {
        assert(pool.push(e)[0] == e);
    } else {
        assert(pool.push(e).drop_first() =~= pool.drop_first().push(e));
        assert(pool.push(e)[0] == pool[0]);
        lemma_pool_entry_push(pool.drop_first(), e, index - entry_width(pool[0]));
        lemma_pool_slots_len(pool.drop_first());
    }
}


/// Appends the bytes of `text` in UTF-8.
fn put_text(out: &mut Vec<u8>, text: &str)
    ensures
        final(out)@ == old(out)@ + encode_utf8(text@),
{
    let bytes = text.as_bytes();
    let mut i: usize = 0;
    while i < bytes.len()
        invariant
            i <= bytes.len(),
            bytes@ == encode_utf8(text@),
            out@ == old(out)@ + bytes@.take(i as int),
        decreases bytes.len() - i,
    {
        out.push(bytes[i]);
        i += 1;
    }
    proof {
        assert(bytes@.take(i as int) =~= bytes@);
    }
}

impl ToJvmBytecode for CpInfo {
    /// The tag of the kind of entry and the entry's bytes. Fails where a
    /// text takes more than 65535 bytes.
    fn to_jvm_bytecode(&self) -> (r: Result<Vec<u8>, Error>) {
        let mut bytes: Vec<u8> = Vec::new();
        match &self.info {
            CpInfoType::Class { name_index } => {
                bytes.push(CP_TAG_CLASS);
                put_u16(&mut bytes, *name_index);
            },
            CpInfoType::Fieldref { class_index, name_and_type_index } => {
                bytes.push(CP_TAG_FIELDREF);
                put_u16(&mut bytes, *class_index);
                put_u16(&mut bytes, *name_and_type_index);
            },
            CpInfoType::Methodref { class_index, name_and_type_index } => {
                bytes.push(CP_TAG_METHODREF);
                put_u16(&mut bytes, *class_index);
                put_u16(&mut bytes, *name_and_type_index);
            },
            CpInfoType::InterfaceMethodref { class_index, name_and_type_index } => {
                bytes.push(CP_TAG_INTERFACEMETHODREF);
                put_u16(&mut bytes, *class_index);
                put_u16(&mut bytes, *name_and_type_index);
            },
            CpInfoType::String { string_index } => {
                bytes.push(CP_TAG_STRING);
                put_u16(&mut bytes, *string_index);
            },
            CpInfoType::Integer { bytes: i } => {
                bytes.push(CP_TAG_INTEGER);
                put_u32(&mut bytes, *i);
            },
            CpInfoType::Float { bytes: f } => {
                bytes.push(CP_TAG_FLOAT);
                put_u32(&mut bytes, *f);
            },
            CpInfoType::Long { high_bytes, low_bytes } => {
                bytes.push(CP_TAG_LONG);
                put_u32(&mut bytes, *high_bytes);
                put_u32(&mut bytes, *low_bytes);
            },
            CpInfoType::Double { high_bytes, low_bytes } => {
                bytes.push(CP_TAG_DOUBLE);
                put_u32(&mut bytes, *high_bytes);
                put_u32(&mut bytes, *low_bytes);
            },
            CpInfoType::NameAndType { name_index, descriptor_index } => {
                bytes.push(CP_TAG_NAMEANDTYPE);
                put_u16(&mut bytes, *name_index);
                put_u16(&mut bytes, *descriptor_index);
            },
            CpInfoType::Utf8 { length, bytes: text } => {
                let size = text.as_str().as_bytes().len();
                if size > 0xffff {
                    return Err(Error::IndexOutOfRange);
                }
                bytes.push(CP_TAG_UTF8);
                put_u16(&mut bytes, size as u16);
                put_text(&mut bytes, text.as_str());
            },
            CpInfoType::MethodHandle { reference_kind, reference_index } => {
                bytes.push(CP_TAG_METHODHANDLE);
                bytes.push(*reference_kind);
                put_u16(&mut bytes, *reference_index);
            },
            CpInfoType::MethodType { descriptor_index } => {
                bytes.push(CP_TAG_METHODTYPE);
                put_u16(&mut bytes, *descriptor_index);
            },
            CpInfoType::InvokeDynamic { bootstrap_method_attr_index, name_and_type_index } => {
                bytes.push(CP_TAG_INVOKEDYNAMIC);
                put_u16(&mut bytes, *bootstrap_method_attr_index);
                put_u16(&mut bytes, *name_and_type_index);
            },
        }
        proof {
            assert(bytes@ =~= self@.wire());
        }
        Ok(bytes)
    }
}

impl Decode for CpInfo {
    /// Reads the tag byte and the entry that the tag announces.
    fn decode(reader: &mut Reader) -> (r: Result<CpInfo, Error>) {
        let tag = reader.read_int1()?;
        let info = if tag == CP_TAG_CLASS {
            CpInfoType::Class { name_index: reader.read_int2()? }
        } else if tag == CP_TAG_STRING {
            CpInfoType::String { string_index: reader.read_int2()? }
        } else if tag == CP_TAG_METHODTYPE {
            CpInfoType::MethodType { descriptor_index: reader.read_int2()? }
        } else if tag == CP_TAG_FIELDREF || tag == CP_TAG_METHODREF || tag
            == CP_TAG_INTERFACEMETHODREF || tag == CP_TAG_NAMEANDTYPE || tag
            == CP_TAG_INVOKEDYNAMIC {
            let first = reader.read_int2()?;
            let second = reader.read_int2()?;
            if tag == CP_TAG_FIELDREF {
                CpInfoType::Fieldref { class_index: first, name_and_type_index: second }
            } else if tag == CP_TAG_METHODREF {
                CpInfoType::Methodref { class_index: first, name_and_type_index: second }
            } else if tag == CP_TAG_INTERFACEMETHODREF {
                CpInfoType::InterfaceMethodref { class_index: first, name_and_type_index: second }
            } else if tag == CP_TAG_NAMEANDTYPE {
                CpInfoType::NameAndType { name_index: first, descriptor_index: second }
            } else {
                CpInfoType::InvokeDynamic {
                    bootstrap_method_attr_index: first,
                    name_and_type_index: second,
                }
            }
        } else if tag == CP_TAG_INTEGER {
            CpInfoType::Integer { bytes: reader.read_int4()? }
        } else if tag == CP_TAG_FLOAT {
            CpInfoType::Float { bytes: reader.read_int4()? }
        } else if tag == CP_TAG_LONG || tag == CP_TAG_DOUBLE {
            let high_bytes = reader.read_int4()?;
            let low_bytes = reader.read_int4()?;
            if tag == CP_TAG_LONG {
                CpInfoType::Long { high_bytes, low_bytes }
            } else {
                CpInfoType::Double { high_bytes, low_bytes }
            }
        } else if tag == CP_TAG_UTF8 {
            let length = reader.read_int2()?;
            let bytes = reader.read_string(length as usize)?;
            CpInfoType::Utf8 { length, bytes }
        } else if tag == CP_TAG_METHODHANDLE {
            let reference_kind = reader.read_int1()?;
            let reference_index = reader.read_int2()?;
            CpInfoType::MethodHandle { reference_kind, reference_index }
        } else {
            return Err(Error::UnknownTag(tag));
        };
        Ok(CpInfo { tag, info })
    }
}

/// An index that leads to an entry is a slot of the pool.
pub proof fn lemma_pool_entry_range(pool: Seq<CpInfoModel>, index: int)
    requires
        pool_entry(pool, index) is Some,
    ensures
        1 <= index <= pool_slots(pool),
    decreases pool.len(),
{
    if pool.len() > 0 {
        lemma_pool_slots_len(pool.drop_first());
        if index > 1 {
            lemma_pool_entry_range(pool.drop_first(), index - entry_width(pool[0]));
        }
    }
}

/// A pool in which every entry takes one slot takes as many slots as it has
/// entries, and slot `i + 1` holds entry `i`.
pub proof fn lemma_narrow_pool(pool: Seq<CpInfoModel>, i: int)
    requires
        forall|j: int| 0 <= j < pool.len() ==> entry_width(#[trigger] pool[j]) == 1,
    ensures
        pool_slots(pool) == pool.len(),
        0 <= i < pool.len() ==> pool_entry(pool, i + 1) == Some(pool[i]),
        !(0 <= i < pool.len()) ==> pool_entry(pool, i + 1) is None,
    decreases pool.len(),
{
    if pool.len() > 0 {
        let tail = pool.drop_first();
        assert forall|j: int| 0 <= j < tail.len() implies entry_width(#[trigger] tail[j]) == 1 by {
            assert(tail[j] == pool[j + 1]);
        }
        lemma_narrow_pool(tail, i - 1);
        if 0 < i < pool.len() {
            assert(tail[i - 1] == pool[i]);
        }
    }
}

/// The number of slots that the entry takes.
pub fn width_of(entry: &CpInfo) -> (w: u16)
    ensures
        w == entry_width(entry@),
{
    match &entry.info {
        CpInfoType::Long { .. } => 2,
        CpInfoType::Double { .. } => 2,
        _ => 1,
    }
}

/// Reads the entries of a pool whose count field holds `count`: entries for
/// `count - 1` slots.
pub fn read_pool(reader: &mut Reader, count: u16) -> (r: Result<Vec<CpInfo>, Error>)
    ensures
        decoded_table(
            *old(reader),
            *final(reader),
            r,
            parse_pool(old(reader).data@, old(reader).cursor as int, count - 1),
        ),
{
    let mut pool: Vec<CpInfo> = Vec::new();
    let mut slot: u32 = 1;
    let ghost data = reader.data@;
    let ghost start = reader.cursor as int;
    proof {
        assert(models(pool@) =~= Seq::<CpInfoModel>::empty());
        if let Ok((s, p)) = parse_pool(data, start, count - 1) {
            assert(Seq::<CpInfoModel>::empty() + s =~= s);
        }
    }
    while slot < count as u32
        invariant
            1 <= slot <= count + 1,
            reader.data == old(reader).data,
            data == reader.data@,
            start == old(reader).cursor,
            start <= reader.cursor,
            parse_pool(data, start, count - 1) == prepend(
                models(pool@),
                parse_pool(data, reader.cursor as int, count - slot),
            ),
        decreases count + 1 - slot,
    {
        let entry = CpInfo::decode(reader)?;
        proof {
            let rest = if count - slot > entry_width(entry@) {
                parse_pool(data, reader.cursor as int, count - slot - entry_width(entry@))
            } else {
                Ok((Seq::empty(), reader.cursor as int))
            };
            lemma_prepend_push(models(pool@), entry@, rest);
            assert(models(pool@.push(entry)) =~= models(pool@).push(entry@));
        }
        slot = slot + width_of(&entry) as u32;
        pool.push(entry);
    }
    proof {
        lemma_prepend_empty(models(pool@), reader.cursor as int);
    }
    Ok(pool)
}

/// The entry that starts at slot `index` of the pool.
pub fn entry_at(pool: &Vec<CpInfo>, index: u16) -> (r: Option<&CpInfo>)
    ensures
        match pool_entry(models(pool@), index as int) {
            Some(m) => r matches Some(e) && e@ == m,
            None => r is None,
        },
{
    if index == 0 {
        return None;
    }
    let ghost ms = models(pool@);
    let mut slot: u32 = 1;
    let mut i: usize = 0;
    proof {
        assert(ms.skip(0) =~= ms);
    }
    while i < pool.len()
        invariant
            i <= pool.len(),
            ms == models(pool@),
            1 <= slot <= index,
            slot <= 2 * i + 1,
            pool_entry(ms, index as int) == pool_entry(ms.skip(i as int), index - slot + 1),
        decreases pool.len() - i,
    {
        proof {
            assert(ms.skip(i as int)[0] == pool@[i as int]@);
            assert(ms.skip(i as int).drop_first() =~= ms.skip(i + 1));
        }
        if slot == index as u32 {
            return Some(&pool[i]);
        }
        let next = slot + width_of(&pool[i]) as u32;
        if next > index as u32 {
            proof {
                assert(pool_entry(ms.skip(i + 1), index - next + 1) is None);
            }
            return None;
        }
        slot = next;
        i += 1;
    }
    None
}

/// The text of the entry at slot `index` of the pool, if that entry is a
/// text.
pub fn text_at(pool: &Vec<CpInfo>, index: u16) -> (r: Option<&String>)
    ensures
        match pool_utf8(models(pool@), index as int) {
            Some(text) => r matches Some(s) && s@ == text,
            None => r is None,
        },
{
    match entry_at(pool, index) {
        Some(entry) => match &entry.info {
            CpInfoType::Utf8 { length, bytes } => Some(bytes),
            _ => None,
        },
        None => None,
    }
}

} // verus!
