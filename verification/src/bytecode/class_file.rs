//! The class file as a whole, its fields and its methods.

use vstd::prelude::*;
use crate::error::{Error, ErrorModel};
use crate::reader::{
    carries, has_bytes, lemma_carries_split, lemma_u16_at_bytes, lemma_u32_at_bytes, u16_at,
    u16_bytes, u32_at, u32_bytes,
};
use crate::wire::{
    all_encodable, all_valid, clone_all, encode_all, encode_counted, expected, lemma_parse_counted,
    models, parse_counted, prepend, put_u16, put_u32, wire_all, wire_counted, Parsed, Wire,
};
use super::attribute::{
    attribute_models, attributes_ok, copy_attributes, lemma_parse_attributes, parse_attributes,
    wire_attributes, write_attributes, AttributeInfo, AttributeInfoModel,
};
use super::constant_pool::{
    lemma_parse_pool, lemma_pool_slots_len, lemma_pool_slots_push, parse_pool, pool_slots, width_of,
    CpInfo, CpInfoModel,
};
use super::{ToJvmBytecode, JVM_MAGIC};

verus! {

/// A class file: the version, the constant pool, the class's own names and
/// flags, and its interfaces, fields, methods and attributes. Beside each
/// table stands the count that the file holds for it; the count of the
/// constant pool is one more than the number of slots that the pool takes.
#[derive(Debug, PartialEq, Default)]
pub struct ClassFile {
    pub magic: u32,
    pub minor_version: u16,
    pub major_version: u16,
    pub constant_pool_count: u16,
    pub constant_pool: Vec<CpInfo>,
    pub access_flags: u16,
    pub this_class: u16,
    pub super_class: u16,
    pub interfaces_count: u16,
    pub interfaces: Vec<u16>,
    pub fields_count: u16,
    pub fields: Vec<FieldInfo>,
    pub method_count: u16,
    pub method_info: Vec<MethodInfo>,
    pub attributes_count: u16,
    pub attributes: Vec<AttributeInfo>,
}

/// A field: its flags, the indices of its name and descriptor, and its
/// attributes.
#[derive(Debug, PartialEq, Default)]
pub struct FieldInfo {
    pub access_flags: u16,
    pub name_index: u16,
    pub descriptor_index: u16,
    pub attributes_count: u16,
    pub attributes: Vec<AttributeInfo>,
}

/// A method: its flags, the indices of its name and descriptor, and its
/// attributes, among them its code.
#[derive(Debug, PartialEq)]
pub struct MethodInfo {
    pub access_flags: u16,
    pub name_index: u16,
    pub descriptor_index: u16,
    pub attributes_count: u16,
    pub attributes: Vec<AttributeInfo>,
}

/// The model of a field and of a method, which have the same shape.
pub struct MemberModel {
    pub access_flags: u16,
    pub name_index: u16,
    pub descriptor_index: u16,
    pub attributes_count: u16,
    pub attributes: Seq<AttributeInfoModel>,
}

/// The model of a [`ClassFile`]: every table as a sequence of the models of
/// its items.
pub struct ClassFileModel {
    pub magic: u32,
    pub minor_version: u16,
    pub major_version: u16,
    pub constant_pool_count: u16,
    pub constant_pool: Seq<CpInfoModel>,
    pub access_flags: u16,
    pub this_class: u16,
    pub super_class: u16,
    pub interfaces_count: u16,
    pub interfaces: Seq<u16>,
    pub fields_count: u16,
    pub fields: Seq<MemberModel>,
    pub method_count: u16,
    pub method_info: Seq<MemberModel>,
    pub attributes_count: u16,
    pub attributes: Seq<AttributeInfoModel>,
}

impl View for FieldInfo {
    type V = MemberModel;

    open spec fn view(&self) -> MemberModel {
        MemberModel {
            access_flags: self.access_flags,
            name_index: self.name_index,
            descriptor_index: self.descriptor_index,
            attributes_count: self.attributes_count,
            attributes: attribute_models(self.attributes@),
        }
    }
}

impl View for MethodInfo {
    type V = MemberModel;

    open spec fn view(&self) -> MemberModel {
        MemberModel {
            access_flags: self.access_flags,
            name_index: self.name_index,
            descriptor_index: self.descriptor_index,
            attributes_count: self.attributes_count,
            attributes: attribute_models(self.attributes@),
        }
    }
}

impl View for ClassFile {
    type V = ClassFileModel;

    open spec fn view(&self) -> ClassFileModel {
        ClassFileModel {
            magic: self.magic,
            minor_version: self.minor_version,
            major_version: self.major_version,
            constant_pool_count: self.constant_pool_count,
            constant_pool: models(self.constant_pool@),
            access_flags: self.access_flags,
            this_class: self.this_class,
            super_class: self.super_class,
            interfaces_count: self.interfaces_count,
            interfaces: models(self.interfaces@),
            fields_count: self.fields_count,
            fields: models(self.fields@),
            method_count: self.method_count,
            method_info: models(self.method_info@),
            attributes_count: self.attributes_count,
            attributes: attribute_models(self.attributes@),
        }
    }
}

/// Whether the member can be written, and with `strict`, whether decoding
/// its encoding gives it back, where `pool` holds the names of its
/// attributes.
pub open spec fn member_ok(m: MemberModel, strict: bool, pool: Seq<CpInfoModel>) -> bool {
    &&& m.attributes.len() <= 0xffff
    &&& attributes_ok(m.attributes, strict, pool)
    &&& strict ==> m.attributes_count == m.attributes.len()
}

/// Whether every member of the table is `member_ok`.
pub open spec fn members_ok(s: Seq<MemberModel>, strict: bool, pool: Seq<CpInfoModel>) -> bool {
    forall|i: int| 0 <= i < s.len() ==> member_ok(#[trigger] s[i], strict, pool)
}

impl Wire for MemberModel {
    open spec fn encodable(self) -> bool {
        member_ok(self, false, Seq::empty())
    }

    open spec fn wire(self) -> Seq<u8> {
        u16_bytes(self.access_flags) + u16_bytes(self.name_index) + u16_bytes(self.descriptor_index)
            + u16_bytes(self.attributes.len() as u16) + wire_attributes(self.attributes)
    }
}

impl Wire for ClassFileModel {
    /// The pool must not take more than 65534 slots, no table may be longer
    /// than 65535, and every part must be encodable.
    open spec fn encodable(self) -> bool {
        &&& pool_slots(self.constant_pool) + 1 <= 0xffff
        &&& all_encodable(self.constant_pool)
        &&& self.interfaces.len() <= 0xffff
        &&& self.fields.len() <= 0xffff
        &&& all_encodable(self.fields)
        &&& self.method_info.len() <= 0xffff
        &&& all_encodable(self.method_info)
        &&& self.attributes.len() <= 0xffff
        &&& attributes_ok(self.attributes, false, Seq::empty())
    }

    open spec fn wire(self) -> Seq<u8> {
        u32_bytes(self.magic) + u16_bytes(self.minor_version) + u16_bytes(self.major_version)
            + u16_bytes((pool_slots(self.constant_pool) + 1) as u16) + wire_all(self.constant_pool)
            + u16_bytes(self.access_flags) + u16_bytes(self.this_class) + u16_bytes(
            self.super_class,
        ) + wire_counted(self.interfaces) + wire_counted(self.fields) + wire_counted(
            self.method_info,
        ) + u16_bytes(self.attributes.len() as u16) + wire_attributes(self.attributes)
    }
}

/// Whether decoding the encoding of the class file gives it back: the magic
/// number is that of the format, every stored count is the one that the
/// contents determine, every entry of the pool is valid, and every member
/// and attribute is valid with its names in the pool.
pub open spec fn class_valid(c: ClassFileModel) -> bool {
    &&& c.magic == JVM_MAGIC
    &&& c.constant_pool_count == pool_slots(c.constant_pool) + 1
    &&& all_valid(c.constant_pool)
    &&& c.interfaces_count == c.interfaces.len()
    &&& c.fields_count == c.fields.len()
    &&& members_ok(c.fields, true, c.constant_pool)
    &&& c.method_count == c.method_info.len()
    &&& members_ok(c.method_info, true, c.constant_pool)
    &&& c.attributes_count == c.attributes.len()
    &&& attributes_ok(c.attributes, true, c.constant_pool)
}

/// The field or method that stands in `data` at `pos`.
pub open spec fn parse_member(data: Seq<u8>, pos: int, pool: Seq<CpInfoModel>) -> Parsed<
    MemberModel,
> {
    if !has_bytes(data, pos, 8) {
        Err(ErrorModel::TruncatedInput)
    } else {
        let count = u16_at(data, pos + 6);
        match parse_attributes(data, pos + 8, pool, count as int) {
            Ok((attributes, p)) => Ok(
                (
                    MemberModel {
                        access_flags: u16_at(data, pos),
                        name_index: u16_at(data, pos + 2),
                        descriptor_index: u16_at(data, pos + 4),
                        attributes_count: count,
                        attributes,
                    },
                    p,
                ),
            ),
            Err(e) => Err(e),
        }
    }
}

/// The `n` fields or methods that stand in `data` from `pos` on.
pub open spec fn parse_members(data: Seq<u8>, pos: int, pool: Seq<CpInfoModel>, n: int) -> Parsed<
    Seq<MemberModel>,
>
    decreases n,
{
    if n <= 0 {
        Ok((Seq::empty(), pos))
    } else {
        match parse_member(data, pos, pool) {
            Ok((m, p)) => prepend(seq![m], parse_members(data, p, pool, n - 1)),
            Err(e) => Err(e),
        }
    }
}

/// A table of fields or methods behind its count.
pub open spec fn parse_member_table(data: Seq<u8>, pos: int, pool: Seq<CpInfoModel>) -> Parsed<
    (u16, Seq<MemberModel>),
> {
    if !has_bytes(data, pos, 2) {
        Err(ErrorModel::TruncatedInput)
    } else {
        match parse_members(data, pos + 2, pool, u16_at(data, pos) as int) {
            Ok((s, p)) => Ok(((u16_at(data, pos), s), p)),
            Err(e) => Err(e),
        }
    }
}

/// A table of attributes behind its count.
pub open spec fn parse_attribute_table(data: Seq<u8>, pos: int, pool: Seq<CpInfoModel>) -> Parsed<
    (u16, Seq<AttributeInfoModel>),
> {
    if !has_bytes(data, pos, 2) {
        Err(ErrorModel::TruncatedInput)
    } else {
        match parse_attributes(data, pos + 2, pool, u16_at(data, pos) as int) {
            Ok((s, p)) => Ok(((u16_at(data, pos), s), p)),
            Err(e) => Err(e),
        }
    }
}

/// What stands behind the constant pool of a class file: the class's own
/// flags and names, then the tables of interfaces, fields, methods and
/// attributes, each behind its count.
pub open spec fn parse_class_body(
    minor_version: u16,
    major_version: u16,
    constant_pool_count: u16,
    pool: Seq<CpInfoModel>,
    data: Seq<u8>,
    pos: int,
) -> Parsed<ClassFileModel> {
    if !has_bytes(data, pos, 6) {
        Err(ErrorModel::TruncatedInput)
    } else {
        match parse_counted::<u16>(data, pos + 6) {
            Err(e) => Err(e),
            Ok(((interfaces_count, interfaces), at_fields)) => match parse_member_table(data, at_fields, pool) {
                Err(e) => Err(e),
                Ok(((fields_count, fields), at_methods)) => match parse_member_table(data, at_methods, pool) {
                    Err(e) => Err(e),
                    Ok(((method_count, method_info), at_attributes)) => match parse_attribute_table(
                        data,
                        at_attributes,
                        pool,
                    ) {
                        Err(e) => Err(e),
                        Ok(((attributes_count, attributes), end)) => Ok(
                            (
                                ClassFileModel {
                                    magic: JVM_MAGIC,
                                    minor_version,
                                    major_version,
                                    constant_pool_count,
                                    constant_pool: pool,
                                    access_flags: u16_at(data, pos),
                                    this_class: u16_at(data, pos + 2),
                                    super_class: u16_at(data, pos + 4),
                                    interfaces_count,
                                    interfaces,
                                    fields_count,
                                    fields,
                                    method_count,
                                    method_info,
                                    attributes_count,
                                    attributes,
                                },
                                end,
                            ),
                        ),
                    },
                },
            },
        }
    }
}

/// The class file that stands in `data` at `pos`: the magic number, which
/// must be that of the format, the version, the constant pool, and what
/// stands behind the pool.
pub open spec fn parse_class(data: Seq<u8>, pos: int) -> Parsed<ClassFileModel> {
    if !has_bytes(data, pos, 4) {
        Err(ErrorModel::TruncatedInput)
    } else if u32_at(data, pos) != JVM_MAGIC {
        Err(ErrorModel::BadMagic)
    } else if !has_bytes(data, pos, 10) {
        Err(ErrorModel::TruncatedInput)
    } else {
        let count = u16_at(data, pos + 8);
        match parse_pool(data, pos + 10, count - 1) {
            Ok((pool, p)) => parse_class_body(
                u16_at(data, pos + 4),
                u16_at(data, pos + 6),
                count,
                pool,
                data,
                p,
            ),
            Err(e) => Err(e),
        }
    }
}


/// Decoding where the encoding of a valid field or method stands gives it
/// back; where the buffer ends before the encoding does, decoding fails for
/// want of input.
pub proof fn lemma_parse_member(m: MemberModel, data: Seq<u8>, pos: int, pool: Seq<CpInfoModel>)
    requires
        member_ok(m, false, Seq::empty()),
        member_ok(m, true, pool),
        0 <= pos <= data.len(),
        carries(data, pos, m.wire()),
    ensures
        parse_member(data, pos, pool) == expected(m, data, pos, m.wire()),
{
    let w0 = u16_bytes(m.access_flags);
    let w1 = u16_bytes(m.name_index);
    let w2 = u16_bytes(m.descriptor_index);
    let w3 = u16_bytes(m.attributes.len() as u16);
    lemma_carries_split(data, pos, w0 + w1 + w2 + w3, wire_attributes(m.attributes));
    lemma_carries_split(data, pos, w0 + w1 + w2, w3);
    lemma_carries_split(data, pos, w0 + w1, w2);
    lemma_carries_split(data, pos, w0, w1);
    if has_bytes(data, pos, 8) {
        lemma_u16_at_bytes(data, pos, m.access_flags);
        lemma_u16_at_bytes(data, pos + 2, m.name_index);
        lemma_u16_at_bytes(data, pos + 4, m.descriptor_index);
        lemma_u16_at_bytes(data, pos + 6, m.attributes.len() as u16);
        lemma_parse_attributes(m.attributes, data, pos + 8, pool);
    }
}

/// Decoding where the encodings of valid fields or methods stand gives them
/// back; where the buffer ends before the encodings do, decoding fails for
/// want of input.
pub proof fn lemma_parse_members(
    s: Seq<MemberModel>,
    data: Seq<u8>,
    pos: int,
    pool: Seq<CpInfoModel>,
)
    requires
        all_encodable(s),
        members_ok(s, true, pool),
        0 <= pos <= data.len(),
        carries(data, pos, wire_all(s)),
    ensures
        parse_members(data, pos, pool, s.len() as int) == expected(s, data, pos, wire_all(s)),
    decreases s.len(),
{
    if s.len() == 0 {
        assert(s =~= Seq::<MemberModel>::empty());
    } else {
        let head = s[0];
        let tail = s.drop_first();
        assert(head.encodable());
        assert forall|i: int| 0 <= i < tail.len() implies (#[trigger] tail[i]).encodable()
            && member_ok(tail[i], true, pool) by {
            assert(tail[i] == s[i + 1]);
        }
        lemma_carries_split(data, pos, head.wire(), wire_all(tail));
        lemma_parse_member(head, data, pos, pool);
        let mid = pos + head.wire().len();
        if mid <= data.len() {
            lemma_parse_members(tail, data, mid, pool);
            assert(seq![head] + tail =~= s);
        }
    }
}

/// As `lemma_parse_members`, for a table behind its count.
pub proof fn lemma_parse_member_table(
    s: Seq<MemberModel>,
    data: Seq<u8>,
    pos: int,
    pool: Seq<CpInfoModel>,
)
    requires
        s.len() <= 0xffff,
        all_encodable(s),
        members_ok(s, true, pool),
        0 <= pos <= data.len(),
        carries(data, pos, wire_counted(s)),
    ensures
        parse_member_table(data, pos, pool) == expected(
            (s.len() as u16, s),
            data,
            pos,
            wire_counted(s),
        ),
{
    lemma_carries_split(data, pos, u16_bytes(s.len() as u16), wire_all(s));
    if has_bytes(data, pos, 2) {
        lemma_u16_at_bytes(data, pos, s.len() as u16);
        lemma_parse_members(s, data, pos + 2, pool);
    }
}

/// As `lemma_parse_attributes`, for a table behind its count.
pub proof fn lemma_parse_attribute_table(
    s: Seq<AttributeInfoModel>,
    data: Seq<u8>,
    pos: int,
    pool: Seq<CpInfoModel>,
)
    requires
        s.len() <= 0xffff,
        attributes_ok(s, false, Seq::empty()),
        attributes_ok(s, true, pool),
        0 <= pos <= data.len(),
        carries(data, pos, u16_bytes(s.len() as u16) + wire_attributes(s)),
    ensures
        parse_attribute_table(data, pos, pool) == expected(
            (s.len() as u16, s),
            data,
            pos,
            u16_bytes(s.len() as u16) + wire_attributes(s),
        ),
{
    lemma_carries_split(data, pos, u16_bytes(s.len() as u16), wire_attributes(s));
    if has_bytes(data, pos, 2) {
        lemma_u16_at_bytes(data, pos, s.len() as u16);
        lemma_parse_attributes(s, data, pos + 2, pool);
    }
}

/// Decoding where the encoding of a valid class file stands gives the class
/// file back; where the buffer ends before the encoding does, decoding
/// fails for want of input.
pub proof fn lemma_parse_class(c: ClassFileModel, data: Seq<u8>, pos: int)
    requires
        c.encodable(),
        class_valid(c),
        0 <= pos <= data.len(),
        carries(data, pos, c.wire()),
    ensures
        parse_class(data, pos) == expected(c, data, pos, c.wire()),
{
    let pool = c.constant_pool;
    let w0 = u32_bytes(c.magic);
    let w1 = u16_bytes(c.minor_version);
    let w2 = u16_bytes(c.major_version);
    let w3 = u16_bytes((pool_slots(pool) + 1) as u16);
    let w4 = wire_all(pool);
    let w5 = u16_bytes(c.access_flags);
    let w6 = u16_bytes(c.this_class);
    let w7 = u16_bytes(c.super_class);
    let w8 = wire_counted(c.interfaces);
    let w9 = wire_counted(c.fields);
    let w10 = wire_counted(c.method_info);
    let w11 = u16_bytes(c.attributes.len() as u16) + wire_attributes(c.attributes);
    assert(c.wire() =~= w0 + w1 + w2 + w3 + w4 + w5 + w6 + w7 + w8 + w9 + w10 + w11);
    lemma_carries_split(data, pos, w0 + w1 + w2 + w3 + w4 + w5 + w6 + w7 + w8 + w9 + w10, w11);
    lemma_carries_split(data, pos, w0 + w1 + w2 + w3 + w4 + w5 + w6 + w7 + w8 + w9, w10);
    lemma_carries_split(data, pos, w0 + w1 + w2 + w3 + w4 + w5 + w6 + w7 + w8, w9);
    lemma_carries_split(data, pos, w0 + w1 + w2 + w3 + w4 + w5 + w6 + w7, w8);
    lemma_carries_split(data, pos, w0 + w1 + w2 + w3 + w4 + w5 + w6, w7);
    lemma_carries_split(data, pos, w0 + w1 + w2 + w3 + w4 + w5, w6);
    lemma_carries_split(data, pos, w0 + w1 + w2 + w3 + w4, w5);
    lemma_carries_split(data, pos, w0 + w1 + w2 + w3, w4);
    lemma_carries_split(data, pos, w0 + w1 + w2, w3);
    lemma_carries_split(data, pos, w0 + w1, w2);
    lemma_carries_split(data, pos, w0, w1);
    lemma_pool_slots_len(pool);
    if has_bytes(data, pos, 4) {
        lemma_u32_at_bytes(data, pos, c.magic);
    }
    if has_bytes(data, pos, 10) {
        lemma_u16_at_bytes(data, pos + 4, c.minor_version);
        lemma_u16_at_bytes(data, pos + 6, c.major_version);
        lemma_u16_at_bytes(data, pos + 8, (pool_slots(pool) + 1) as u16);
        lemma_parse_pool(pool, data, pos + 10);
        let p = pos + 10 + w4.len();
        if has_bytes(data, p, 6) {
            lemma_u16_at_bytes(data, p, c.access_flags);
            lemma_u16_at_bytes(data, p + 2, c.this_class);
            lemma_u16_at_bytes(data, p + 4, c.super_class);
            lemma_interfaces_valid(c.interfaces);
            lemma_parse_counted::<u16>(c.interfaces, data, p + 6);
            let at_fields = p + 6 + w8.len();
            if at_fields <= data.len() {
                lemma_parse_member_table(c.fields, data, at_fields, pool);
                let at_methods = at_fields + w9.len();
                if at_methods <= data.len() {
                    lemma_parse_member_table(c.method_info, data, at_methods, pool);
                    let at_attributes = at_methods + w10.len();
                    if at_attributes <= data.len() {
                        lemma_parse_attribute_table(c.attributes, data, at_attributes, pool);
                    }
                }
            }
        }
    }
}

proof fn lemma_interfaces_valid(s: Seq<u16>)
    ensures
        all_encodable(s),
        all_valid(s),
{
}

/// Decoding the encoding of a valid class file gives the class file back,
/// with every field as it was, the stored counts and lengths among them.
pub proof fn lemma_decode_encode(c: ClassFileModel)
    requires
        c.encodable(),
        class_valid(c),
    ensures
        parse_class(c.wire(), 0) == Ok::<(ClassFileModel, int), ErrorModel>(
            (c, c.wire().len() as int),
        ),
{
    lemma_parse_class(c, c.wire(), 0);
}

/// Decoding the first `k` bytes of the encoding of a valid class file, for
/// any `k` below the encoding's length, fails for want of input.
pub proof fn lemma_decode_truncated(c: ClassFileModel, k: int)
    requires
        c.encodable(),
        class_valid(c),
        0 <= k < c.wire().len(),
    ensures
        parse_class(c.wire().take(k), 0) == Err::<(ClassFileModel, int), ErrorModel>(
            ErrorModel::TruncatedInput,
        ),
{
    lemma_parse_class(c, c.wire().take(k), 0);
}

/// What decoding gives depends on the bytes alone: equal buffers decode to
/// equal results.
pub proof fn lemma_decode_deterministic(a: Seq<u8>, b: Seq<u8>)
    requires
        a =~= b,
    ensures
        parse_class(a, 0) == parse_class(b, 0),
{
}


/// Appends the encoding of a field or method.
fn write_member(
    access_flags: u16,
    name_index: u16,
    descriptor_index: u16,
    attributes: &Vec<AttributeInfo>,
    out: &mut Vec<u8>,
) -> (r: Result<(), Error>)
    ensures
        match r {
            Ok(()) => attributes@.len() <= 0xffff && attributes_ok(
                attribute_models(attributes@),
                false,
                Seq::empty(),
            ) && final(out)@ == old(out)@ + (u16_bytes(access_flags) + u16_bytes(name_index)
                + u16_bytes(descriptor_index) + u16_bytes(attributes@.len() as u16)
                + wire_attributes(attribute_models(attributes@))),
            Err(e) => !(attributes@.len() <= 0xffff && attributes_ok(
                attribute_models(attributes@),
                false,
                Seq::empty(),
            )) && e == Error::IndexOutOfRange,
        },
{
    if attributes.len() > 0xffff {
        return Err(Error::IndexOutOfRange);
    }
    put_u16(out, access_flags);
    put_u16(out, name_index);
    put_u16(out, descriptor_index);
    put_u16(out, attributes.len() as u16);
    write_attributes(attributes, out)?;
    proof {
        assert(out@ =~= old(out)@ + (u16_bytes(access_flags) + u16_bytes(name_index) + u16_bytes(
            descriptor_index,
        ) + u16_bytes(attributes@.len() as u16) + wire_attributes(attribute_models(attributes@))));
    }
    Ok(())
}

impl ToJvmBytecode for FieldInfo {
    /// The flags, the two indices, the number of attributes, and the
    /// attributes.
    fn to_jvm_bytecode(&self) -> (r: Result<Vec<u8>, Error>) {
        let mut bytes: Vec<u8> = Vec::new();
        write_member(
            self.access_flags,
            self.name_index,
            self.descriptor_index,
            &self.attributes,
            &mut bytes,
        )?;
        proof {
            assert(bytes@ =~= self@.wire());
        }
        Ok(bytes)
    }
}

impl ToJvmBytecode for MethodInfo {
    /// The flags, the two indices, the number of attributes, and the
    /// attributes.
    fn to_jvm_bytecode(&self) -> (r: Result<Vec<u8>, Error>) {
        let mut bytes: Vec<u8> = Vec::new();
        write_member(
            self.access_flags,
            self.name_index,
            self.descriptor_index,
            &self.attributes,
            &mut bytes,
        )?;
        proof {
            assert(bytes@ =~= self@.wire());
        }
        Ok(bytes)
    }
}

/// The number of slots that the pool takes, if it is below 65535.
pub fn slots_of(pool: &Vec<CpInfo>) -> (r: Option<u16>)
    ensures
        match r {
            Some(n) => n == pool_slots(models(pool@)) && n < 0xffff,
            None => pool_slots(models(pool@)) >= 0xffff,
        },
{
    let ghost ms = models(pool@);
    let mut slots: u32 = 0;
    let mut i: usize = 0;
    proof {
        assert(ms.take(0) =~= Seq::<CpInfoModel>::empty());
    }
    while i < pool.len()
        invariant
            i <= pool.len(),
            ms == models(pool@),
            slots == pool_slots(ms.take(i as int)),
            slots < 0xffff,
        decreases pool.len() - i,
    {
        proof {
            lemma_pool_slots_push(ms.take(i as int), ms[i as int]);
            assert(ms.take(i + 1) =~= ms.take(i as int).push(ms[i as int]));
            assert(ms[i as int] == pool@[i as int]@);
        }
        slots = slots + width_of(&pool[i]) as u32;
        if slots >= 0xffff {
            proof {
                lemma_pool_slots_prefix(ms, i + 1);
            }
            return None;
        }
        i += 1;
    }
    proof {
        assert(ms.take(i as int) =~= ms);
    }
    Some(slots as u16)
}

/// The first entries of a pool take no more slots than the whole pool.
pub proof fn lemma_pool_slots_prefix(pool: Seq<CpInfoModel>, k: int)
    requires
        0 <= k <= pool.len(),
    ensures
        pool_slots(pool.take(k)) <= pool_slots(pool),
    decreases pool.len() - k,
{
    if k == pool.len() {
        assert(pool.take(k) =~= pool);
    } else {
        lemma_pool_slots_prefix(pool, k + 1);
        lemma_pool_slots_push(pool.take(k), pool[k]);
        assert(pool.take(k + 1) =~= pool.take(k).push(pool[k]));
    }
}

impl ToJvmBytecode for ClassFile {
    /// The bytes of the class file. The count of the pool and the counts of
    /// the tables are taken from the pool and the tables, not from the
    /// stored counts. Fails where the pool takes more than 65534 slots, a
    /// table is longer than 65535, or a part cannot be written.
    fn to_jvm_bytecode(&self) -> (r: Result<Vec<u8>, Error>) {
        let mut bytes: Vec<u8> = Vec::new();
        let slots = match slots_of(&self.constant_pool) {
            Some(n) => n,
            None => {
                return Err(Error::IndexOutOfRange);
            },
        };
        put_u32(&mut bytes, self.magic);
        put_u16(&mut bytes, self.minor_version);
        put_u16(&mut bytes, self.major_version);
        put_u16(&mut bytes, slots + 1);
        encode_all(&self.constant_pool, &mut bytes)?;
        put_u16(&mut bytes, self.access_flags);
        put_u16(&mut bytes, self.this_class);
        put_u16(&mut bytes, self.super_class);
        encode_counted(&self.interfaces, &mut bytes)?;
        encode_counted(&self.fields, &mut bytes)?;
        encode_counted(&self.method_info, &mut bytes)?;
        if self.attributes.len() > 0xffff {
            return Err(Error::IndexOutOfRange);
        }
        put_u16(&mut bytes, self.attributes.len() as u16);
        write_attributes(&self.attributes, &mut bytes)?;
        proof {
            assert(bytes@ =~= self@.wire());
        }
        Ok(bytes)
    }
}


impl Clone for FieldInfo {
    /// A field with the same model.
    fn clone(&self) -> (copy: FieldInfo)
        ensures
            copy@ == self@,
    {
        FieldInfo {
            access_flags: self.access_flags,
            name_index: self.name_index,
            descriptor_index: self.descriptor_index,
            attributes_count: self.attributes_count,
            attributes: copy_attributes(&self.attributes),
        }
    }
}

impl Clone for MethodInfo {
    /// A method with the same model.
    fn clone(&self) -> (copy: MethodInfo)
        ensures
            copy@ == self@,
    {
        MethodInfo {
            access_flags: self.access_flags,
            name_index: self.name_index,
            descriptor_index: self.descriptor_index,
            attributes_count: self.attributes_count,
            attributes: copy_attributes(&self.attributes),
        }
    }
}

impl Clone for ClassFile {
    /// A class file with the same model.
    fn clone(&self) -> (copy: ClassFile)
        ensures
            copy@ == self@,
    {
        ClassFile {
            magic: self.magic,
            minor_version: self.minor_version,
            major_version: self.major_version,
            constant_pool_count: self.constant_pool_count,
            constant_pool: clone_all(&self.constant_pool),
            access_flags: self.access_flags,
            this_class: self.this_class,
            super_class: self.super_class,
            interfaces_count: self.interfaces_count,
            interfaces: clone_all(&self.interfaces),
            fields_count: self.fields_count,
            fields: clone_all(&self.fields),
            method_count: self.method_count,
            method_info: clone_all(&self.method_info),
            attributes_count: self.attributes_count,
            attributes: copy_attributes(&self.attributes),
        }
    }
}

} // verus!
