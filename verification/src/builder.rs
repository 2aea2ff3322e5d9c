//! The assembler: it builds a class file step by step. Constants are
//! interned in the pool, fields and methods are added, and the body of one
//! method at a time is assembled from instructions while the stack depth
//! and the number of local variables that the body needs are kept.

use vstd::prelude::*;
use vstd::string::{StrSliceExecFns, StringExecFns};
use vstd::utf8::encode_utf8;
use crate::bytecode::attribute::{
    attribute_models, attribute_ok, code_aligned, kind_ok, wire_attributes, wire_kind,
    AttributeInfo, AttributeInfoKind, AttributeInfoKindModel, AttributeInfoModel,
};
use crate::bytecode::class_file::{
    class_valid, member_ok, ClassFile, ClassFileModel, FieldInfo, MemberModel, MethodInfo,
};
use crate::bytecode::constant_pool::{
    entry_at, entry_width, lemma_narrow_pool, lemma_pool_entry_push, lemma_pool_entry_range,
    pool_entry, pool_utf8, text_at, CpInfo, CpInfoModel, CpInfoType, CpInfoTypeModel, CP_TAG_CLASS,
    CP_TAG_FIELDREF, CP_TAG_METHODREF, CP_TAG_NAMEANDTYPE, CP_TAG_STRING, CP_TAG_UTF8,
};
use crate::bytecode::instr::{family_in_range, is_switch, Opcode, OpcodeModel};
use crate::bytecode::tables::ExceptionTable;
use crate::bytecode::{ToJvmBytecode, JVM_MAGIC, METHOD_ACC_STATIC};
use crate::descriptor::{
    descriptor_models, lemma_serialize_parse, parse_descriptor, text_of, Descriptor,
    DescriptorModel,
};
use crate::error::{Error, ErrorModel};
use crate::wire::{clone_all, lemma_wire_all_push, models, wire_all, wire_counted, Parse, Wire};

verus! {

/// The two bytes of an index, the high byte first.
pub fn compute_byte(byte: u16) -> (halves: (u8, u8))
    ensures
        halves.0 == byte / 0x100,
        halves.1 == byte % 0x100,
{
    ((byte / 0x100) as u8, (byte % 0x100) as u8)
}

/// The method whose body is being assembled.
#[derive(Debug, PartialEq)]
pub struct ActiveMethod {
    access_flags: u16,
    name_index: u16,
    descriptor_index: u16,
    code_name_index: u16,
    max_stack: u16,
    max_locals: u16,
    depth: u16,
    code_length: u32,
    code: Vec<Opcode>,
}

/// The model of the method whose body is being assembled.
pub struct ActiveModel {
    pub access_flags: u16,
    pub name_index: u16,
    pub descriptor_index: u16,
    /// The index of the text `Code` in the pool.
    pub code_name_index: u16,
    /// The highest stack depth that the body has reached.
    pub max_stack: u16,
    /// The number of local variables that the body needs.
    pub max_locals: u16,
    /// The stack depth behind the last instruction.
    pub depth: u16,
    /// The number of bytes that the instructions take.
    pub code_length: u32,
    pub code: Seq<OpcodeModel>,
}

/// The model of an assembler: the class file with its finished methods,
/// and the method that is being assembled, if there is one.
pub struct BuilderModel {
    pub class: ClassFileModel,
    pub active: Option<ActiveModel>,
}

/// An assembler of one class file.
#[derive(Debug, PartialEq)]
pub struct Builder {
    class_file: ClassFile,
    current_method: Option<ActiveMethod>,
}

impl View for ActiveMethod {
    type V = ActiveModel;

    closed spec fn view(&self) -> ActiveModel {
        ActiveModel {
            access_flags: self.access_flags,
            name_index: self.name_index,
            descriptor_index: self.descriptor_index,
            code_name_index: self.code_name_index,
            max_stack: self.max_stack,
            max_locals: self.max_locals,
            depth: self.depth,
            code_length: self.code_length,
            code: models(self.code@),
        }
    }
}

impl View for Builder {
    type V = BuilderModel;

    closed spec fn view(&self) -> BuilderModel {
        BuilderModel {
            class: self.class_file@,
            active: match self.current_method {
                Some(m) => Some(m@),
                None => None,
            },
        }
    }
}

/// The pool entry for a text.
pub open spec fn utf8_entry(text: Seq<char>) -> CpInfoModel {
    CpInfoModel {
        tag: CP_TAG_UTF8,
        info: CpInfoTypeModel::Utf8 { length: encode_utf8(text).len() as u16, bytes: text },
    }
}

/// The pool entry for a class with its name at `name_index`.
pub open spec fn class_entry(name_index: u16) -> CpInfoModel {
    CpInfoModel { tag: CP_TAG_CLASS, info: CpInfoTypeModel::Class { name_index } }
}

/// The pool entry for a string constant with its text at `string_index`.
pub open spec fn string_entry(string_index: u16) -> CpInfoModel {
    CpInfoModel { tag: CP_TAG_STRING, info: CpInfoTypeModel::String { string_index } }
}

/// The pool entry for a name and a descriptor.
pub open spec fn name_and_type_entry(name_index: u16, descriptor_index: u16) -> CpInfoModel {
    CpInfoModel {
        tag: CP_TAG_NAMEANDTYPE,
        info: CpInfoTypeModel::NameAndType { name_index, descriptor_index },
    }
}

/// The pool entry for a field of a class.
pub open spec fn fieldref_entry(class_index: u16, name_and_type_index: u16) -> CpInfoModel {
    CpInfoModel {
        tag: CP_TAG_FIELDREF,
        info: CpInfoTypeModel::Fieldref { class_index, name_and_type_index },
    }
}

/// The pool entry for a method of a class.
pub open spec fn methodref_entry(class_index: u16, name_and_type_index: u16) -> CpInfoModel {
    CpInfoModel {
        tag: CP_TAG_METHODREF,
        info: CpInfoTypeModel::Methodref { class_index, name_and_type_index },
    }
}

/// Whether the encoding of `text` fits the length field of a pool entry.
pub open spec fn text_fits(text: Seq<char>) -> bool {
    encode_utf8(text).len() <= 0xffff
}

/// Whether `n` more entries fit the pool, whose count field holds the
/// number of entries and one.
pub open spec fn has_room(pool: Seq<CpInfoModel>, n: int) -> bool {
    pool.len() + n <= 0xfffe
}

/// The class file with `entries` behind the entries of its pool, and the
/// pool's count to match.
pub open spec fn with_entries(c: ClassFileModel, entries: Seq<CpInfoModel>) -> ClassFileModel {
    ClassFileModel {
        constant_pool: c.constant_pool + entries,
        constant_pool_count: (c.constant_pool.len() + entries.len() + 1) as u16,
        ..c
    }
}

/// The attribute that holds the body of a finished method.
pub open spec fn code_attribute(m: ActiveModel) -> AttributeInfoModel {
    AttributeInfoModel {
        attribute_name_index: m.code_name_index,
        attribute_length: (m.code_length + 12) as u32,
        info: AttributeInfoKindModel::Code {
            max_stack: m.max_stack,
            max_locals: m.max_locals,
            code_length: m.code_length,
            code: m.code,
            exception_table_length: 0,
            exception_table: Seq::empty(),
            attributes_count: 0,
            attributes: Seq::empty(),
        },
    }
}

/// The finished method: its flags and indices, and its body as its one
/// attribute.
pub open spec fn finished(m: ActiveModel) -> MemberModel {
    MemberModel {
        access_flags: m.access_flags,
        name_index: m.name_index,
        descriptor_index: m.descriptor_index,
        attributes_count: 1,
        attributes: seq![code_attribute(m)],
    }
}

/// The class file with the method behind its methods.
pub open spec fn with_method(c: ClassFileModel, m: MemberModel) -> ClassFileModel {
    ClassFileModel {
        method_info: c.method_info.push(m),
        method_count: (c.method_info.len() + 1) as u16,
        ..c
    }
}

/// Whether the state of a method under assembly is sound: its name index
/// leads to the text `Code`, its instructions are of fixed length and
/// encodable, the stored length is the length of their encoding, and the
/// highest depth is not below the depth.
pub open spec fn active_ok(m: ActiveModel, pool: Seq<CpInfoModel>) -> bool {
    &&& pool_utf8(pool, m.code_name_index as int) == Some("Code"@)
    &&& forall|i: int|
        0 <= i < m.code.len() ==> (#[trigger] m.code[i]) is Fixed && m.code[i].encodable()
    &&& m.code_length == wire_all(m.code).len()
    &&& m.code_length + 12 <= u32::MAX
    &&& m.depth <= m.max_stack
}

/// Whether a member is a method as the assembler finishes it.
pub open spec fn finished_ok(m: MemberModel, pool: Seq<CpInfoModel>) -> bool {
    exists|a: ActiveModel| active_ok(a, pool) && #[trigger] finished(a) == m
}

/// Whether the state of an assembler is sound: the class file is what the
/// assembler makes of it. The pool holds valid entries of one slot each and
/// its count fits; there are no interfaces and no class attributes; every
/// field is bare, every method is finished, and a method under assembly is
/// sound and leaves room for itself among the methods.
pub open spec fn model_ok(b: BuilderModel) -> bool {
    let c = b.class;
    let pool = c.constant_pool;
    &&& c.magic == JVM_MAGIC
    &&& forall|i: int|
        0 <= i < pool.len() ==> (#[trigger] pool[i]).valid() && pool[i].encodable() && entry_width(
            pool[i],
        ) == 1
    &&& c.constant_pool_count == pool.len() + 1
    &&& pool.len() + 1 <= 0xffff
    &&& c.interfaces_count == 0
    &&& c.interfaces.len() == 0
    &&& c.attributes_count == 0
    &&& c.attributes.len() == 0
    &&& c.fields_count == c.fields.len()
    &&& forall|i: int|
        0 <= i < c.fields.len() ==> (#[trigger] c.fields[i]).attributes_count == 0
            && c.fields[i].attributes.len() == 0
    &&& c.method_count == c.method_info.len()
    &&& forall|i: int|
        0 <= i < c.method_info.len() ==> finished_ok(#[trigger] c.method_info[i], pool)
    &&& b.active matches Some(m) ==> active_ok(m, pool) && c.method_info.len() < 0xffff
}


/// Instructions of fixed length are aligned wherever they stand.
pub proof fn lemma_fixed_aligned(code: Seq<OpcodeModel>, pos: int)
    requires
        forall|i: int| 0 <= i < code.len() ==> (#[trigger] code[i]) is Fixed,
    ensures
        code_aligned(code, pos),
    decreases code.len(),
{
    if code.len() > 0 {
        let tail = code.drop_first();
        assert forall|i: int| 0 <= i < tail.len() implies (#[trigger] tail[i]) is Fixed by {
            assert(tail[i] == code[i + 1]);
        }
        lemma_fixed_aligned(tail, pos + code[0].wire().len());
    }
}

/// A method that the assembler finishes from a sound state can be written,
/// and decoding its encoding gives it back.
pub proof fn lemma_finished_valid(m: ActiveModel, pool: Seq<CpInfoModel>)
    requires
        active_ok(m, pool),
    ensures
        member_ok(finished(m), false, Seq::empty()),
        member_ok(finished(m), true, pool),
{
    let a = code_attribute(m);
    lemma_fixed_aligned(m.code, 0);
    let none = Seq::<ExceptionTable>::empty();
    assert(wire_all(none) =~= Seq::<u8>::empty());
    assert(wire_counted(none).len() == 2);
    assert(wire_attributes(Seq::<AttributeInfoModel>::empty()) =~= Seq::<u8>::empty());
    assert(wire_kind(a.info).len() == m.code_length + 12);
    assert(kind_ok(a.info, true, pool));
    assert(kind_ok(a.info, false, Seq::empty()));
    assert(attribute_ok(a, true, pool));
    assert(attribute_ok(a, false, Seq::empty()));
    let attributes = finished(m).attributes;
    assert forall|i: int| 0 <= i < attributes.len() implies attribute_ok(
        #[trigger] attributes[i],
        true,
        pool,
    ) && attribute_ok(attributes[i], false, Seq::empty()) by {
        assert(attributes[i] == a);
    }
}

/// The class file of an assembler in a sound state, with no method under
/// assembly, can be written, and decoding its encoding gives it back.
pub proof fn lemma_model_valid(b: BuilderModel)
    requires
        model_ok(b),
        b.active is None,
    ensures
        b.class.encodable(),
        class_valid(b.class),
{
    let c = b.class;
    let pool = c.constant_pool;
    lemma_narrow_pool(pool, 0);
    assert forall|i: int| 0 <= i < c.fields.len() implies member_ok(
        #[trigger] c.fields[i],
        true,
        pool,
    ) && c.fields[i].encodable() by {}
    assert forall|i: int| 0 <= i < c.method_info.len() implies member_ok(
        #[trigger] c.method_info[i],
        true,
        pool,
    ) && c.method_info[i].encodable() by {
        let a = choose|a: ActiveModel| active_ok(a, pool) && #[trigger] finished(a) == c.method_info[i];
        lemma_finished_valid(a, pool);
    }
}

/// Entries pushed to the pool leave what an index led to before.
pub proof fn lemma_pool_grows(pool: Seq<CpInfoModel>, e: CpInfoModel, index: int)
    requires
        pool_entry(pool, index) is Some,
    ensures
        pool_entry(pool.push(e), index) == pool_entry(pool, index),
        pool_utf8(pool.push(e), index) == pool_utf8(pool, index),
{
    lemma_pool_entry_range(pool, index);
    lemma_pool_entry_push(pool, e, index);
}

/// A sound state stays sound when a valid entry of one slot is pushed to a
/// pool that has room for it.
pub proof fn lemma_push_entry_ok(b: BuilderModel, e: CpInfoModel)
    requires
        model_ok(b),
        has_room(b.class.constant_pool, 1),
        e.valid(),
        e.encodable(),
        entry_width(e) == 1,
    ensures
        model_ok(BuilderModel { class: with_entries(b.class, seq![e]), active: b.active }),
        with_entries(b.class, seq![e]).constant_pool == b.class.constant_pool.push(e),
{
    let c = b.class;
    let pool = c.constant_pool;
    let after = with_entries(c, seq![e]);
    assert(after.constant_pool =~= pool.push(e));
    assert forall|i: int| 0 <= i < after.method_info.len() implies finished_ok(
        #[trigger] after.method_info[i],
        after.constant_pool,
    ) by {
        let a = choose|a: ActiveModel| active_ok(a, pool) && #[trigger] finished(a) == c.method_info[i];
        lemma_pool_grows(pool, e, a.code_name_index as int);
        assert(active_ok(a, after.constant_pool));
        assert(finished(a) == after.method_info[i]);
    }
    if let Some(m) = b.active {
        lemma_pool_grows(pool, e, m.code_name_index as int);
    }
}


/// Pushing entries in two steps is pushing them in one.
pub proof fn lemma_with_entries_twice(c: ClassFileModel, a: Seq<CpInfoModel>, b: Seq<CpInfoModel>)
    ensures
        with_entries(with_entries(c, a), b) == with_entries(c, a + b),
{
    assert((c.constant_pool + a) + b =~= c.constant_pool + (a + b));
}

/// The class file of an assembler with the method under assembly, if there
/// is one, finished and put behind the methods.
pub open spec fn settled(b: BuilderModel) -> ClassFileModel {
    match b.active {
        Some(m) => with_method(b.class, finished(m)),
        None => b.class,
    }
}

/// The stack depth behind an instruction with net effect `effect` that
/// follows a depth of `depth`: the sum, but not below zero.
pub open spec fn next_depth(depth: int, effect: int) -> int {
    if depth + effect < 0 {
        0
    } else {
        depth + effect
    }
}

/// The number of locals that a body needs once it uses local `local`.
pub open spec fn raise_locals(max_locals: int, local: Option<int>) -> int {
    match local {
        Some(l) => if l + 1 > max_locals {
            l + 1
        } else {
            max_locals
        },
        None => max_locals,
    }
}

/// Whether an instruction with this effect can follow: the new depth and
/// the new length of the code must fit their fields.
pub open spec fn emit_fits(m: ActiveModel, op: OpcodeModel, effect: int) -> bool {
    &&& next_depth(m.depth as int, effect) <= 0xffff
    &&& m.code_length + op.wire().len() + 12 <= u32::MAX
}

/// Depth and highest depth behind an instruction with net effect `effect`
/// that follows a depth of `depth` with a highest depth of `max`: the new
/// depth, and the higher of it and `max`.
pub open spec fn stack_step(depth: int, max: int, effect: int) -> (int, int) {
    let next = next_depth(depth, effect);
    (
        next,
        if next > max {
            next
        } else {
            max
        },
    )
}

/// The method under assembly with one more instruction: the instruction is
/// behind the code, depth and highest depth have made their step, and the
/// number of locals is raised where the local that the instruction uses
/// asks for it.
pub open spec fn emit_step(m: ActiveModel, op: OpcodeModel, effect: int, local: Option<int>) -> ActiveModel {
    let stack = stack_step(m.depth as int, m.max_stack as int, effect);
    ActiveModel {
        max_stack: stack.1 as u16,
        max_locals: raise_locals(m.max_locals as int, local) as u16,
        depth: stack.0 as u16,
        code_length: (m.code_length + op.wire().len()) as u32,
        code: m.code.push(op),
        ..m
    }
}

/// What emitting the instruction `op` with net effect `effect` does: with
/// no method under assembly it fails and changes nothing; where depth or
/// length would not fit it fails and changes nothing; otherwise the method
/// under assembly makes the step.
pub open spec fn emitted(
    before: BuilderModel,
    after: BuilderModel,
    r: Result<(), Error>,
    op: OpcodeModel,
    effect: int,
    local: Option<int>,
) -> bool {
    match before.active {
        None => r == Err::<(), Error>(Error::NoActiveMethod) && after == before,
        Some(m) => if emit_fits(m, op, effect) {
            r is Ok && after == (BuilderModel {
                class: before.class,
                active: Some(emit_step(m, op, effect, local)),
            })
        } else {
            r == Err::<(), Error>(Error::IndexOutOfRange) && after == before
        },
    }
}

/// The number of stack slots that a value of the type takes.
pub open spec fn slots(d: DescriptorModel) -> int {
    match d {
        DescriptorModel::Long => 2,
        DescriptorModel::Double => 2,
        DescriptorModel::Void => 0,
        _ => 1,
    }
}

/// The number of stack slots that values of the types take together.
pub open spec fn slots_sum(s: Seq<DescriptorModel>) -> int
    decreases s.len(),
{
    if s.len() == 0 {
        0
    } else {
        slots_sum(s.drop_last()) + slots(s.last())
    }
}

/// The descriptor that the name-and-type entry at `index` names: its text
/// must be one descriptor and nothing more.
pub open spec fn descriptor_at(pool: Seq<CpInfoModel>, index: int) -> Result<
    DescriptorModel,
    ErrorModel,
> {
    match pool_entry(pool, index) {
        Some(e) => match e.info {
            CpInfoTypeModel::NameAndType { name_index, descriptor_index } => match pool_utf8(
                pool,
                descriptor_index as int,
            ) {
                Some(text) => match parse_descriptor(text, 0) {
                    Ok((d, end)) => if end == text.len() {
                        Ok(d)
                    } else {
                        Err(ErrorModel::InvalidDescriptor)
                    },
                    Err(e) => Err(ErrorModel::InvalidDescriptor),
                },
                None => Err(ErrorModel::IndexOutOfRange),
            },
            _ => Err(ErrorModel::IndexOutOfRange),
        },
        None => Err(ErrorModel::IndexOutOfRange),
    }
}

/// The net stack effect of invoking the method at `index` on a receiver:
/// the slots of the result less those of the parameters and the receiver.
pub open spec fn invoke_effect(pool: Seq<CpInfoModel>, index: int) -> Result<int, ErrorModel> {
    match pool_entry(pool, index) {
        Some(e) => {
            let target = match e.info {
                CpInfoTypeModel::Methodref { class_index, name_and_type_index } => Some(
                    name_and_type_index,
                ),
                CpInfoTypeModel::InterfaceMethodref { class_index, name_and_type_index } => Some(
                    name_and_type_index,
                ),
                _ => None,
            };
            match target {
                Some(name_and_type_index) => match descriptor_at(pool, name_and_type_index as int) {
                    Ok(DescriptorModel::Function(parameters, result)) => Ok(
                        slots(*result) - slots_sum(parameters) - 1,
                    ),
                    Ok(_) => Err(ErrorModel::InvalidDescriptor),
                    Err(e) => Err(e),
                },
                None => Err(ErrorModel::IndexOutOfRange),
            }
        },
        None => Err(ErrorModel::IndexOutOfRange),
    }
}

/// The net stack effect of reading the static field at `index`: the slots
/// of its type.
pub open spec fn field_effect(pool: Seq<CpInfoModel>, index: int) -> Result<int, ErrorModel> {
    match pool_entry(pool, index) {
        Some(e) => match e.info {
            CpInfoTypeModel::Fieldref { class_index, name_and_type_index } => match descriptor_at(
                pool,
                name_and_type_index as int,
            ) {
                Ok(DescriptorModel::Function(parameters, result)) => Err(
                    ErrorModel::InvalidDescriptor,
                ),
                Ok(DescriptorModel::Void) => Err(ErrorModel::InvalidDescriptor),
                Ok(d) => Ok(slots(d)),
                Err(e) => Err(e),
            },
            _ => Err(ErrorModel::IndexOutOfRange),
        },
        None => Err(ErrorModel::IndexOutOfRange),
    }
}

/// What emitting an instruction does whose effect is looked up in the
/// pool: with no method under assembly it fails; where the lookup fails it
/// fails with the lookup's error; in both cases nothing changes. Otherwise
/// it is `emitted` with the effect found.
pub open spec fn emitted_resolved(
    before: BuilderModel,
    after: BuilderModel,
    r: Result<(), Error>,
    op: OpcodeModel,
    effect: Result<int, ErrorModel>,
) -> bool {
    if before.active is None {
        r == Err::<(), Error>(Error::NoActiveMethod) && after == before
    } else {
        match effect {
            Err(e) => r matches Err(x) && x@ == e && after == before,
            Ok(n) => emitted(before, after, r, op, n, None),
        }
    }
}

/// The number of stack slots that a value of the type takes.
fn slots_of(d: &Descriptor) -> (n: u8)
    ensures
        n == slots(d@),
{
    match d {
        Descriptor::Long => 2,
        Descriptor::Double => 2,
        Descriptor::Void => 0,
        _ => 1,
    }
}

/// The most that an effect is told apart below zero: a steeper fall empties
/// the deepest stack just the same.
pub const STEEPEST: i64 = 0x2_0000;

/// The effect as the assembler keeps it: no steeper than `STEEPEST`.
pub open spec fn capped(effect: int) -> int {
    if effect < -STEEPEST {
        -STEEPEST
    } else {
        effect
    }
}

/// The number of stack slots that values of the types take together, or
/// a number above `STEEPEST` if they take more than that number.
fn slots_sum_of(parameters: &Vec<Descriptor>) -> (n: i64)
    ensures
        0 <= slots_sum(descriptor_models(parameters@)),
        n == if slots_sum(descriptor_models(parameters@)) > STEEPEST + 8 {
            STEEPEST + 8
        } else {
            slots_sum(descriptor_models(parameters@))
        },
{
    let ghost ms = descriptor_models(parameters@);
    let mut n: i64 = 0;
    let mut i: usize = 0;
    proof {
        assert(ms.take(0) =~= Seq::<DescriptorModel>::empty());
    }
    while i < parameters.len()
        invariant
            i <= parameters.len(),
            ms == descriptor_models(parameters@),
            0 <= slots_sum(ms.take(i as int)),
            n == if slots_sum(ms.take(i as int)) > STEEPEST + 8 {
                STEEPEST + 8
            } else {
                slots_sum(ms.take(i as int))
            },
        decreases parameters.len() - i,
    {
        proof {
            assert(ms.take(i + 1).drop_last() =~= ms.take(i as int));
            assert(ms.take(i + 1).last() == parameters@[i as int]@);
        }
        n = n + slots_of(&parameters[i]) as i64;
        if n > STEEPEST + 8 {
            n = STEEPEST + 8;
        }
        i += 1;
    }
    proof {
        assert(ms.take(i as int) =~= ms);
    }
    n
}

/// The descriptor that the name-and-type entry at `index` names.
fn descriptor_of(pool: &Vec<CpInfo>, index: u16) -> (r: Result<Descriptor, Error>)
    ensures
        match descriptor_at(models(pool@), index as int) {
            Ok(d) => r matches Ok(parsed) && parsed@ == d,
            Err(e) => r matches Err(x) && x@ == e,
        },
{
    let descriptor_index = match entry_at(pool, index) {
        Some(entry) => match &entry.info {
            CpInfoType::NameAndType { name_index, descriptor_index } => *descriptor_index,
            _ => {
                return Err(Error::IndexOutOfRange);
            },
        },
        None => {
            return Err(Error::IndexOutOfRange);
        },
    };
    let text = match text_at(pool, descriptor_index) {
        Some(text) => text,
        None => {
            return Err(Error::IndexOutOfRange);
        },
    };
    proof {
        lemma_serialize_parse(text@, 0);
    }
    match Descriptor::parse(text.as_str()) {
        Ok((d, rest)) => {
            if rest.as_str().unicode_len() == 0 {
                Ok(d)
            } else {
                Err(Error::InvalidDescriptor)
            }
        },
        Err(e) => Err(Error::InvalidDescriptor),
    }
}

/// The net stack effect of invoking the method at `index` on a receiver.
fn invoke_effect_of(pool: &Vec<CpInfo>, index: u16) -> (r: Result<i64, Error>)
    ensures
        match invoke_effect(models(pool@), index as int) {
            Ok(n) => r matches Ok(effect) && effect == capped(n) && n <= 2,
            Err(e) => r matches Err(x) && x@ == e,
        },
{
    let name_and_type_index = match entry_at(pool, index) {
        Some(entry) => match &entry.info {
            CpInfoType::Methodref { class_index, name_and_type_index } => *name_and_type_index,
            CpInfoType::InterfaceMethodref {
                class_index,
                name_and_type_index,
            } => *name_and_type_index,
            _ => {
                return Err(Error::IndexOutOfRange);
            },
        },
        None => {
            return Err(Error::IndexOutOfRange);
        },
    };
    let d = descriptor_of(pool, name_and_type_index)?;
    match &d {
        Descriptor::Function(parameters, result) => {
            proof {
                assert(d@ == DescriptorModel::Function(
                    descriptor_models(parameters@),
                    Box::new((**result)@),
                ));
            }
            let taken = slots_sum_of(parameters);
            let effect = slots_of(&**result) as i64 - taken - 1;
            if effect < -STEEPEST {
                Ok(-STEEPEST)
            } else {
                Ok(effect)
            }
        },
        _ => {
            proof {
                assert(!(d@ is Function));
            }
            Err(Error::InvalidDescriptor)
        },
    }
}

/// The net stack effect of reading the static field at `index`.
fn field_effect_of(pool: &Vec<CpInfo>, index: u16) -> (r: Result<i64, Error>)
    ensures
        match field_effect(models(pool@), index as int) {
            Ok(n) => r matches Ok(effect) && effect == n && 1 <= n <= 2,
            Err(e) => r matches Err(x) && x@ == e,
        },
{
    let name_and_type_index = match entry_at(pool, index) {
        Some(entry) => match &entry.info {
            CpInfoType::Fieldref { class_index, name_and_type_index } => *name_and_type_index,
            _ => {
                return Err(Error::IndexOutOfRange);
            },
        },
        None => {
            return Err(Error::IndexOutOfRange);
        },
    };
    match descriptor_of(pool, name_and_type_index)? {
        Descriptor::Function(parameters, result) => Err(Error::InvalidDescriptor),
        Descriptor::Void => Err(Error::InvalidDescriptor),
        d => Ok(slots_of(&d) as i64),
    }
}


/// The entries that naming a member of a class adds to a pool of `base`
/// entries: the name, the descriptor, the two as a pair, and the member of
/// `class`.
pub open spec fn member_entries(
    base: int,
    class: u16,
    name: Seq<char>,
    descriptor: Seq<char>,
    field: bool,
) -> Seq<CpInfoModel> {
    seq![
        utf8_entry(name),
        utf8_entry(descriptor),
        name_and_type_entry((base + 1) as u16, (base + 2) as u16),
        if field {
            fieldref_entry(class, (base + 3) as u16)
        } else {
            methodref_entry(class, (base + 3) as u16)
        },
    ]
}

/// The entries that starting a method adds to a pool of `base` entries: the
/// name, the descriptor, the text `Code`, name and descriptor as a pair,
/// and the method of `class`.
pub open spec fn method_entries(base: int, class: u16, name: Seq<char>, descriptor: Seq<char>) -> Seq<
    CpInfoModel,
> {
    seq![
        utf8_entry(name),
        utf8_entry(descriptor),
        utf8_entry("Code"@),
        name_and_type_entry((base + 1) as u16, (base + 2) as u16),
        methodref_entry(class, (base + 4) as u16),
    ]
}

/// The number of locals that a method starts with: one for each parameter,
/// and one for the receiver unless the method is static.
pub open spec fn first_locals(parameters: int, access_flags: u16) -> int {
    if access_flags & METHOD_ACC_STATIC == METHOD_ACC_STATIC {
        parameters
    } else {
        parameters + 1
    }
}

/// The class file with the field behind its fields.
pub open spec fn with_field(c: ClassFileModel, f: MemberModel) -> ClassFileModel {
    ClassFileModel { fields: c.fields.push(f), fields_count: (c.fields.len() + 1) as u16, ..c }
}

impl Builder {
    /// An assembler of an empty class file of version 61.0.
    pub fn new() -> (b: Builder)
        ensures
            model_ok(b@),
            b@.active is None,
            b@.class == (ClassFileModel {
                magic: JVM_MAGIC,
                minor_version: 0,
                major_version: 61,
                constant_pool_count: 1,
                constant_pool: Seq::empty(),
                access_flags: 0,
                this_class: 0,
                super_class: 0,
                interfaces_count: 0,
                interfaces: Seq::empty(),
                fields_count: 0,
                fields: Seq::empty(),
                method_count: 0,
                method_info: Seq::empty(),
                attributes_count: 0,
                attributes: Seq::empty(),
            }),
    {
        let b = Builder {
            class_file: ClassFile {
                magic: JVM_MAGIC,
                minor_version: 0,
                major_version: 61,
                constant_pool_count: 1,
                constant_pool: Vec::new(),
                access_flags: 0,
                this_class: 0,
                super_class: 0,
                interfaces_count: 0,
                interfaces: Vec::new(),
                fields_count: 0,
                fields: Vec::new(),
                method_count: 0,
                method_info: Vec::new(),
                attributes_count: 0,
                attributes: Vec::new(),
            },
            current_method: None,
        };
        proof {
            assert(b@.class.constant_pool =~= Seq::empty());
            assert(b@.class.interfaces =~= Seq::empty());
            assert(b@.class.fields =~= Seq::empty());
            assert(b@.class.method_info =~= Seq::empty());
            assert(b@.class.attributes =~= Seq::empty());
        }
        b
    }

    /// Whether `n` more entries fit the pool.
    fn room_for(&self, n: usize) -> (b: bool)
        requires
            n <= 8,
        ensures
            b == has_room(self@.class.constant_pool, n as int),
    {
        self.class_file.constant_pool.len() <= 0xfffe - n
    }

    /// Pushes a valid entry of one slot; gives its index.
    fn add_cp_info(&mut self, cp_info: CpInfo) -> (index: u16)
        requires
            model_ok(old(self)@),
            has_room(old(self)@.class.constant_pool, 1),
            cp_info@.valid(),
            cp_info@.encodable(),
            entry_width(cp_info@) == 1,
        ensures
            model_ok(final(self)@),
            final(self)@ == (BuilderModel {
                class: with_entries(old(self)@.class, seq![cp_info@]),
                active: old(self)@.active,
            }),
            index == old(self)@.class.constant_pool.len() + 1,
            pool_entry(final(self)@.class.constant_pool, index as int) == Some(cp_info@),
    {
        proof {
            lemma_push_entry_ok(self@, cp_info@);
            lemma_narrow_pool(self@.class.constant_pool, 0);
            lemma_pool_entry_push(self@.class.constant_pool, cp_info@, 0);
            assert(models(self.class_file.constant_pool@.push(cp_info)) =~= models(
                self.class_file.constant_pool@,
            ).push(cp_info@));
        }
        self.class_file.constant_pool.push(cp_info);
        self.class_file.constant_pool_count = self.class_file.constant_pool_count + 1;
        self.class_file.constant_pool_count - 1
    }

    /// Whether the encoding of `text` fits the length field of an entry.
    fn fits(text: &str) -> (b: bool)
        ensures
            b == text_fits(text@),
    {
        text.as_bytes().len() <= 0xffff
    }

    /// Pushes the entry for a text; gives its index.
    fn add_utf8(&mut self, string: &str) -> (index: u16)
        requires
            model_ok(old(self)@),
            has_room(old(self)@.class.constant_pool, 1),
            text_fits(string@),
        ensures
            model_ok(final(self)@),
            final(self)@ == (BuilderModel {
                class: with_entries(old(self)@.class, seq![utf8_entry(string@)]),
                active: old(self)@.active,
            }),
            index == old(self)@.class.constant_pool.len() + 1,
            pool_utf8(final(self)@.class.constant_pool, index as int) == Some(string@),
    {
        let cp_info = CpInfo {
            tag: CP_TAG_UTF8,
            info: CpInfoType::Utf8 {
                length: string.as_bytes().len() as u16,
                bytes: String::from_str(string),
            },
        };
        self.add_cp_info(cp_info)
    }

    /// Pushes the entry for the text of a descriptor; gives its index.
    fn add_descriptor(&mut self, descriptor: &str) -> (index: u16)
        requires
            model_ok(old(self)@),
            has_room(old(self)@.class.constant_pool, 1),
            text_fits(descriptor@),
        ensures
            model_ok(final(self)@),
            final(self)@ == (BuilderModel {
                class: with_entries(old(self)@.class, seq![utf8_entry(descriptor@)]),
                active: old(self)@.active,
            }),
            index == old(self)@.class.constant_pool.len() + 1,
    {
        self.add_utf8(descriptor)
    }

    /// Sets the access flags of the class.
    pub fn set_access_flags(&mut self, access_flags: u16)
        requires
            model_ok(old(self)@),
        ensures
            model_ok(final(self)@),
            final(self)@ == (BuilderModel {
                class: ClassFileModel { access_flags, ..old(self)@.class },
                active: old(self)@.active,
            }),
    {
        self.class_file.access_flags = access_flags;
    }

    /// Interns a text: pushes its entry and gives the entry's index. Fails
    /// where the text takes more than 65535 bytes or the pool is full.
    pub fn load_utf8(&mut self, text: &str) -> (r: Result<u16, Error>)
        requires
            model_ok(old(self)@),
        ensures
            model_ok(final(self)@),
            match r {
                Ok(index) => {
                    &&& text_fits(text@)
                    &&& has_room(old(self)@.class.constant_pool, 1)
                    &&& index == old(self)@.class.constant_pool.len() + 1
                    &&& final(self)@ == (BuilderModel {
                        class: with_entries(old(self)@.class, seq![utf8_entry(text@)]),
                        active: old(self)@.active,
                    })
                },
                Err(e) => {
                    &&& e == Error::IndexOutOfRange
                    &&& !(text_fits(text@) && has_room(old(self)@.class.constant_pool, 1))
                    &&& final(self)@ == old(self)@
                },
            },
    {
        if !Self::fits(text) || !self.room_for(1) {
            return Err(Error::IndexOutOfRange);
        }
        Ok(self.add_utf8(text))
    }

    /// Interns a class by its name: pushes the name and the class entry,
    /// and gives the index of the class entry. Fails where the name takes
    /// more than 65535 bytes or the pool has no room for two entries.
    pub fn load_class(&mut self, class_name: &str) -> (r: Result<u16, Error>)
        requires
            model_ok(old(self)@),
        ensures
            model_ok(final(self)@),
            match r {
                Ok(index) => {
                    &&& text_fits(class_name@)
                    &&& has_room(old(self)@.class.constant_pool, 2)
                    &&& index == old(self)@.class.constant_pool.len() + 2
                    &&& final(self)@ == (BuilderModel {
                        class: with_entries(
                            old(self)@.class,
                            seq![utf8_entry(class_name@), class_entry((index - 1) as u16)],
                        ),
                        active: old(self)@.active,
                    })
                },
                Err(e) => {
                    &&& e == Error::IndexOutOfRange
                    &&& !(text_fits(class_name@) && has_room(old(self)@.class.constant_pool, 2))
                    &&& final(self)@ == old(self)@
                },
            },
    {
        if !Self::fits(class_name) || !self.room_for(2) {
            return Err(Error::IndexOutOfRange);
        }
        let name_index = self.add_utf8(class_name);
        let index = self.add_cp_info(
            CpInfo { tag: CP_TAG_CLASS, info: CpInfoType::Class { name_index } },
        );
        proof {
            lemma_with_entries_twice(
                old(self)@.class,
                seq![utf8_entry(class_name@)],
                seq![class_entry(name_index)],
            );
            assert(seq![utf8_entry(class_name@)] + seq![class_entry(name_index)] =~= seq![
                utf8_entry(class_name@),
                class_entry(name_index),
            ]);
        }
        Ok(index)
    }

    /// Interns a string constant: pushes the text and the string entry, and
    /// gives the index of the string entry. Fails where the text takes more
    /// than 65535 bytes or the pool has no room for two entries.
    pub fn load_string(&mut self, string: &str) -> (r: Result<u16, Error>)
        requires
            model_ok(old(self)@),
        ensures
            model_ok(final(self)@),
            match r {
                Ok(index) => {
                    &&& text_fits(string@)
                    &&& has_room(old(self)@.class.constant_pool, 2)
                    &&& index == old(self)@.class.constant_pool.len() + 2
                    &&& final(self)@ == (BuilderModel {
                        class: with_entries(
                            old(self)@.class,
                            seq![utf8_entry(string@), string_entry((index - 1) as u16)],
                        ),
                        active: old(self)@.active,
                    })
                },
                Err(e) => {
                    &&& e == Error::IndexOutOfRange
                    &&& !(text_fits(string@) && has_room(old(self)@.class.constant_pool, 2))
                    &&& final(self)@ == old(self)@
                },
            },
    {
        if !Self::fits(string) || !self.room_for(2) {
            return Err(Error::IndexOutOfRange);
        }
        let utf8 = self.add_utf8(string);
        let index = self.add_cp_info(
            CpInfo { tag: CP_TAG_STRING, info: CpInfoType::String { string_index: utf8 } },
        );
        proof {
            lemma_with_entries_twice(
                old(self)@.class,
                seq![utf8_entry(string@)],
                seq![string_entry(utf8)],
            );
            assert(seq![utf8_entry(string@)] + seq![string_entry(utf8)] =~= seq![
                utf8_entry(string@),
                string_entry(utf8),
            ]);
        }
        Ok(index)
    }

    /// Pushes the four entries that name a field or a method of `class`;
    /// gives the index of the last.
    fn add_member(&mut self, class: u16, name: &str, descriptor: &str, field: bool) -> (index: u16)
        requires
            model_ok(old(self)@),
            has_room(old(self)@.class.constant_pool, 4),
            text_fits(name@),
            text_fits(descriptor@),
        ensures
            model_ok(final(self)@),
            final(self)@ == (BuilderModel {
                class: with_entries(
                    old(self)@.class,
                    member_entries(
                        old(self)@.class.constant_pool.len() as int,
                        class,
                        name@,
                        descriptor@,
                        field,
                    ),
                ),
                active: old(self)@.active,
            }),
            index == old(self)@.class.constant_pool.len() + 4,
    {
        let ghost c = self@.class;
        let ghost base = c.constant_pool.len() as int;
        let name_index = self.add_utf8(name);
        let descriptor_index = self.add_descriptor(descriptor);
        let name_and_type_index = self.add_cp_info(
            CpInfo {
                tag: CP_TAG_NAMEANDTYPE,
                info: CpInfoType::NameAndType { name_index, descriptor_index },
            },
        );
        let index = if field {
            self.add_cp_info(
                CpInfo {
                    tag: CP_TAG_FIELDREF,
                    info: CpInfoType::Fieldref { class_index: class, name_and_type_index },
                },
            )
        } else {
            self.add_cp_info(
                CpInfo {
                    tag: CP_TAG_METHODREF,
                    info: CpInfoType::Methodref { class_index: class, name_and_type_index },
                },
            )
        };
        proof {
            let e = member_entries(base, class, name@, descriptor@, field);
            lemma_with_entries_twice(c, seq![e[0]], seq![e[1]]);
            lemma_with_entries_twice(c, seq![e[0]] + seq![e[1]], seq![e[2]]);
            lemma_with_entries_twice(c, seq![e[0]] + seq![e[1]] + seq![e[2]], seq![e[3]]);
            assert(seq![e[0]] + seq![e[1]] + seq![e[2]] + seq![e[3]] =~= e);
        }
        index
    }

    /// Interns a field of the class at `class` by name and type, and gives
    /// the index of the field entry. Fails where the name or the text of
    /// the descriptor takes more than 65535 bytes or the pool has no room
    /// for four entries.
    pub fn load_field(&mut self, class: u16, name: &str, descriptor: Descriptor) -> (r: Result<
        u16,
        Error,
    >)
        requires
            model_ok(old(self)@),
        ensures
            model_ok(final(self)@),
            match r {
                Ok(index) => {
                    &&& text_fits(name@) && text_fits(text_of(descriptor@))
                    &&& has_room(old(self)@.class.constant_pool, 4)
                    &&& index == old(self)@.class.constant_pool.len() + 4
                    &&& final(self)@ == (BuilderModel {
                        class: with_entries(
                            old(self)@.class,
                            member_entries(
                                old(self)@.class.constant_pool.len() as int,
                                class,
                                name@,
                                text_of(descriptor@),
                                true,
                            ),
                        ),
                        active: old(self)@.active,
                    })
                },
                Err(e) => {
                    &&& e == Error::IndexOutOfRange
                    &&& !(text_fits(name@) && text_fits(text_of(descriptor@)) && has_room(
                        old(self)@.class.constant_pool,
                        4,
                    ))
                    &&& final(self)@ == old(self)@
                },
            },
    {
        let text = descriptor.serialize();
        if !Self::fits(name) || !Self::fits(text.as_str()) || !self.room_for(4) {
            return Err(Error::IndexOutOfRange);
        }
        Ok(self.add_member(class, name, text.as_str(), true))
    }

    /// Interns a method of the class at `class` by name and type, and gives
    /// the index of the method entry. Fails where the name or the text of
    /// the descriptor takes more than 65535 bytes or the pool has no room
    /// for four entries.
    pub fn load_method(&mut self, class: u16, name: &str, descriptor: Descriptor) -> (r: Result<
        u16,
        Error,
    >)
        requires
            model_ok(old(self)@),
        ensures
            model_ok(final(self)@),
            match r {
                Ok(index) => {
                    &&& text_fits(name@) && text_fits(text_of(descriptor@))
                    &&& has_room(old(self)@.class.constant_pool, 4)
                    &&& index == old(self)@.class.constant_pool.len() + 4
                    &&& final(self)@ == (BuilderModel {
                        class: with_entries(
                            old(self)@.class,
                            member_entries(
                                old(self)@.class.constant_pool.len() as int,
                                class,
                                name@,
                                text_of(descriptor@),
                                false,
                            ),
                        ),
                        active: old(self)@.active,
                    })
                },
                Err(e) => {
                    &&& e == Error::IndexOutOfRange
                    &&& !(text_fits(name@) && text_fits(text_of(descriptor@)) && has_room(
                        old(self)@.class.constant_pool,
                        4,
                    ))
                    &&& final(self)@ == old(self)@
                },
            },
    {
        let text = descriptor.serialize();
        if !Self::fits(name) || !Self::fits(text.as_str()) || !self.room_for(4) {
            return Err(Error::IndexOutOfRange);
        }
        Ok(self.add_member(class, name, text.as_str(), false))
    }

    /// Sets the superclass to the class entry at `class`.
    pub fn set_super_class(&mut self, class: u16)
        requires
            model_ok(old(self)@),
        ensures
            model_ok(final(self)@),
            final(self)@ == (BuilderModel {
                class: ClassFileModel { super_class: class, ..old(self)@.class },
                active: old(self)@.active,
            }),
    {
        self.class_file.super_class = class;
    }

    /// Names the class: interns the name as a class and makes that entry
    /// the class's own. Fails as `load_class` does.
    pub fn set_class_name(&mut self, name: &str) -> (r: Result<(), Error>)
        requires
            model_ok(old(self)@),
        ensures
            model_ok(final(self)@),
            match r {
                Ok(()) => {
                    &&& text_fits(name@)
                    &&& has_room(old(self)@.class.constant_pool, 2)
                    &&& final(self)@ == (BuilderModel {
                        class: ClassFileModel {
                            this_class: (old(self)@.class.constant_pool.len() + 2) as u16,
                            ..with_entries(
                                old(self)@.class,
                                seq![
                                    utf8_entry(name@),
                                    class_entry((old(self)@.class.constant_pool.len() + 1) as u16),
                                ],
                            )
                        },
                        active: old(self)@.active,
                    })
                },
                Err(e) => {
                    &&& e == Error::IndexOutOfRange
                    &&& !(text_fits(name@) && has_room(old(self)@.class.constant_pool, 2))
                    &&& final(self)@ == old(self)@
                },
            },
    {
        let index = self.load_class(name)?;
        self.class_file.this_class = index;
        Ok(())
    }

    /// Adds a field of the class itself with its name, type and flags, and
    /// interns it; gives the index of the field entry. Fails where the
    /// name or the text of the descriptor takes more than 65535 bytes, the
    /// pool has no room for four entries, or the class has 65535 fields.
    pub fn add_field(&mut self, name: &str, descriptor: Descriptor, access_flags: u16) -> (r:
        Result<u16, Error>)
        requires
            model_ok(old(self)@),
        ensures
            model_ok(final(self)@),
            match r {
                Ok(index) => {
                    &&& text_fits(name@) && text_fits(text_of(descriptor@))
                    &&& has_room(old(self)@.class.constant_pool, 4)
                    &&& old(self)@.class.fields.len() < 0xffff
                    &&& index == old(self)@.class.constant_pool.len() + 4
                    &&& final(self)@ == (BuilderModel {
                        class: with_field(
                            with_entries(
                                old(self)@.class,
                                member_entries(
                                    old(self)@.class.constant_pool.len() as int,
                                    old(self)@.class.this_class,
                                    name@,
                                    text_of(descriptor@),
                                    true,
                                ),
                            ),
                            MemberModel {
                                access_flags,
                                name_index: (index - 3) as u16,
                                descriptor_index: (index - 2) as u16,
                                attributes_count: 0,
                                attributes: Seq::empty(),
                            },
                        ),
                        active: old(self)@.active,
                    })
                },
                Err(e) => {
                    &&& e == Error::IndexOutOfRange
                    &&& !(text_fits(name@) && text_fits(text_of(descriptor@)) && has_room(
                        old(self)@.class.constant_pool,
                        4,
                    ) && old(self)@.class.fields.len() < 0xffff)
                    &&& final(self)@ == old(self)@
                },
            },
    {
        let text = descriptor.serialize();
        if !Self::fits(name) || !Self::fits(text.as_str()) || !self.room_for(4)
            || self.class_file.fields.len() >= 0xffff {
            return Err(Error::IndexOutOfRange);
        }
        let this_class = self.class_file.this_class;
        let index = self.add_member(this_class, name, text.as_str(), true);
        let field = FieldInfo {
            access_flags,
            name_index: index - 3,
            descriptor_index: index - 2,
            attributes_count: 0,
            attributes: Vec::new(),
        };
        proof {
            assert(field@.attributes =~= Seq::empty());
            assert(models(self.class_file.fields@.push(field)) =~= models(
                self.class_file.fields@,
            ).push(field@));
        }
        self.class_file.fields.push(field);
        self.class_file.fields_count = self.class_file.fields_count + 1;
        Ok(index)
    }
}


impl Builder {
    /// Finishes the method under assembly, if there is one, and puts it
    /// behind the methods.
    fn settle(&mut self)
        requires
            model_ok(old(self)@),
        ensures
            model_ok(final(self)@),
            final(self)@ == (BuilderModel { class: settled(old(self)@), active: None }),
    {
        let ghost pool = self@.class.constant_pool;
        match self.current_method.take() {
            None => {},
            Some(m) => {
                let ghost a = m@;
                let mut attributes: Vec<AttributeInfo> = Vec::new();
                attributes.push(
                    AttributeInfo {
                        attribute_name_index: m.code_name_index,
                        attribute_length: m.code_length + 12,
                        info: AttributeInfoKind::Code {
                            max_stack: m.max_stack,
                            max_locals: m.max_locals,
                            code_length: m.code_length,
                            code: m.code,
                            exception_table_length: 0,
                            exception_table: Vec::new(),
                            attributes_count: 0,
                            attributes: Vec::new(),
                        },
                    },
                );
                let method = MethodInfo {
                    access_flags: m.access_flags,
                    name_index: m.name_index,
                    descriptor_index: m.descriptor_index,
                    attributes_count: 1,
                    attributes,
                };
                proof {
                    reveal_with_fuel(attribute_models, 2);
                    let got = method@.attributes[0];
                    let want = code_attribute(a);
                    assert(got.info->Code_exception_table =~= want.info->Code_exception_table);
                    assert(got.info->Code_attributes =~= want.info->Code_attributes);
                    assert(got == want);
                    assert(method@.attributes =~= seq![code_attribute(a)]);
                    assert(method@ == finished(a));
                    assert(models(self.class_file.method_info@.push(method)) =~= models(
                        self.class_file.method_info@,
                    ).push(method@));
                    assert(finished_ok(finished(a), pool));
                }
                self.class_file.method_info.push(method);
                self.class_file.method_count = self.class_file.method_count + 1;
                proof {
                    let c = self@.class;
                    assert forall|i: int| 0 <= i < c.method_info.len() implies finished_ok(
                        #[trigger] c.method_info[i],
                        pool,
                    ) by {
                        if i < c.method_info.len() - 1 {
                            assert(c.method_info[i] == old(self)@.class.method_info[i]);
                        }
                    }
                }
            },
        }
    }

    /// Ends the assembly of the current method: the method, with its body
    /// as its `Code` attribute, is put behind the methods of the class.
    /// Fails where no method is under assembly.
    pub fn end_method(&mut self) -> (r: Result<(), Error>)
        requires
            model_ok(old(self)@),
        ensures
            model_ok(final(self)@),
            match r {
                Ok(()) => old(self)@.active is Some && final(self)@ == (BuilderModel {
                    class: settled(old(self)@),
                    active: None,
                }),
                Err(e) => e == Error::NoActiveMethod && old(self)@.active is None && final(self)@
                    == old(self)@,
            },
    {
        if self.current_method.is_none() {
            return Err(Error::NoActiveMethod);
        }
        self.settle();
        Ok(())
    }

    /// Starts a method of the class itself with its name, type and flags,
    /// and interns it; gives the index of the method entry. A method that
    /// was under assembly is ended first. The new body is empty, its stack
    /// depth is zero, and it has a local for each parameter and, unless it
    /// is static, one for the receiver.
    ///
    /// Fails with `InvalidDescriptor` where the descriptor is not that of a
    /// method. Fails with `IndexOutOfRange` where the name or the text of
    /// the descriptor takes more than 65535 bytes, the pool has no room for
    /// five entries, the class has no room for the methods, or the locals
    /// are more than 65535.
    pub fn add_method(&mut self, name: &str, descriptor: Descriptor, access_flags: u16) -> (r:
        Result<u16, Error>)
        requires
            model_ok(old(self)@),
        ensures
            model_ok(final(self)@),
            match r {
                Ok(index) => {
                    &&& descriptor@ matches DescriptorModel::Function(parameters, result)
                    &&& method_fits(old(self)@, name@, descriptor@, access_flags)
                    &&& index == old(self)@.class.constant_pool.len() + 5
                    &&& final(self)@ == (BuilderModel {
                        class: with_entries(
                            settled(old(self)@),
                            method_entries(
                                old(self)@.class.constant_pool.len() as int,
                                old(self)@.class.this_class,
                                name@,
                                text_of(descriptor@),
                            ),
                        ),
                        active: Some(
                            ActiveModel {
                                access_flags,
                                name_index: (index - 4) as u16,
                                descriptor_index: (index - 3) as u16,
                                code_name_index: (index - 2) as u16,
                                max_stack: 0,
                                max_locals: first_locals(parameters.len() as int, access_flags) as u16,
                                depth: 0,
                                code_length: 0,
                                code: Seq::empty(),
                            },
                        ),
                    })
                },
                Err(e) => {
                    &&& final(self)@ == old(self)@
                    &&& if descriptor@ is Function {
                        e == Error::IndexOutOfRange && !method_fits(
                            old(self)@,
                            name@,
                            descriptor@,
                            access_flags,
                        )
                    } else {
                        e == Error::InvalidDescriptor
                    }
                },
            },
    {
        let parameters = match &descriptor {
            Descriptor::Function(parameters, result) => {
                proof {
                    assert(descriptor@ == DescriptorModel::Function(
                        descriptor_models(parameters@),
                        Box::new((**result)@),
                    ));
                }
                parameters.len()
            },
            _ => {
                proof {
                    assert(!(descriptor@ is Function));
                }
                return Err(Error::InvalidDescriptor);
            },
        };
        let receiver: usize = if access_flags & METHOD_ACC_STATIC == METHOD_ACC_STATIC {
            0
        } else {
            1
        };
        let text = descriptor.serialize();
        let waiting: usize = if self.current_method.is_some() {
            1
        } else {
            0
        };
        if !Self::fits(name) || !Self::fits(text.as_str()) || !self.room_for(5)
            || self.class_file.method_info.len() + waiting >= 0xffff || parameters > 0xffff
            - receiver {
            return Err(Error::IndexOutOfRange);
        }
        self.settle();
        let ghost c = self@.class;
        let ghost base = c.constant_pool.len() as int;
        let this_class = self.class_file.this_class;
        let name_index = self.add_utf8(name);
        let descriptor_index = self.add_descriptor(text.as_str());
        proof {
            reveal_strlit("Code");
            assert(text_fits("Code"@)) by {
                vstd::utf8::is_ascii_chars_encode_utf8("Code"@);
            }
        }
        let code = self.add_utf8("Code");
        let name_and_type_index = self.add_cp_info(
            CpInfo {
                tag: CP_TAG_NAMEANDTYPE,
                info: CpInfoType::NameAndType { name_index, descriptor_index },
            },
        );
        let index = self.add_cp_info(
            CpInfo {
                tag: CP_TAG_METHODREF,
                info: CpInfoType::Methodref { class_index: this_class, name_and_type_index },
            },
        );
        proof {
            let e = method_entries(base, this_class, name@, text@);
            lemma_with_entries_twice(c, seq![e[0]], seq![e[1]]);
            lemma_with_entries_twice(c, seq![e[0]] + seq![e[1]], seq![e[2]]);
            lemma_with_entries_twice(c, seq![e[0]] + seq![e[1]] + seq![e[2]], seq![e[3]]);
            lemma_with_entries_twice(
                c,
                seq![e[0]] + seq![e[1]] + seq![e[2]] + seq![e[3]],
                seq![e[4]],
            );
            assert(seq![e[0]] + seq![e[1]] + seq![e[2]] + seq![e[3]] + seq![e[4]] =~= e);
            let pool = self@.class.constant_pool;
            lemma_narrow_pool(pool, base + 2);
            assert(pool[base + 2] == utf8_entry("Code"@));
            assert(wire_all(Seq::<OpcodeModel>::empty()) =~= Seq::<u8>::empty());
        }
        let method = ActiveMethod {
            access_flags,
            name_index,
            descriptor_index,
            code_name_index: code,
            max_stack: 0,
            max_locals: (parameters + receiver) as u16,
            depth: 0,
            code_length: 0,
            code: Vec::new(),
        };
        proof {
            assert(method@.code =~= Seq::empty());
        }
        self.current_method = Some(method);
        Ok(index)
    }

    /// Puts an instruction of fixed length behind the body of the method
    /// under assembly and keeps depth, highest depth, locals and length.
    fn emit(&mut self, op: Opcode, effect: i64, Ghost(net): Ghost<int>, local: Option<u8>) -> (r:
        Result<(), Error>)
        requires
            model_ok(old(self)@),
            !is_switch(op),
            family_in_range(op),
            effect == capped(net),
            net <= 2,
        ensures
            model_ok(final(self)@),
            emitted(
                old(self)@,
                final(self)@,
                r,
                OpcodeModel::Fixed(op),
                net,
                match local {
                    Some(l) => Some(l as int),
                    None => None,
                },
            ),
    {
        let bytes = match op.to_jvm_bytecode() {
            Ok(bytes) => bytes,
            Err(e) => {
                return Err(Error::IndexOutOfRange);
            },
        };
        let ghost pool = self@.class.constant_pool;
        let ghost before = self@;
        match &mut self.current_method {
            None => Err(Error::NoActiveMethod),
            Some(m) => {
                let ghost a = m@;
                let sum = m.depth as i64 + effect;
                let depth: i64 = if sum < 0 {
                    0
                } else {
                    sum
                };
                if depth > 0xffff || m.code_length as u64 + bytes.len() as u64 + 12 > 0xffff_ffff {
                    return Err(Error::IndexOutOfRange);
                }
                m.depth = depth as u16;
                if m.depth > m.max_stack {
                    m.max_stack = m.depth;
                }
                match local {
                    Some(l) => {
                        if l as u16 + 1 > m.max_locals {
                            m.max_locals = l as u16 + 1;
                        }
                    },
                    None => {},
                }
                m.code_length = m.code_length + bytes.len() as u32;
                proof {
                    lemma_wire_all_push(a.code, OpcodeModel::Fixed(op));
                    assert(models(m.code@.push(op)) =~= models(m.code@).push(op@));
                }
                m.code.push(op);
                proof {
                    let step = emit_step(
                        a,
                        OpcodeModel::Fixed(op),
                        net,
                        match local {
                            Some(l) => Some(l as int),
                            None => None,
                        },
                    );
                    assert(m@ == step);
                    assert forall|i: int| 0 <= i < step.code.len() implies (
                    #[trigger] step.code[i]) is Fixed && step.code[i].encodable() by {
                        if i < a.code.len() {
                            assert(step.code[i] == a.code[i]);
                        }
                    }
                    assert(active_ok(step, pool));
                }
                Ok(())
            },
        }
    }
}

/// Whether a method with this name, type and flags can be started: the
/// texts fit, the pool has room for five entries, the class has room for
/// the method and the one that may be under assembly, and the locals can
/// be counted in two bytes.
pub open spec fn method_fits(
    b: BuilderModel,
    name: Seq<char>,
    descriptor: DescriptorModel,
    access_flags: u16,
) -> bool {
    &&& text_fits(name)
    &&& text_fits(text_of(descriptor))
    &&& has_room(b.class.constant_pool, 5)
    &&& b.class.method_info.len() + (if b.active is Some {
        1int
    } else {
        0int
    }) < 0xffff
    &&& descriptor matches DescriptorModel::Function(parameters, result) ==> first_locals(
        parameters.len() as int,
        access_flags,
    ) <= 0xffff
}


/// What an emitter does that first tests its argument: with no method under
/// assembly it fails with `NoActiveMethod`; where the argument is out of
/// range it fails with `IndexOutOfRange`; in both cases nothing changes.
/// Otherwise it is `emitted`.
pub open spec fn emitted_checked(
    before: BuilderModel,
    after: BuilderModel,
    r: Result<(), Error>,
    in_range: bool,
    op: OpcodeModel,
    effect: int,
    local: Option<int>,
) -> bool {
    if before.active is None {
        r == Err::<(), Error>(Error::NoActiveMethod) && after == before
    } else if !in_range {
        r == Err::<(), Error>(Error::IndexOutOfRange) && after == before
    } else {
        emitted(before, after, r, op, effect, local)
    }
}

impl Builder {
    /// Emits `aaload`, which takes an array and an index and gives an
    /// element: net effect -1.
    pub fn build_aaload(&mut self) -> (r: Result<(), Error>)
        requires
            model_ok(old(self)@),
        ensures
            model_ok(final(self)@),
            emitted(old(self)@, final(self)@, r, OpcodeModel::Fixed(Opcode::Aaload), -1, None),
    {
        self.emit(Opcode::Aaload, -1, Ghost(-1), None)
    }

    /// Emits `aastore`, which takes an array, an index and a value: net
    /// effect -3.
    pub fn build_aastore(&mut self) -> (r: Result<(), Error>)
        requires
            model_ok(old(self)@),
        ensures
            model_ok(final(self)@),
            emitted(old(self)@, final(self)@, r, OpcodeModel::Fixed(Opcode::Aastore), -3, None),
    {
        self.emit(Opcode::Aastore, -3, Ghost(-3), None)
    }

    /// Emits `aconst_null`, which gives the null reference: net effect +1.
    pub fn build_aconst_null(&mut self) -> (r: Result<(), Error>)
        requires
            model_ok(old(self)@),
        ensures
            model_ok(final(self)@),
            emitted(old(self)@, final(self)@, r, OpcodeModel::Fixed(Opcode::AconstNull), 1, None),
    {
        self.emit(Opcode::AconstNull, 1, Ghost(1), None)
    }

    /// Emits `aload` of the local `local`, which gives the reference in
    /// that local: net effect +1.
    pub fn build_aload(&mut self, local: u8) -> (r: Result<(), Error>)
        requires
            model_ok(old(self)@),
        ensures
            model_ok(final(self)@),
            emitted(
                old(self)@,
                final(self)@,
                r,
                OpcodeModel::Fixed(Opcode::Aload(local)),
                1,
                Some(local as int),
            ),
    {
        self.emit(Opcode::Aload(local), 1, Ghost(1), Some(local))
    }

    /// Emits the short form of `aload` for the local `n`, which must be one
    /// of the first four: net effect +1.
    pub fn build_aload_n(&mut self, n: u8) -> (r: Result<(), Error>)
        requires
            model_ok(old(self)@),
        ensures
            model_ok(final(self)@),
            emitted_checked(
                old(self)@,
                final(self)@,
                r,
                n <= 3,
                OpcodeModel::Fixed(Opcode::AloadN(n)),
                1,
                Some(n as int),
            ),
    {
        if self.current_method.is_none() {
            return Err(Error::NoActiveMethod);
        }
        if n > 3 {
            return Err(Error::IndexOutOfRange);
        }
        self.emit(Opcode::AloadN(n), 1, Ghost(1), Some(n))
    }

    /// Emits `anewarray` of the class at `class`, which takes a length and
    /// gives an array: net effect 0.
    pub fn build_anewarray(&mut self, class: u16) -> (r: Result<(), Error>)
        requires
            model_ok(old(self)@),
        ensures
            model_ok(final(self)@),
            emitted(
                old(self)@,
                final(self)@,
                r,
                OpcodeModel::Fixed(
                    Opcode::Anewarray((class / 0x100) as u8, (class % 0x100) as u8),
                ),
                0,
                None,
            ),
    {
        let (high, low) = compute_byte(class);
        self.emit(Opcode::Anewarray(high, low), 0, Ghost(0), None)
    }

    /// Emits `areturn`, which takes the reference to return: net effect -1.
    pub fn build_areturn(&mut self) -> (r: Result<(), Error>)
        requires
            model_ok(old(self)@),
        ensures
            model_ok(final(self)@),
            emitted(old(self)@, final(self)@, r, OpcodeModel::Fixed(Opcode::Areturn), -1, None),
    {
        self.emit(Opcode::Areturn, -1, Ghost(-1), None)
    }

    /// Emits `arraylength`, which takes an array and gives its length: net
    /// effect 0.
    pub fn buldd_arraylength(&mut self) -> (r: Result<(), Error>)
        requires
            model_ok(old(self)@),
        ensures
            model_ok(final(self)@),
            emitted(old(self)@, final(self)@, r, OpcodeModel::Fixed(Opcode::Arraylength), 0, None),
    {
        self.emit(Opcode::Arraylength, 0, Ghost(0), None)
    }

    /// Emits `invokespecial` of the method at `method`. The net effect is
    /// that of the method's type as the pool holds it: the slots of its
    /// result less those of its parameters and the receiver.
    pub fn build_invoke_special(&mut self, method: u16) -> (r: Result<(), Error>)
        requires
            model_ok(old(self)@),
        ensures
            model_ok(final(self)@),
            emitted_resolved(
                old(self)@,
                final(self)@,
                r,
                OpcodeModel::Fixed(
                    Opcode::Invokespecial((method / 0x100) as u8, (method % 0x100) as u8),
                ),
                invoke_effect(old(self)@.class.constant_pool, method as int),
            ),
    {
        if self.current_method.is_none() {
            return Err(Error::NoActiveMethod);
        }
        let effect = invoke_effect_of(&self.class_file.constant_pool, method)?;
        let ghost net = invoke_effect(self@.class.constant_pool, method as int)->Ok_0;
        let (high, low) = compute_byte(method);
        self.emit(Opcode::Invokespecial(high, low), effect, Ghost(net), None)
    }

    /// Emits `invokevirtual` of the method at `method`. The net effect is
    /// that of the method's type as the pool holds it: the slots of its
    /// result less those of its parameters and the receiver.
    pub fn build_invoke_virtual(&mut self, method: u16) -> (r: Result<(), Error>)
        requires
            model_ok(old(self)@),
        ensures
            model_ok(final(self)@),
            emitted_resolved(
                old(self)@,
                final(self)@,
                r,
                OpcodeModel::Fixed(
                    Opcode::Invokevirtual((method / 0x100) as u8, (method % 0x100) as u8),
                ),
                invoke_effect(old(self)@.class.constant_pool, method as int),
            ),
    {
        if self.current_method.is_none() {
            return Err(Error::NoActiveMethod);
        }
        let effect = invoke_effect_of(&self.class_file.constant_pool, method)?;
        let ghost net = invoke_effect(self@.class.constant_pool, method as int)->Ok_0;
        let (high, low) = compute_byte(method);
        self.emit(Opcode::Invokevirtual(high, low), effect, Ghost(net), None)
    }

    /// Emits `getstatic` of the field at `field`. The net effect is the
    /// number of slots of the field's type as the pool holds it.
    pub fn build_getstatic(&mut self, field: u16) -> (r: Result<(), Error>)
        requires
            model_ok(old(self)@),
        ensures
            model_ok(final(self)@),
            emitted_resolved(
                old(self)@,
                final(self)@,
                r,
                OpcodeModel::Fixed(
                    Opcode::Getstatic((field / 0x100) as u8, (field % 0x100) as u8),
                ),
                field_effect(old(self)@.class.constant_pool, field as int),
            ),
    {
        if self.current_method.is_none() {
            return Err(Error::NoActiveMethod);
        }
        let effect = field_effect_of(&self.class_file.constant_pool, field)?;
        let ghost net = field_effect(self@.class.constant_pool, field as int)->Ok_0;
        let (high, low) = compute_byte(field);
        self.emit(Opcode::Getstatic(high, low), effect, Ghost(net), None)
    }

    /// Emits `ldc` of the constant at `constant`, which must be below 256,
    /// the most that the one index byte of `ldc` can say: net effect +1.
    pub fn build_ldc(&mut self, constant: u16) -> (r: Result<(), Error>)
        requires
            model_ok(old(self)@),
        ensures
            model_ok(final(self)@),
            emitted_checked(
                old(self)@,
                final(self)@,
                r,
                constant <= 0xff,
                OpcodeModel::Fixed(Opcode::Ldc(constant as u8)),
                1,
                None,
            ),
    {
        if self.current_method.is_none() {
            return Err(Error::NoActiveMethod);
        }
        if constant > 0xff {
            return Err(Error::IndexOutOfRange);
        }
        self.emit(Opcode::Ldc(constant as u8), 1, Ghost(1), None)
    }

    /// Emits `return`: net effect 0.
    pub fn build_return(&mut self) -> (r: Result<(), Error>)
        requires
            model_ok(old(self)@),
        ensures
            model_ok(final(self)@),
            emitted(old(self)@, final(self)@, r, OpcodeModel::Fixed(Opcode::Return_), 0, None),
    {
        self.emit(Opcode::Return_, 0, Ghost(0), None)
    }

    /// The class file as it is built so far, with the method under
    /// assembly, if there is one, as it would be ended now. The class file
    /// can be written, and decoding what is written gives it back.
    pub fn build(&self) -> (class: ClassFile)
        requires
            model_ok(self@),
        ensures
            class@ == settled(self@),
            class@.encodable(),
            class_valid(class@),
    {
        let mut builder = self.clone();
        builder.settle();
        proof {
            lemma_model_valid(builder@);
        }
        builder.class_file
    }
}

impl Clone for ActiveMethod {
    /// A method under assembly with the same model.
    fn clone(&self) -> (copy: ActiveMethod)
        ensures
            copy@ == self@,
    {
        ActiveMethod {
            access_flags: self.access_flags,
            name_index: self.name_index,
            descriptor_index: self.descriptor_index,
            code_name_index: self.code_name_index,
            max_stack: self.max_stack,
            max_locals: self.max_locals,
            depth: self.depth,
            code_length: self.code_length,
            code: clone_all(&self.code),
        }
    }
}

impl Clone for Builder {
    /// An assembler with the same model.
    fn clone(&self) -> (copy: Builder)
        ensures
            copy@ == self@,
    {
        Builder {
            class_file: self.class_file.clone(),
            current_method: match &self.current_method {
                Some(m) => Some(m.clone()),
                None => None,
            },
        }
    }
}

/// One instruction that is emitted: the instruction, its net stack effect,
/// and the local that it uses, if it uses one.
pub struct Step {
    pub op: OpcodeModel,
    pub effect: int,
    pub local: Option<int>,
}

/// Whether the step can follow the state `m`: it fits, and its local, if it
/// has one, can be named in one byte.
pub open spec fn step_fits(m: ActiveModel, step: Step) -> bool {
    &&& emit_fits(m, step.op, step.effect)
    &&& step.local matches Some(l) ==> 0 <= l <= 0xff
}

/// The method under assembly behind the steps, emitted in order.
pub open spec fn after_steps(m: ActiveModel, steps: Seq<Step>) -> ActiveModel
    decreases steps.len(),
{
    if steps.len() == 0 {
        m
    } else {
        let step = steps.last();
        emit_step(after_steps(m, steps.drop_last()), step.op, step.effect, step.local)
    }
}

/// Whether each of the steps can follow the state behind the steps before
/// it.
pub open spec fn steps_fit(m: ActiveModel, steps: Seq<Step>) -> bool {
    forall|i: int|
        0 <= i < steps.len() ==> step_fits(after_steps(m, steps.take(i)), #[trigger] steps[i])
}

/// The sum of the net effects of the steps: what they add to the depth of a
/// stack that is deep enough for them.
pub open spec fn effects_sum(steps: Seq<Step>) -> int
    decreases steps.len(),
{
    if steps.len() == 0 {
        0
    } else {
        effects_sum(steps.drop_last()) + steps.last().effect
    }
}

/// Whatever instructions are emitted into a method, the highest depth that
/// the assembler keeps covers the depth behind each of them, and the number
/// of locals that it keeps covers each local that one of them uses.
///
/// Behind any steps that fit: the highest depth is not below the depth at
/// the start and the sum of the effects of the first `k` steps, for every
/// `k`; the depth is not below the depth at the start and the sum of all
/// effects, and not above the highest depth; the number of locals is not
/// below the number at the start, and above the local of step `k`; and the
/// code is the code at the start with the instructions of the steps behind
/// it.
pub proof fn lemma_assembler_covers(m: ActiveModel, steps: Seq<Step>, k: int)
    requires
        m.depth <= m.max_stack,
        steps_fit(m, steps),
        0 <= k <= steps.len(),
    ensures
        after_steps(m, steps).max_stack >= m.depth + effects_sum(steps.take(k)),
        after_steps(m, steps).depth >= m.depth + effects_sum(steps),
        after_steps(m, steps).depth <= after_steps(m, steps).max_stack,
        after_steps(m, steps).max_stack >= m.max_stack,
        after_steps(m, steps).max_locals >= m.max_locals,
        k < steps.len() ==> (steps[k].local matches Some(l) ==> after_steps(m, steps).max_locals
            >= l + 1),
        after_steps(m, steps).code == m.code + Seq::new(steps.len(), |i: int| steps[i].op),
    decreases steps.len(),
{
    let ops = Seq::new(steps.len(), |i: int| steps[i].op);
    if steps.len() == 0 {
        assert(steps.take(k) =~= steps);
        assert(m.code + ops =~= m.code);
    } else {
        let front = steps.drop_last();
        let last = steps.last();
        assert forall|i: int| 0 <= i < front.len() implies step_fits(
            after_steps(m, front.take(i)),
            #[trigger] front[i],
        ) by {
            assert(front.take(i) =~= steps.take(i));
            assert(front[i] == steps[i]);
        }
        let j = if k < steps.len() {
            k
        } else {
            front.len() as int
        };
        lemma_assembler_covers(m, front, j);
        assert(steps.take(steps.len() - 1) =~= front);
        assert(step_fits(after_steps(m, front), steps[steps.len() - 1]));
        if k < steps.len() {
            assert(steps.take(k) =~= front.take(k));
            if k < front.len() {
                assert(front[k] == steps[k]);
            }
        } else {
            assert(steps.take(k) =~= steps);
        }
        let front_ops = Seq::new(front.len(), |i: int| front[i].op);
        assert((m.code + front_ops).push(last.op) =~= m.code + ops);
    }
}

} // verus!
