//! Annotations and their element values: a tree in which an element value
//! may hold an annotation or a table of element values.

use vstd::prelude::*;
use crate::error::{Error, ErrorModel};
use crate::reader::{
    carries, has_bytes, lemma_carries_split, lemma_u16_at_bytes, u16_at, u16_bytes, Reader,
};
use crate::wire::{
    all_encodable, all_valid, clone_all, decode_n, decoded, encode_all, expected, lemma_parse_n,
    models, parse_n, prepend, lemma_prepend_push, lemma_prepend_empty, put_u16, wire_all, Decode,
    Parse, Parsed, Wire,
};
use super::{appended, ToJvmBytecode};

verus! {

/// An annotation: the index of its type and its element-value pairs.
#[derive(Debug, PartialEq)]
pub struct Annotation {
    pub type_index: u16,
    pub num_element_value_pairs: u16,
    pub element_value_pairs: Vec<ElementValuePair>,
}

/// The name of an element and its value.
#[derive(Debug, PartialEq)]
pub struct ElementValuePair {
    pub element_name_index: u16,
    pub value: ElementValue,
}

/// An element value with the tag byte that says what it is.
#[derive(Debug, PartialEq)]
pub struct ElementValue {
    pub tag: u8,
    pub value: ElementValueKind,
}

/// What an element value holds.
#[derive(Debug, PartialEq)]
pub enum ElementValueKind {
    ConstValueIndex(u16),
    EnumConstValue { type_name_index: u16, const_name_index: u16 },
    ClassInfoIndex(u16),
    AnnotationValue(Annotation),
    ArrayValue { num_values: u16, values: Vec<ElementValue> },
}

/// The annotations of one parameter.
#[derive(Debug, PartialEq)]
pub struct ParameterAnnotation {
    pub num_annotations: u16,
    pub annotations: Vec<Annotation>,
}

/// The model of an [`Annotation`]: its pairs as a sequence.
pub struct AnnotationModel {
    pub type_index: u16,
    pub num_element_value_pairs: u16,
    pub element_value_pairs: Seq<ElementValuePairModel>,
}

/// The model of an [`ElementValuePair`].
pub struct ElementValuePairModel {
    pub element_name_index: u16,
    pub value: ElementValueModel,
}

/// The model of an [`ElementValue`].
pub struct ElementValueModel {
    pub tag: u8,
    pub value: ElementValueKindModel,
}

/// The model of an [`ElementValueKind`]: the values of an array as a
/// sequence.
pub enum ElementValueKindModel {
    ConstValueIndex(u16),
    EnumConstValue { type_name_index: u16, const_name_index: u16 },
    ClassInfoIndex(u16),
    AnnotationValue(AnnotationModel),
    ArrayValue { num_values: u16, values: Seq<ElementValueModel> },
}

/// The model of a [`ParameterAnnotation`]: its annotations as a sequence.
pub struct ParameterAnnotationModel {
    pub num_annotations: u16,
    pub annotations: Seq<AnnotationModel>,
}

/// The model of an annotation.
pub open spec fn annotation_model(a: Annotation) -> AnnotationModel
    decreases a,
{
    AnnotationModel {
        type_index: a.type_index,
        num_element_value_pairs: a.num_element_value_pairs,
        element_value_pairs: pair_models(a.element_value_pairs@),
    }
}

/// The models of the pairs of a table.
pub open spec fn pair_models(s: Seq<ElementValuePair>) -> Seq<ElementValuePairModel>
    decreases s,
{
    Seq::new(
        s.len(),
        |i: int|
            if 0 <= i < s.len() {
                pair_model(s[i])
            } else {
                arbitrary()
            },
    )
}

/// The model of a pair.
pub open spec fn pair_model(p: ElementValuePair) -> ElementValuePairModel
    decreases p,
{
    ElementValuePairModel { element_name_index: p.element_name_index, value: value_model(p.value) }
}

/// The model of an element value.
pub open spec fn value_model(v: ElementValue) -> ElementValueModel
    decreases v,
{
    ElementValueModel {
        tag: v.tag,
        value: match v.value {
            ElementValueKind::ConstValueIndex(i) => ElementValueKindModel::ConstValueIndex(i),
            ElementValueKind::EnumConstValue {
                type_name_index,
                const_name_index,
            } => ElementValueKindModel::EnumConstValue { type_name_index, const_name_index },
            ElementValueKind::ClassInfoIndex(i) => ElementValueKindModel::ClassInfoIndex(i),
            ElementValueKind::AnnotationValue(a) => ElementValueKindModel::AnnotationValue(
                annotation_model(a),
            ),
            ElementValueKind::ArrayValue {
                num_values,
                values,
            } => ElementValueKindModel::ArrayValue {
                num_values,
                values: value_models(values@),
            },
        },
    }
}

/// The models of the element values of a table.
pub open spec fn value_models(s: Seq<ElementValue>) -> Seq<ElementValueModel>
    decreases s,
{
    Seq::new(
        s.len(),
        |i: int|
            if 0 <= i < s.len() {
                value_model(s[i])
            } else {
                arbitrary()
            },
    )
}

impl View for Annotation {
    type V = AnnotationModel;

    open spec fn view(&self) -> AnnotationModel {
        annotation_model(*self)
    }
}

impl View for ElementValuePair {
    type V = ElementValuePairModel;

    open spec fn view(&self) -> ElementValuePairModel {
        pair_model(*self)
    }
}

impl View for ElementValue {
    type V = ElementValueModel;

    open spec fn view(&self) -> ElementValueModel {
        value_model(*self)
    }
}

impl View for ElementValueKind {
    type V = ElementValueKindModel;

    open spec fn view(&self) -> ElementValueKindModel {
        value_model(ElementValue { tag: 0, value: *self }).value
    }
}

impl View for ParameterAnnotation {
    type V = ParameterAnnotationModel;

    open spec fn view(&self) -> ParameterAnnotationModel {
        ParameterAnnotationModel {
            num_annotations: self.num_annotations,
            annotations: models(self.annotations@),
        }
    }
}


/// The tag of an enum constant: `e`.
pub const TAG_ENUM: u8 = 0x65;

/// The tag of a class: `c`.
pub const TAG_CLASS: u8 = 0x63;

/// The tag of an annotation: `@`.
pub const TAG_ANNOTATION: u8 = 0x40;

/// The tag of an array: `[`.
pub const TAG_ARRAY: u8 = 0x5b;

/// Whether `tag` is one of the tags of a constant: `B C D F I J S Z s`.
pub open spec fn is_const_tag(tag: u8) -> bool {
    tag == 0x42 || tag == 0x43 || tag == 0x44 || tag == 0x46 || tag == 0x49 || tag == 0x4a || tag
        == 0x53 || tag == 0x5a || tag == 0x73
}

/// Whether `tag` is a tag of the kind of value that `kind` is.
pub open spec fn tag_fits(tag: u8, kind: ElementValueKindModel) -> bool {
    match kind {
        ElementValueKindModel::ConstValueIndex(_) => is_const_tag(tag),
        ElementValueKindModel::EnumConstValue { .. } => tag == TAG_ENUM,
        ElementValueKindModel::ClassInfoIndex(_) => tag == TAG_CLASS,
        ElementValueKindModel::AnnotationValue(_) => tag == TAG_ANNOTATION,
        ElementValueKindModel::ArrayValue { .. } => tag == TAG_ARRAY,
    }
}

/// Whether the element value can be written: its tag fits its kind and no
/// table in it is longer than 65535. With `strict`, also whether every
/// stored count is the length of its table.
pub open spec fn value_ok(v: ElementValueModel, strict: bool) -> bool
    decreases v,
{
    &&& tag_fits(v.tag, v.value)
    &&& match v.value {
        ElementValueKindModel::AnnotationValue(a) => annotation_ok(a, strict),
        ElementValueKindModel::ArrayValue { num_values, values } => {
            &&& values.len() <= 0xffff
            &&& strict ==> num_values == values.len()
            &&& forall|i: int| 0 <= i < values.len() ==> value_ok(#[trigger] values[i], strict)
        },
        _ => true,
    }
}

/// Whether the annotation can be written, and with `strict`, whether its
/// stored counts are the lengths of its tables.
pub open spec fn annotation_ok(a: AnnotationModel, strict: bool) -> bool
    decreases a,
{
    &&& a.element_value_pairs.len() <= 0xffff
    &&& strict ==> a.num_element_value_pairs == a.element_value_pairs.len()
    &&& forall|i: int|
        0 <= i < a.element_value_pairs.len() ==> value_ok(
            (#[trigger] a.element_value_pairs[i]).value,
            strict,
        )
}

/// The tag byte and what the kind of value puts behind it.
pub open spec fn wire_value(v: ElementValueModel) -> Seq<u8>
    decreases v,
{
    seq![v.tag] + match v.value {
        ElementValueKindModel::ConstValueIndex(i) => u16_bytes(i),
        ElementValueKindModel::EnumConstValue { type_name_index, const_name_index } => u16_bytes(
            type_name_index,
        ) + u16_bytes(const_name_index),
        ElementValueKindModel::ClassInfoIndex(i) => u16_bytes(i),
        ElementValueKindModel::AnnotationValue(a) => wire_annotation(a),
        ElementValueKindModel::ArrayValue { num_values, values } => u16_bytes(values.len() as u16)
            + wire_values(values),
    }
}

/// The encodings of the element values, one behind the other.
pub open spec fn wire_values(s: Seq<ElementValueModel>) -> Seq<u8>
    decreases s,
{
    if s.len() == 0 {
        Seq::empty()
    } else {
        wire_value(s[0]) + wire_values(s.drop_first())
    }
}

/// The type index, the number of pairs, and the pairs.
pub open spec fn wire_annotation(a: AnnotationModel) -> Seq<u8>
    decreases a,
{
    u16_bytes(a.type_index) + u16_bytes(a.element_value_pairs.len() as u16) + wire_pairs(
        a.element_value_pairs,
    )
}

/// The encodings of the pairs, one behind the other: of each the index of
/// its name and its value.
pub open spec fn wire_pairs(s: Seq<ElementValuePairModel>) -> Seq<u8>
    decreases s,
{
    if s.len() == 0 {
        Seq::empty()
    } else {
        (u16_bytes(s[0].element_name_index) + wire_value(s[0].value)) + wire_pairs(s.drop_first())
    }
}

/// The element value that stands in `data` at `pos`.
pub open spec fn parse_value(data: Seq<u8>, pos: int) -> Parsed<ElementValueModel>
    decreases data.len() - pos, 0int,
{
    if !has_bytes(data, pos, 1) {
        Err(ErrorModel::TruncatedInput)
    } else {
        let tag = data[pos];
        if is_const_tag(tag) || tag == TAG_CLASS {
            if !has_bytes(data, pos + 1, 2) {
                Err(ErrorModel::TruncatedInput)
            } else if tag == TAG_CLASS {
                Ok(
                    (
                        ElementValueModel {
                            tag,
                            value: ElementValueKindModel::ClassInfoIndex(u16_at(data, pos + 1)),
                        },
                        pos + 3,
                    ),
                )
            } else {
                Ok(
                    (
                        ElementValueModel {
                            tag,
                            value: ElementValueKindModel::ConstValueIndex(u16_at(data, pos + 1)),
                        },
                        pos + 3,
                    ),
                )
            }
        } else if tag == TAG_ENUM {
            if !has_bytes(data, pos + 1, 4) {
                Err(ErrorModel::TruncatedInput)
            } else {
                Ok(
                    (
                        ElementValueModel {
                            tag,
                            value: ElementValueKindModel::EnumConstValue {
                                type_name_index: u16_at(data, pos + 1),
                                const_name_index: u16_at(data, pos + 3),
                            },
                        },
                        pos + 5,
                    ),
                )
            }
        } else if tag == TAG_ANNOTATION {
            match parse_annotation(data, pos + 1) {
                Ok((a, p)) => Ok(
                    (ElementValueModel { tag, value: ElementValueKindModel::AnnotationValue(a) }, p),
                ),
                Err(e) => Err(e),
            }
        } else if tag == TAG_ARRAY {
            if !has_bytes(data, pos + 1, 2) {
                Err(ErrorModel::TruncatedInput)
            } else {
                let n = u16_at(data, pos + 1);
                match parse_values(data, pos + 3, n as int) {
                    Ok((values, p)) => Ok(
                        (
                            ElementValueModel {
                                tag,
                                value: ElementValueKindModel::ArrayValue { num_values: n, values },
                            },
                            p,
                        ),
                    ),
                    Err(e) => Err(e),
                }
            }
        } else {
            Err(ErrorModel::UnknownTag(tag))
        }
    }
}

/// The `n` element values that stand in `data` from `pos` on. A step that
/// would not move forward ends the decoding.
pub open spec fn parse_values(data: Seq<u8>, pos: int, n: int) -> Parsed<Seq<ElementValueModel>>
    decreases data.len() - pos, n + 1,
{
    if n <= 0 {
        Ok((Seq::empty(), pos))
    } else {
        match parse_value(data, pos) {
            Ok((v, p)) => if pos < p <= data.len() {
                prepend(seq![v], parse_values(data, p, n - 1))
            } else {
                Err(ErrorModel::TruncatedInput)
            },
            Err(e) => Err(e),
        }
    }
}

/// The annotation that stands in `data` at `pos`.
pub open spec fn parse_annotation(data: Seq<u8>, pos: int) -> Parsed<AnnotationModel>
    decreases data.len() - pos, 0int,
{
    if !has_bytes(data, pos, 4) {
        Err(ErrorModel::TruncatedInput)
    } else {
        let n = u16_at(data, pos + 2);
        match parse_pairs(data, pos + 4, n as int) {
            Ok((pairs, p)) => Ok(
                (
                    AnnotationModel {
                        type_index: u16_at(data, pos),
                        num_element_value_pairs: n,
                        element_value_pairs: pairs,
                    },
                    p,
                ),
            ),
            Err(e) => Err(e),
        }
    }
}

/// The `n` element-value pairs that stand in `data` from `pos` on.
pub open spec fn parse_pairs(data: Seq<u8>, pos: int, n: int) -> Parsed<Seq<ElementValuePairModel>>
    decreases data.len() - pos, n + 1,
{
    if n <= 0 {
        Ok((Seq::empty(), pos))
    } else if !has_bytes(data, pos, 2) {
        Err(ErrorModel::TruncatedInput)
    } else {
        match parse_value(data, pos + 2) {
            Ok((v, p)) => if pos < p <= data.len() {
                prepend(
                    seq![ElementValuePairModel { element_name_index: u16_at(data, pos), value: v }],
                    parse_pairs(data, p, n - 1),
                )
            } else {
                Err(ErrorModel::TruncatedInput)
            },
            Err(e) => Err(e),
        }
    }
}

impl Wire for ElementValueModel {
    open spec fn encodable(self) -> bool {
        value_ok(self, false)
    }

    open spec fn wire(self) -> Seq<u8> {
        wire_value(self)
    }
}

impl Wire for ElementValuePairModel {
    open spec fn encodable(self) -> bool {
        value_ok(self.value, false)
    }

    open spec fn wire(self) -> Seq<u8> {
        u16_bytes(self.element_name_index) + wire_value(self.value)
    }
}

/// The part of an element value behind its tag. No tag stands beside it, so
/// only the lengths of its tables decide whether it can be written.
impl Wire for ElementValueKindModel {
    open spec fn encodable(self) -> bool {
        match self {
            ElementValueKindModel::AnnotationValue(a) => annotation_ok(a, false),
            ElementValueKindModel::ArrayValue { num_values, values } => values.len() <= 0xffff
                && all_encodable(values),
            _ => true,
        }
    }

    open spec fn wire(self) -> Seq<u8> {
        match self {
            ElementValueKindModel::ConstValueIndex(i) => u16_bytes(i),
            ElementValueKindModel::EnumConstValue { type_name_index, const_name_index } => u16_bytes(
                type_name_index,
            ) + u16_bytes(const_name_index),
            ElementValueKindModel::ClassInfoIndex(i) => u16_bytes(i),
            ElementValueKindModel::AnnotationValue(a) => wire_annotation(a),
            ElementValueKindModel::ArrayValue { num_values, values } => u16_bytes(
                values.len() as u16,
            ) + wire_all(values),
        }
    }
}

impl Wire for AnnotationModel {
    open spec fn encodable(self) -> bool {
        annotation_ok(self, false)
    }

    open spec fn wire(self) -> Seq<u8> {
        wire_annotation(self)
    }
}

impl Wire for ParameterAnnotationModel {
    open spec fn encodable(self) -> bool {
        self.annotations.len() <= 0xffff && all_encodable(self.annotations)
    }

    open spec fn wire(self) -> Seq<u8> {
        u16_bytes(self.annotations.len() as u16) + wire_all(self.annotations)
    }
}

/// Decoding where the encoding of an element value stands gives the value
/// back; where the buffer ends before the encoding does, decoding fails for
/// want of input.
pub proof fn lemma_parse_value(v: ElementValueModel, data: Seq<u8>, pos: int)
    requires
        value_ok(v, true),
        0 <= pos <= data.len(),
        carries(data, pos, wire_value(v)),
    ensures
        parse_value(data, pos) == expected(v, data, pos, wire_value(v)),
    decreases v,
{
    let head = seq![v.tag];
    if pos < data.len() {
        assert(data[pos + 0] == wire_value(v)[0]);
        match v.value {
            ElementValueKindModel::ConstValueIndex(i) => {
                lemma_carries_split(data, pos, head, u16_bytes(i));
                if has_bytes(data, pos + 1, 2) {
                    lemma_u16_at_bytes(data, pos + 1, i);
                }
            },
            ElementValueKindModel::EnumConstValue { type_name_index, const_name_index } => {
                let body = u16_bytes(type_name_index) + u16_bytes(const_name_index);
                lemma_carries_split(data, pos, head, body);
                lemma_carries_split(data, pos + 1, u16_bytes(type_name_index), u16_bytes(const_name_index));
                if has_bytes(data, pos + 1, 4) {
                    lemma_u16_at_bytes(data, pos + 1, type_name_index);
                    lemma_u16_at_bytes(data, pos + 3, const_name_index);
                }
            },
            ElementValueKindModel::ClassInfoIndex(i) => {
                lemma_carries_split(data, pos, head, u16_bytes(i));
                if has_bytes(data, pos + 1, 2) {
                    lemma_u16_at_bytes(data, pos + 1, i);
                }
            },
            ElementValueKindModel::AnnotationValue(a) => {
                lemma_carries_split(data, pos, head, wire_annotation(a));
                lemma_parse_annotation(a, data, pos + 1);
            },
            ElementValueKindModel::ArrayValue { num_values, values } => {
                let count = u16_bytes(values.len() as u16);
                lemma_carries_split(data, pos, head, count + wire_values(values));
                lemma_carries_split(data, pos + 1, count, wire_values(values));
                if has_bytes(data, pos + 1, 2) {
                    lemma_u16_at_bytes(data, pos + 1, values.len() as u16);
                    lemma_parse_values(values, data, pos + 3);
                }
            },
        }
    }
}

/// As `lemma_parse_value`, for the element values of a table.
pub proof fn lemma_parse_values(s: Seq<ElementValueModel>, data: Seq<u8>, pos: int)
    requires
        forall|i: int| 0 <= i < s.len() ==> value_ok(#[trigger] s[i], true),
        0 <= pos <= data.len(),
        carries(data, pos, wire_values(s)),
    ensures
        parse_values(data, pos, s.len() as int) == expected(s, data, pos, wire_values(s)),
    decreases s,
{
    if s.len() == 0 {
        assert(s =~= Seq::<ElementValueModel>::empty());
    } else {
        let head = s[0];
        let tail = s.drop_first();
        lemma_carries_split(data, pos, wire_value(head), wire_values(tail));
        lemma_parse_value(head, data, pos);
        let mid = pos + wire_value(head).len();
        if mid <= data.len() {
            assert forall|i: int| 0 <= i < tail.len() implies value_ok(#[trigger] tail[i], true) by {
                assert(tail[i] == s[i + 1]);
            }
            lemma_parse_values(tail, data, mid);
            assert(seq![head] + tail =~= s);
        }
    }
}

/// Decoding where the encoding of an annotation stands gives the annotation
/// back; where the buffer ends before the encoding does, decoding fails for
/// want of input.
pub proof fn lemma_parse_annotation(a: AnnotationModel, data: Seq<u8>, pos: int)
    requires
        annotation_ok(a, true),
        0 <= pos <= data.len(),
        carries(data, pos, wire_annotation(a)),
    ensures
        parse_annotation(data, pos) == expected(a, data, pos, wire_annotation(a)),
    decreases a,
{
    let t = u16_bytes(a.type_index);
    let n = u16_bytes(a.element_value_pairs.len() as u16);
    lemma_carries_split(data, pos, t + n, wire_pairs(a.element_value_pairs));
    lemma_carries_split(data, pos, t, n);
    if has_bytes(data, pos, 4) {
        lemma_u16_at_bytes(data, pos, a.type_index);
        lemma_u16_at_bytes(data, pos + 2, a.element_value_pairs.len() as u16);
        lemma_parse_pairs(a.element_value_pairs, data, pos + 4);
    }
}

/// As `lemma_parse_annotation`, for the pairs of an annotation.
pub proof fn lemma_parse_pairs(s: Seq<ElementValuePairModel>, data: Seq<u8>, pos: int)
    requires
        forall|i: int| 0 <= i < s.len() ==> value_ok((#[trigger] s[i]).value, true),
        0 <= pos <= data.len(),
        carries(data, pos, wire_pairs(s)),
    ensures
        parse_pairs(data, pos, s.len() as int) == expected(s, data, pos, wire_pairs(s)),
    decreases s,
{
    if s.len() == 0 {
        assert(s =~= Seq::<ElementValuePairModel>::empty());
    } else {
        let head = s[0];
        let tail = s.drop_first();
        let name = u16_bytes(head.element_name_index);
        lemma_carries_split(data, pos, name + wire_value(head.value), wire_pairs(tail));
        lemma_carries_split(data, pos, name, wire_value(head.value));
        if has_bytes(data, pos, 2) {
            lemma_u16_at_bytes(data, pos, head.element_name_index);
            lemma_parse_value(head.value, data, pos + 2);
            let mid = pos + 2 + wire_value(head.value).len();
            if mid <= data.len() {
                assert forall|i: int| 0 <= i < tail.len() implies value_ok(
                    (#[trigger] tail[i]).value,
                    true,
                ) by {
                    assert(tail[i] == s[i + 1]);
                }
                lemma_parse_pairs(tail, data, mid);
                assert(seq![head] + tail =~= s);
            }
        }
    }
}

impl Parse for ElementValueModel {
    open spec fn parse(data: Seq<u8>, pos: int) -> Parsed<ElementValueModel> {
        parse_value(data, pos)
    }

    open spec fn valid(self) -> bool {
        value_ok(self, true)
    }

    proof fn lemma_parse(self, data: Seq<u8>, pos: int) {
        lemma_parse_value(self, data, pos);
    }
}

impl Parse for AnnotationModel {
    open spec fn parse(data: Seq<u8>, pos: int) -> Parsed<AnnotationModel> {
        parse_annotation(data, pos)
    }

    open spec fn valid(self) -> bool {
        annotation_ok(self, true)
    }

    proof fn lemma_parse(self, data: Seq<u8>, pos: int) {
        lemma_parse_annotation(self, data, pos);
    }
}

impl Parse for ParameterAnnotationModel {
    open spec fn parse(data: Seq<u8>, pos: int) -> Parsed<ParameterAnnotationModel> {
        if !has_bytes(data, pos, 2) {
            Err(ErrorModel::TruncatedInput)
        } else {
            let n = u16_at(data, pos);
            match parse_n::<AnnotationModel>(data, pos + 2, n as int) {
                Ok((annotations, p)) => Ok(
                    (ParameterAnnotationModel { num_annotations: n, annotations }, p),
                ),
                Err(e) => Err(e),
            }
        }
    }

    open spec fn valid(self) -> bool {
        self.num_annotations == self.annotations.len() && all_valid(self.annotations)
    }

    proof fn lemma_parse(self, data: Seq<u8>, pos: int) {
        let n = u16_bytes(self.annotations.len() as u16);
        lemma_carries_split(data, pos, n, wire_all(self.annotations));
        if has_bytes(data, pos, 2) {
            lemma_u16_at_bytes(data, pos, self.annotations.len() as u16);
            lemma_parse_n::<AnnotationModel>(self.annotations, data, pos + 2);
        }
    }
}


/// Encoding a table of element values with one more value appends that
/// value's encoding.
pub proof fn lemma_wire_values_push(s: Seq<ElementValueModel>, v: ElementValueModel)
    ensures
        wire_values(s.push(v)) == wire_values(s) + wire_value(v),
    decreases s.len(),
{
    if s.len() == 0 {
        assert(s.push(v).drop_first() =~= Seq::<ElementValueModel>::empty());
        assert(wire_values(s.push(v).drop_first()) =~= Seq::<u8>::empty());
        assert(wire_values(s.push(v)) =~= wire_value(v));
        assert(wire_values(s) + wire_value(v) =~= wire_value(v));
    } else {
        lemma_wire_values_push(s.drop_first(), v);
        assert(s.push(v).drop_first() =~= s.drop_first().push(v));
        assert(wire_value(s[0]) + (wire_values(s.drop_first()) + wire_value(v)) =~= (wire_value(s[0])
            + wire_values(s.drop_first())) + wire_value(v));
    }
}

/// Encoding a table of pairs with one more pair appends that pair's
/// encoding.
pub proof fn lemma_wire_pairs_push(s: Seq<ElementValuePairModel>, p: ElementValuePairModel)
    ensures
        wire_pairs(s.push(p)) == wire_pairs(s) + (u16_bytes(p.element_name_index) + wire_value(
            p.value,
        )),
    decreases s.len(),
{
    let w = u16_bytes(p.element_name_index) + wire_value(p.value);
    if s.len() == 0 {
        assert(s.push(p).drop_first() =~= Seq::<ElementValuePairModel>::empty());
        assert(wire_pairs(s.push(p).drop_first()) =~= Seq::<u8>::empty());
        assert(wire_pairs(s.push(p)) =~= w);
        assert(wire_pairs(s) + w =~= w);
    } else {
        lemma_wire_pairs_push(s.drop_first(), p);
        assert(s.push(p).drop_first() =~= s.drop_first().push(p));
        let h = u16_bytes(s[0].element_name_index) + wire_value(s[0].value);
        assert(h + (wire_pairs(s.drop_first()) + w) =~= (h + wire_pairs(s.drop_first())) + w);
    }
}

fn const_tag(tag: u8) -> (b: bool)
    ensures
        b == is_const_tag(tag),
{
    tag == 0x42 || tag == 0x43 || tag == 0x44 || tag == 0x46 || tag == 0x49 || tag == 0x4a || tag
        == 0x53 || tag == 0x5a || tag == 0x73
}

/// Appends the encoding of an element value.
#[verifier::loop_isolation(false)]
fn write_value(v: &ElementValue, out: &mut Vec<u8>) -> (r: Result<(), Error>)
    ensures
        appended(v@, old(out)@, final(out)@, r),
    decreases v,
{
    out.push(v.tag);
    match &v.value {
        ElementValueKind::ConstValueIndex(i) => {
            if !const_tag(v.tag) {
                return Err(Error::IndexOutOfRange);
            }
            put_u16(out, *i);
        },
        ElementValueKind::EnumConstValue { type_name_index, const_name_index } => {
            if v.tag != TAG_ENUM {
                return Err(Error::IndexOutOfRange);
            }
            put_u16(out, *type_name_index);
            put_u16(out, *const_name_index);
        },
        ElementValueKind::ClassInfoIndex(i) => {
            if v.tag != TAG_CLASS {
                return Err(Error::IndexOutOfRange);
            }
            put_u16(out, *i);
        },
        ElementValueKind::AnnotationValue(a) => {
            if v.tag != TAG_ANNOTATION {
                return Err(Error::IndexOutOfRange);
            }
            write_annotation(a, out)?;
        },
        ElementValueKind::ArrayValue { num_values, values } => {
            if v.tag != TAG_ARRAY || values.len() > 0xffff {
                return Err(Error::IndexOutOfRange);
            }
            put_u16(out, values.len() as u16);
            let ghost base = out@;
            let ghost ms = value_models(values@);
            let mut i: usize = 0;
            proof {
                assert(ms.take(0) =~= Seq::<ElementValueModel>::empty());
                assert(base + wire_values(ms.take(0)) =~= base);
            }
            while i < values.len()
                invariant
                    i <= values.len(),
                    forall|j: int| 0 <= j < i ==> value_ok(#[trigger] ms[j], false),
                    out@ == base + wire_values(ms.take(i as int)),
                decreases values.len() - i,
            {
                let ghost before = out@;
                assert(ms[i as int] == values@[i as int]@);
                write_value(&values[i], out)?;
                proof {
                    lemma_wire_values_push(ms.take(i as int), ms[i as int]);
                    assert(ms.take(i + 1) =~= ms.take(i as int).push(ms[i as int]));
                    assert(base + (wire_values(ms.take(i as int)) + wire_value(ms[i as int]))
                        =~= before + wire_value(ms[i as int]));
                }
                i += 1;
            }
            proof {
                assert(ms.take(i as int) =~= ms);
            }
        },
    }
    proof {
        assert(out@ =~= old(out)@ + wire_value(v@));
    }
    Ok(())
}

/// Appends the encoding of an annotation.
#[verifier::loop_isolation(false)]
fn write_annotation(a: &Annotation, out: &mut Vec<u8>) -> (r: Result<(), Error>)
    ensures
        appended(a@, old(out)@, final(out)@, r),
    decreases a,
{
    if a.element_value_pairs.len() > 0xffff {
        return Err(Error::IndexOutOfRange);
    }
    put_u16(out, a.type_index);
    put_u16(out, a.element_value_pairs.len() as u16);
    let ghost base = out@;
    let ghost ms = pair_models(a.element_value_pairs@);
    let mut i: usize = 0;
    proof {
        assert(ms.take(0) =~= Seq::<ElementValuePairModel>::empty());
        assert(base + wire_pairs(ms.take(0)) =~= base);
    }
    while i < a.element_value_pairs.len()
        invariant
            i <= a.element_value_pairs.len(),
            forall|j: int| 0 <= j < i ==> value_ok((#[trigger] ms[j]).value, false),
            out@ == base + wire_pairs(ms.take(i as int)),
        decreases a.element_value_pairs.len() - i,
    {
        let ghost before = out@;
        let pair = &a.element_value_pairs[i];
        assert(ms[i as int] == pair@);
        put_u16(out, pair.element_name_index);
        write_value(&pair.value, out)?;
        proof {
            lemma_wire_pairs_push(ms.take(i as int), ms[i as int]);
            assert(ms.take(i + 1) =~= ms.take(i as int).push(ms[i as int]));
            assert(base + (wire_pairs(ms.take(i as int)) + (u16_bytes(pair.element_name_index)
                + wire_value(ms[i as int].value))) =~= (before + u16_bytes(pair.element_name_index))
                + wire_value(ms[i as int].value));
        }
        i += 1;
    }
    proof {
        assert(ms.take(i as int) =~= ms);
        assert(out@ =~= old(out)@ + wire_annotation(a@));
    }
    Ok(())
}

impl ToJvmBytecode for ElementValue {
    fn to_jvm_bytecode(&self) -> (r: Result<Vec<u8>, Error>) {
        let mut out: Vec<u8> = Vec::new();
        write_value(self, &mut out)?;
        proof {
            assert(out@ =~= self@.wire());
        }
        Ok(out)
    }
}

impl ToJvmBytecode for ElementValuePair {
    fn to_jvm_bytecode(&self) -> (r: Result<Vec<u8>, Error>) {
        let mut out: Vec<u8> = Vec::new();
        put_u16(&mut out, self.element_name_index);
        write_value(&self.value, &mut out)?;
        proof {
            assert(out@ =~= self@.wire());
        }
        Ok(out)
    }
}

impl ToJvmBytecode for ElementValueKind {
    fn to_jvm_bytecode(&self) -> (r: Result<Vec<u8>, Error>) {
        let mut out: Vec<u8> = Vec::new();
        match self {
            ElementValueKind::ConstValueIndex(i) => put_u16(&mut out, *i),
            ElementValueKind::EnumConstValue { type_name_index, const_name_index } => {
                put_u16(&mut out, *type_name_index);
                put_u16(&mut out, *const_name_index);
            },
            ElementValueKind::ClassInfoIndex(i) => put_u16(&mut out, *i),
            ElementValueKind::AnnotationValue(a) => {
                write_annotation(a, &mut out)?;
            },
            ElementValueKind::ArrayValue { num_values, values } => {
                if values.len() > 0xffff {
                    return Err(Error::IndexOutOfRange);
                }
                proof {
                    assert(value_models(values@) =~= models(values@));
                }
                put_u16(&mut out, values.len() as u16);
                encode_all(values, &mut out)?;
            },
        }
        proof {
            assert(out@ =~= self@.wire());
        }
        Ok(out)
    }
}

impl ToJvmBytecode for Annotation {
    fn to_jvm_bytecode(&self) -> (r: Result<Vec<u8>, Error>) {
        let mut out: Vec<u8> = Vec::new();
        write_annotation(self, &mut out)?;
        proof {
            assert(out@ =~= self@.wire());
        }
        Ok(out)
    }
}

impl ToJvmBytecode for ParameterAnnotation {
    fn to_jvm_bytecode(&self) -> (r: Result<Vec<u8>, Error>) {
        if self.annotations.len() > 0xffff {
            return Err(Error::IndexOutOfRange);
        }
        let mut out: Vec<u8> = Vec::new();
        put_u16(&mut out, self.annotations.len() as u16);
        encode_all(&self.annotations, &mut out)?;
        proof {
            assert(out@ =~= self@.wire());
        }
        Ok(out)
    }
}

/// Reads an element value.
#[verifier::loop_isolation(false)]
fn read_value(reader: &mut Reader) -> (r: Result<ElementValue, Error>)
    ensures
        decoded(
            *old(reader),
            *final(reader),
            r,
            parse_value(old(reader).data@, old(reader).cursor as int),
        ),
    decreases old(reader).data@.len() - old(reader).cursor,
{
    let tag = reader.read_int1()?;
    if const_tag(tag) || tag == TAG_CLASS {
        let index = reader.read_int2()?;
        if tag == TAG_CLASS {
            Ok(ElementValue { tag, value: ElementValueKind::ClassInfoIndex(index) })
        } else {
            Ok(ElementValue { tag, value: ElementValueKind::ConstValueIndex(index) })
        }
    } else if tag == TAG_ENUM {
        let type_name_index = reader.read_int2()?;
        let const_name_index = reader.read_int2()?;
        Ok(
            ElementValue {
                tag,
                value: ElementValueKind::EnumConstValue { type_name_index, const_name_index },
            },
        )
    } else if tag == TAG_ANNOTATION {
        let a = read_annotation(reader)?;
        Ok(ElementValue { tag, value: ElementValueKind::AnnotationValue(a) })
    } else if tag == TAG_ARRAY {
        let n = reader.read_int2()?;
        let ghost data = reader.data@;
        let ghost start = reader.cursor as int;
        let mut values: Vec<ElementValue> = Vec::new();
        let mut i: u16 = 0;
        proof {
            assert(value_models(values@) =~= Seq::<ElementValueModel>::empty());
            if let Ok((s, p)) = parse_values(data, start, n as int) {
                assert(Seq::<ElementValueModel>::empty() + s =~= s);
            }
        }
        while i < n
            invariant
                i <= n,
                reader.data == old(reader).data,
                start <= reader.cursor <= data.len(),
                parse_values(data, start, n as int) == prepend(
                    value_models(values@),
                    parse_values(data, reader.cursor as int, n - i),
                ),
            decreases n - i,
        {
            let before = reader.cursor;
            let v = read_value(reader)?;
            if reader.cursor <= before || reader.cursor > reader.data.len() {
                return Err(Error::TruncatedInput);
            }
            proof {
                lemma_prepend_push(
                    value_models(values@),
                    v@,
                    parse_values(data, reader.cursor as int, n - i - 1),
                );
                assert(value_models(values@.push(v)) =~= value_models(values@).push(v@));
            }
            values.push(v);
            i += 1;
        }
        proof {
            lemma_prepend_empty(value_models(values@), reader.cursor as int);
        }
        Ok(ElementValue { tag, value: ElementValueKind::ArrayValue { num_values: n, values } })
    } else {
        Err(Error::UnknownTag(tag))
    }
}

/// Reads an annotation.
#[verifier::loop_isolation(false)]
fn read_annotation(reader: &mut Reader) -> (r: Result<Annotation, Error>)
    ensures
        decoded(
            *old(reader),
            *final(reader),
            r,
            parse_annotation(old(reader).data@, old(reader).cursor as int),
        ),
    decreases old(reader).data@.len() - old(reader).cursor,
{
    let type_index = reader.read_int2()?;
    let n = reader.read_int2()?;
    let ghost data = reader.data@;
    let ghost start = reader.cursor as int;
    let mut pairs: Vec<ElementValuePair> = Vec::new();
    let mut i: u16 = 0;
    proof {
        assert(pair_models(pairs@) =~= Seq::<ElementValuePairModel>::empty());
        if let Ok((s, p)) = parse_pairs(data, start, n as int) {
            assert(Seq::<ElementValuePairModel>::empty() + s =~= s);
        }
    }
    while i < n
        invariant
            i <= n,
            reader.data == old(reader).data,
            start <= reader.cursor <= data.len(),
            parse_pairs(data, start, n as int) == prepend(
                pair_models(pairs@),
                parse_pairs(data, reader.cursor as int, n - i),
            ),
        decreases n - i,
    {
        let before = reader.cursor;
        let element_name_index = reader.read_int2()?;
        let value = read_value(reader)?;
        if reader.cursor <= before || reader.cursor > reader.data.len() {
            return Err(Error::TruncatedInput);
        }
        let pair = ElementValuePair { element_name_index, value };
        proof {
            lemma_prepend_push(
                pair_models(pairs@),
                pair@,
                parse_pairs(data, reader.cursor as int, n - i - 1),
            );
            assert(pair_models(pairs@.push(pair)) =~= pair_models(pairs@).push(pair@));
        }
        pairs.push(pair);
        i += 1;
    }
    proof {
        lemma_prepend_empty(pair_models(pairs@), reader.cursor as int);
    }
    Ok(Annotation { type_index, num_element_value_pairs: n, element_value_pairs: pairs })
}

impl Decode for ElementValue {
    fn decode(reader: &mut Reader) -> (r: Result<ElementValue, Error>) {
        read_value(reader)
    }
}

impl Decode for Annotation {
    fn decode(reader: &mut Reader) -> (r: Result<Annotation, Error>) {
        read_annotation(reader)
    }
}

impl Decode for ParameterAnnotation {
    fn decode(reader: &mut Reader) -> (r: Result<ParameterAnnotation, Error>) {
        let n = reader.read_int2()?;
        let annotations = decode_n::<Annotation>(reader, n as u64)?;
        Ok(ParameterAnnotation { num_annotations: n, annotations })
    }
}


/// A copy of an element value with the same model.
#[verifier::loop_isolation(false)]
fn copy_value(v: &ElementValue) -> (copy: ElementValue)
    ensures
        copy@ == v@,
    decreases v,
{
    let value = match &v.value {
        ElementValueKind::ConstValueIndex(i) => ElementValueKind::ConstValueIndex(*i),
        ElementValueKind::EnumConstValue {
            type_name_index,
            const_name_index,
        } => ElementValueKind::EnumConstValue {
            type_name_index: *type_name_index,
            const_name_index: *const_name_index,
        },
        ElementValueKind::ClassInfoIndex(i) => ElementValueKind::ClassInfoIndex(*i),
        ElementValueKind::AnnotationValue(a) => {
            ElementValueKind::AnnotationValue(copy_annotation(a))
        },
        ElementValueKind::ArrayValue { num_values, values } => {
            let mut copies: Vec<ElementValue> = Vec::new();
            let mut i: usize = 0;
            while i < values.len()
                invariant
                    i <= values.len(),
                    copies@.len() == i,
                    forall|j: int| 0 <= j < i ==> (#[trigger] copies@[j])@ == values@[j]@,
                decreases values.len() - i,
            {
                copies.push(copy_value(&values[i]));
                i += 1;
            }
            proof {
                assert(value_models(copies@) =~= value_models(values@));
            }
            ElementValueKind::ArrayValue { num_values: *num_values, values: copies }
        },
    };
    ElementValue { tag: v.tag, value }
}

/// A copy of an annotation with the same model.
#[verifier::loop_isolation(false)]
fn copy_annotation(a: &Annotation) -> (copy: Annotation)
    ensures
        copy@ == a@,
    decreases a,
{
    let mut pairs: Vec<ElementValuePair> = Vec::new();
    let mut i: usize = 0;
    while i < a.element_value_pairs.len()
        invariant
            i <= a.element_value_pairs.len(),
            pairs@.len() == i,
            forall|j: int| 0 <= j < i ==> (#[trigger] pairs@[j])@ == a.element_value_pairs@[j]@,
        decreases a.element_value_pairs.len() - i,
    {
        let pair = &a.element_value_pairs[i];
        pairs.push(
            ElementValuePair {
                element_name_index: pair.element_name_index,
                value: copy_value(&pair.value),
            },
        );
        i += 1;
    }
    proof {
        assert(pair_models(pairs@) =~= pair_models(a.element_value_pairs@));
    }
    Annotation {
        type_index: a.type_index,
        num_element_value_pairs: a.num_element_value_pairs,
        element_value_pairs: pairs,
    }
}

impl Clone for ElementValue {
    /// An element value with the same model.
    fn clone(&self) -> (copy: ElementValue)
        ensures
            copy@ == self@,
    {
        copy_value(self)
    }
}

impl Clone for ElementValueKind {
    /// A value with the same model.
    fn clone(&self) -> (copy: ElementValueKind)
        ensures
            copy@ == self@,
    {
        match self {
            ElementValueKind::ConstValueIndex(i) => ElementValueKind::ConstValueIndex(*i),
            ElementValueKind::EnumConstValue {
                type_name_index,
                const_name_index,
            } => ElementValueKind::EnumConstValue {
                type_name_index: *type_name_index,
                const_name_index: *const_name_index,
            },
            ElementValueKind::ClassInfoIndex(i) => ElementValueKind::ClassInfoIndex(*i),
            ElementValueKind::AnnotationValue(a) => ElementValueKind::AnnotationValue(
                copy_annotation(a),
            ),
            ElementValueKind::ArrayValue { num_values, values } => {
                let copies = clone_all(values);
                proof {
                    assert(value_models(copies@) =~= models(copies@));
                    assert(value_models(values@) =~= models(values@));
                }
                ElementValueKind::ArrayValue { num_values: *num_values, values: copies }
            },
        }
    }
}

impl Clone for ElementValuePair {
    /// A pair with the same model.
    fn clone(&self) -> (copy: ElementValuePair)
        ensures
            copy@ == self@,
    {
        ElementValuePair {
            element_name_index: self.element_name_index,
            value: copy_value(&self.value),
        }
    }
}

impl Clone for Annotation {
    /// An annotation with the same model.
    fn clone(&self) -> (copy: Annotation)
        ensures
            copy@ == self@,
    {
        copy_annotation(self)
    }
}

impl Clone for ParameterAnnotation {
    /// Annotations with the same model.
    fn clone(&self) -> (copy: ParameterAnnotation)
        ensures
            copy@ == self@,
    {
        ParameterAnnotation {
            num_annotations: self.num_annotations,
            annotations: clone_all(&self.annotations),
        }
    }
}

} // verus!
