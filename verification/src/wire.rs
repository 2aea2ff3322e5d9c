//! The wire format in the abstract: what it means for a model to have an
//! encoding and a decoder, tables of such models, and the law that ties the
//! two directions together.

use vstd::prelude::*;
use crate::error::{Error, ErrorModel};
use crate::bytecode::ToJvmBytecode;
use crate::reader::{
    carries, has_bytes, lemma_carries_split, lemma_u16_at_bytes, lemma_u32_at_bytes, u16_at,
    u16_bytes, u32_at, u32_bytes, Reader,
};

verus! {

/// What a successful decoding step gives: the value and the position behind it.
pub type Parsed<M> = Result<(M, int), ErrorModel>;

/// A model with an encoding.
pub trait Wire: Sized {
    /// Whether every number and every table of the value fits the field that
    /// carries it on the wire.
    spec fn encodable(self) -> bool;

    /// The bytes that the value encodes to.
    spec fn wire(self) -> Seq<u8>;
}

/// A model with a decoder that needs nothing but the bytes.
pub trait Parse: Wire {
    /// The value that stands in `data` at `pos`, with the position behind it.
    spec fn parse(data: Seq<u8>, pos: int) -> Parsed<Self>;

    /// Whether the stored counts and tags of the value are those that its
    /// contents determine, so that decoding its encoding gives it back.
    spec fn valid(self) -> bool;

    /// Decoding where the encoding of a valid value stands gives the value
    /// back; where the buffer ends before the encoding does, decoding fails
    /// for want of input.
    proof fn lemma_parse(self, data: Seq<u8>, pos: int)
        requires
            self.encodable(),
            self.valid(),
            0 <= pos <= data.len(),
            carries(data, pos, self.wire()),
        ensures
            Self::parse(data, pos) == expected(self, data, pos, self.wire()),
    ;
}

/// What decoding is to give where `data` carries the encoding `w` of `m` at
/// `pos`: `m` if all of `w` is there, a truncation error if not.
pub open spec fn expected<M>(m: M, data: Seq<u8>, pos: int, w: Seq<u8>) -> Parsed<M> {
    if pos + w.len() <= data.len() {
        Ok((m, pos + w.len()))
    } else {
        Err(ErrorModel::TruncatedInput)
    }
}

/// The models of the items of `s`.
pub open spec fn models<T: View>(s: Seq<T>) -> Seq<T::V> {
    Seq::new(s.len(), |i: int| s[i]@)
}

/// Whether every item of `s` is encodable.
pub open spec fn all_encodable<M: Wire>(s: Seq<M>) -> bool {
    forall|i: int| 0 <= i < s.len() ==> (#[trigger] s[i]).encodable()
}

/// Whether every item of `s` is valid.
pub open spec fn all_valid<M: Parse>(s: Seq<M>) -> bool {
    forall|i: int| 0 <= i < s.len() ==> (#[trigger] s[i]).valid()
}

/// The encodings of the items of `s`, one behind the other.
pub open spec fn wire_all<M: Wire>(s: Seq<M>) -> Seq<u8>
    decreases s.len(),
{
    if s.len() == 0 {
        Seq::empty()
    } else {
        s[0].wire() + wire_all(s.drop_first())
    }
}

/// The `n` values that stand in `data` from `pos` on, one behind the other.
pub open spec fn parse_n<M: Parse>(data: Seq<u8>, pos: int, n: int) -> Parsed<Seq<M>>
    decreases n,
{
    if n <= 0 {
        Ok((Seq::empty(), pos))
    } else {
        match M::parse(data, pos) {
            Ok((m, p)) => prepend(seq![m], parse_n::<M>(data, p, n - 1)),
            Err(e) => Err(e),
        }
    }
}

/// The result `r` of decoding a tail, with the items `acc` decoded before it.
pub open spec fn prepend<M>(acc: Seq<M>, r: Parsed<Seq<M>>) -> Parsed<Seq<M>> {
    match r {
        Ok((s, p)) => Ok((acc + s, p)),
        Err(e) => Err(e),
    }
}

/// Items decoded before a tail may be counted one by one.
pub proof fn lemma_prepend_push<M>(acc: Seq<M>, m: M, r: Parsed<Seq<M>>)
    ensures
        prepend(acc, prepend(seq![m], r)) == prepend(acc.push(m), r),
{
    if let Ok((s, p)) = r {
        assert(acc + (seq![m] + s) =~= acc.push(m) + s);
    }
}

/// Before an empty tail stand the items decoded before it.
pub proof fn lemma_prepend_empty<M>(acc: Seq<M>, pos: int)
    ensures
        prepend(acc, Ok((Seq::<M>::empty(), pos))) == Ok::<(Seq<M>, int), ErrorModel>((acc, pos)),
{
    assert(acc + Seq::<M>::empty() =~= acc);
}

/// Encoding a table with one more item appends that item's encoding.
pub proof fn lemma_wire_all_push<M: Wire>(s: Seq<M>, m: M)
    ensures
        wire_all(s.push(m)) == wire_all(s) + m.wire(),
    decreases s.len(),
{
    if s.len() == 0 {
        assert(s.push(m).drop_first() =~= Seq::<M>::empty());
        assert(wire_all(s.push(m).drop_first()) =~= Seq::<u8>::empty());
        assert(wire_all(s.push(m)) =~= m.wire());
        assert(wire_all(s) + m.wire() =~= m.wire());
    } else {
        lemma_wire_all_push(s.drop_first(), m);
        assert(s.push(m).drop_first() =~= s.drop_first().push(m));
        assert(s[0].wire() + (wire_all(s.drop_first()) + m.wire()) =~= (s[0].wire() + wire_all(
            s.drop_first(),
        )) + m.wire());
    }
}

/// Decoding where the encoding of a table of valid items stands gives the
/// table back; where the buffer ends before the encoding does, decoding
/// fails for want of input.
pub proof fn lemma_parse_n<M: Parse>(s: Seq<M>, data: Seq<u8>, pos: int)
    requires
        all_encodable(s),
        all_valid(s),
        0 <= pos <= data.len(),
        carries(data, pos, wire_all(s)),
    ensures
        parse_n::<M>(data, pos, s.len() as int) == expected(s, data, pos, wire_all(s)),
    decreases s.len(),
{
    if s.len() == 0 {
        assert(s =~= Seq::<M>::empty());
    } else {
        let head = s[0];
        let tail = s.drop_first();
        assert forall|i: int| 0 <= i < tail.len() implies (#[trigger] tail[i]).encodable()
            && tail[i].valid() by {
            assert(tail[i] == s[i + 1]);
        }
        lemma_carries_split(data, pos, head.wire(), wire_all(tail));
        head.lemma_parse(data, pos);
        let mid = pos + head.wire().len();
        if mid <= data.len() {
            lemma_parse_n::<M>(tail, data, mid);
            assert(seq![head] + tail =~= s);
        }
    }
}

impl Wire for u16 {
    open spec fn encodable(self) -> bool {
        true
    }

    open spec fn wire(self) -> Seq<u8> {
        u16_bytes(self)
    }
}

impl Parse for u16 {
    open spec fn parse(data: Seq<u8>, pos: int) -> Parsed<u16> {
        if has_bytes(data, pos, 2) {
            Ok((u16_at(data, pos), pos + 2))
        } else {
            Err(ErrorModel::TruncatedInput)
        }
    }

    open spec fn valid(self) -> bool {
        true
    }

    proof fn lemma_parse(self, data: Seq<u8>, pos: int) {
        if has_bytes(data, pos, 2) {
            lemma_u16_at_bytes(data, pos, self);
        }
    }
}

impl Wire for u32 {
    open spec fn encodable(self) -> bool {
        true
    }

    open spec fn wire(self) -> Seq<u8> {
        u32_bytes(self)
    }
}

impl Parse for u32 {
    open spec fn parse(data: Seq<u8>, pos: int) -> Parsed<u32> {
        if has_bytes(data, pos, 4) {
            Ok((u32_at(data, pos), pos + 4))
        } else {
            Err(ErrorModel::TruncatedInput)
        }
    }

    open spec fn valid(self) -> bool {
        true
    }

    proof fn lemma_parse(self, data: Seq<u8>, pos: int) {
        if has_bytes(data, pos, 4) {
            lemma_u32_at_bytes(data, pos, self);
        }
    }
}

/// A pair of words, as in the table of a `lookupswitch`.
impl Wire for (u32, u32) {
    open spec fn encodable(self) -> bool {
        true
    }

    open spec fn wire(self) -> Seq<u8> {
        u32_bytes(self.0) + u32_bytes(self.1)
    }
}

impl Parse for (u32, u32) {
    open spec fn parse(data: Seq<u8>, pos: int) -> Parsed<(u32, u32)> {
        if has_bytes(data, pos, 8) {
            Ok(((u32_at(data, pos), u32_at(data, pos + 4)), pos + 8))
        } else {
            Err(ErrorModel::TruncatedInput)
        }
    }

    open spec fn valid(self) -> bool {
        true
    }

    proof fn lemma_parse(self, data: Seq<u8>, pos: int) {
        if has_bytes(data, pos, 8) {
            lemma_carries_split(data, pos, u32_bytes(self.0), u32_bytes(self.1));
            lemma_u32_at_bytes(data, pos, self.0);
            lemma_u32_at_bytes(data, pos + 4, self.1);
        }
    }
}

/// A table behind its length: the number of items in two bytes, then the
/// items.
pub open spec fn wire_counted<M: Wire>(s: Seq<M>) -> Seq<u8> {
    u16_bytes(s.len() as u16) + wire_all(s)
}

/// The table that stands in `data` at `pos` behind its length, with the
/// length as it is stored.
pub open spec fn parse_counted<M: Parse>(data: Seq<u8>, pos: int) -> Parsed<(u16, Seq<M>)> {
    if !has_bytes(data, pos, 2) {
        Err(ErrorModel::TruncatedInput)
    } else {
        match parse_n::<M>(data, pos + 2, u16_at(data, pos) as int) {
            Ok((s, p)) => Ok(((u16_at(data, pos), s), p)),
            Err(e) => Err(e),
        }
    }
}

/// Decoding where the encoding of a table of valid items stands behind its
/// length gives length and table back; where the buffer ends before the
/// encoding does, decoding fails for want of input.
pub proof fn lemma_parse_counted<M: Parse>(s: Seq<M>, data: Seq<u8>, pos: int)
    requires
        s.len() <= 0xffff,
        all_encodable(s),
        all_valid(s),
        0 <= pos <= data.len(),
        carries(data, pos, wire_counted(s)),
    ensures
        parse_counted::<M>(data, pos) == expected((s.len() as u16, s), data, pos, wire_counted(s)),
{
    lemma_carries_split(data, pos, u16_bytes(s.len() as u16), wire_all(s));
    if has_bytes(data, pos, 2) {
        lemma_u16_at_bytes(data, pos, s.len() as u16);
        lemma_parse_n::<M>(s, data, pos + 2);
    }
}

/// How an executable decoder relates to the decoder of the model: the buffer
/// is left as it was and the cursor has not moved back; on success the value
/// has the model that `expect` names and the cursor stands behind it; on
/// failure the error is the one that `expect` names.
pub open spec fn decoded<T: View>(
    before: Reader,
    after: Reader,
    r: Result<T, Error>,
    expect: Parsed<T::V>,
) -> bool {
    &&& after.data == before.data
    &&& before.cursor <= after.cursor
    &&& match expect {
        Ok((m, p)) => r matches Ok(v) && v@ == m && after.cursor == p,
        Err(e) => r matches Err(x) && x@ == e,
    }
}

/// Appends the two bytes of `x`.
pub fn put_u16(out: &mut Vec<u8>, x: u16)
    ensures
        final(out)@ == old(out)@ + u16_bytes(x),
{
    out.push((x / 0x100) as u8);
    out.push((x % 0x100) as u8);
}

/// Appends the four bytes of `x`.
pub fn put_u32(out: &mut Vec<u8>, x: u32)
    ensures
        final(out)@ == old(out)@ + u32_bytes(x),
{
    put_u16(out, (x / 0x1_0000) as u16);
    put_u16(out, (x % 0x1_0000) as u16);
}


/// How an executable decoder of a table relates to the decoder of the
/// model: as `decoded`, with the models of the items.
pub open spec fn decoded_table<T: View>(
    before: Reader,
    after: Reader,
    r: Result<Vec<T>, Error>,
    expect: Parsed<Seq<T::V>>,
) -> bool {
    &&& after.data == before.data
    &&& before.cursor <= after.cursor
    &&& match expect {
        Ok((s, p)) => r matches Ok(v) && models(v@) == s && after.cursor == p,
        Err(e) => r matches Err(x) && x@ == e,
    }
}

/// A type that is read from a buffer without any context.
pub trait Decode: View + Sized where Self::V: Parse {
    /// Reads one value at the cursor.
    fn decode(reader: &mut Reader) -> (r: Result<Self, Error>)
        ensures
            decoded(
                *old(reader),
                *final(reader),
                r,
                <Self::V as Parse>::parse(old(reader).data@, old(reader).cursor as int),
            ),
    ;
}

/// Reads `n` values, one behind the other.
pub fn decode_n<T: Decode>(reader: &mut Reader, n: u64) -> (r: Result<Vec<T>, Error>) where
    T::V: Parse,

    ensures
        decoded_table(
            *old(reader),
            *final(reader),
            r,
            parse_n::<T::V>(old(reader).data@, old(reader).cursor as int, n as int),
        ),
{
    let mut items: Vec<T> = Vec::new();
    let mut i: u64 = 0;
    let ghost data = reader.data@;
    let ghost start = reader.cursor as int;
    proof {
        assert(models(items@) =~= Seq::<T::V>::empty());
        assert(prepend(Seq::<T::V>::empty(), parse_n::<T::V>(data, start, n as int))
            == parse_n::<T::V>(data, start, n as int)) by {
            if let Ok((s, p)) = parse_n::<T::V>(data, start, n as int) {
                assert(Seq::<T::V>::empty() + s =~= s);
            }
        }
    }
    while i < n
        invariant
            i <= n,
            reader.data == old(reader).data,
            data == reader.data@,
            start == old(reader).cursor,
            start <= reader.cursor,
            parse_n::<T::V>(data, start, n as int) == prepend(
                models(items@),
                parse_n::<T::V>(data, reader.cursor as int, n - i),
            ),
        decreases n - i,
    {
        let ghost cur = reader.cursor as int;
        proof {
            assert(parse_n::<T::V>(data, cur, n - i) == match <T::V as Parse>::parse(data, cur) {
                Ok((m, p)) => prepend(seq![m], parse_n::<T::V>(data, p, n - i - 1)),
                Err(e) => Err(e),
            });
        }
        let item = match T::decode(reader) {
            Ok(item) => item,
            Err(e) => {
                return Err(e);
            },
        };
        proof {
            lemma_prepend_push(
                models(items@),
                item@,
                parse_n::<T::V>(data, reader.cursor as int, n - i - 1),
            );
            assert(models(items@.push(item)) =~= models(items@).push(item@));
        }
        items.push(item);
        i += 1;
    }
    proof {
        lemma_prepend_empty(models(items@), reader.cursor as int);
    }
    Ok(items)
}

/// Appends the encodings of the items, one behind the other. On failure
/// `out` holds what was written until then.
pub fn encode_all<T: ToJvmBytecode>(items: &Vec<T>, out: &mut Vec<u8>) -> (r: Result<
    (),
    Error,
>) where T::V: Wire
    ensures
        match r {
            Ok(()) => all_encodable(models(items@)) && final(out)@ == old(out)@ + wire_all(
                models(items@),
            ),
            Err(e) => !all_encodable(models(items@)) && e == Error::IndexOutOfRange,
        },
{
    let mut i: usize = 0;
    proof {
        assert(models(items@).take(0) =~= Seq::<T::V>::empty());
        assert(old(out)@ + wire_all(models(items@).take(0)) =~= old(out)@);
    }
    while i < items.len()
        invariant
            i <= items.len(),
            all_encodable(models(items@).take(i as int)),
            out@ == old(out)@ + wire_all(models(items@).take(i as int)),
        decreases items.len() - i,
    {
        let ghost before = out@;
        let ghost m = models(items@);
        match items[i].to_jvm_bytecode() {
            Ok(mut bytes) => {
                out.append(&mut bytes);
            },
            Err(e) => {
                proof {
                    assert(m[i as int] == items@[i as int]@);
                }
                return Err(e);
            },
        }
        proof {
            assert(m[i as int] == items@[i as int]@);
            lemma_wire_all_push(m.take(i as int), m[i as int]);
            assert(m.take(i + 1) =~= m.take(i as int).push(m[i as int]));
            assert(old(out)@ + (wire_all(m.take(i as int)) + m[i as int].wire()) =~= before
                + m[i as int].wire());
            assert forall|j: int| 0 <= j < i + 1 implies (#[trigger] m.take(i + 1)[j]).encodable() by {
                if j < i {
                    assert(m.take(i as int)[j] == m.take(i + 1)[j]);
                }
            }
        }
        i += 1;
    }
    proof {
        assert(models(items@).take(i as int) =~= models(items@));
    }
    Ok(())
}

impl ToJvmBytecode for u16 {
    fn to_jvm_bytecode(&self) -> (r: Result<Vec<u8>, Error>) {
        let mut out: Vec<u8> = Vec::new();
        put_u16(&mut out, *self);
        Ok(out)
    }
}

impl ToJvmBytecode for u32 {
    fn to_jvm_bytecode(&self) -> (r: Result<Vec<u8>, Error>) {
        let mut out: Vec<u8> = Vec::new();
        put_u32(&mut out, *self);
        Ok(out)
    }
}

impl ToJvmBytecode for (u32, u32) {
    fn to_jvm_bytecode(&self) -> (r: Result<Vec<u8>, Error>) {
        let mut out: Vec<u8> = Vec::new();
        put_u32(&mut out, self.0);
        put_u32(&mut out, self.1);
        Ok(out)
    }
}

impl Decode for u16 {
    fn decode(reader: &mut Reader) -> (r: Result<u16, Error>) {
        reader.read_int2()
    }
}

impl Decode for u32 {
    fn decode(reader: &mut Reader) -> (r: Result<u32, Error>) {
        reader.read_int4()
    }
}

impl Decode for (u32, u32) {
    fn decode(reader: &mut Reader) -> (r: Result<(u32, u32), Error>) {
        let a = reader.read_int4()?;
        let b = reader.read_int4()?;
        Ok((a, b))
    }
}


/// Appends the number of items in two bytes and the encodings of the items.
/// On failure `out` holds what was written until then.
pub fn encode_counted<T: ToJvmBytecode>(items: &Vec<T>, out: &mut Vec<u8>) -> (r: Result<
    (),
    Error,
>) where T::V: Wire
    ensures
        match r {
            Ok(()) => items@.len() <= 0xffff && all_encodable(models(items@)) && final(out)@
                == old(out)@ + wire_counted(models(items@)),
            Err(e) => !(items@.len() <= 0xffff && all_encodable(models(items@))) && e
                == Error::IndexOutOfRange,
        },
{
    if items.len() > 0xffff {
        return Err(Error::IndexOutOfRange);
    }
    put_u16(out, items.len() as u16);
    encode_all(items, out)?;
    proof {
        assert(out@ =~= old(out)@ + wire_counted(models(items@)));
    }
    Ok(())
}

/// How an executable decoder of a table behind its length relates to the
/// decoder of the model.
pub open spec fn decoded_counted<T: View>(
    before: Reader,
    after: Reader,
    r: Result<(u16, Vec<T>), Error>,
    expect: Parsed<(u16, Seq<T::V>)>,
) -> bool {
    &&& after.data == before.data
    &&& before.cursor <= after.cursor
    &&& match expect {
        Ok(((n, s), p)) => r matches Ok((count, v)) && count == n && models(v@) == s && after.cursor
            == p,
        Err(e) => r matches Err(x) && x@ == e,
    }
}

/// Reads a length of two bytes and as many values.
pub fn decode_counted<T: Decode>(reader: &mut Reader) -> (r: Result<(u16, Vec<T>), Error>) where
    T::V: Parse,

    ensures
        decoded_counted(
            *old(reader),
            *final(reader),
            r,
            parse_counted::<T::V>(old(reader).data@, old(reader).cursor as int),
        ),
{
    let count = reader.read_int2()?;
    let items = decode_n::<T>(reader, count as u64)?;
    Ok((count, items))
}


/// A copy of a table whose items are copied with their models kept.
pub fn clone_all<T: Clone + View>(items: &Vec<T>) -> (copy: Vec<T>)
    requires
        forall|a: T, b: T| cloned::<T>(a, b) ==> a@ == b@,
    ensures
        models(copy@) == models(items@),
{
    let copy = items.clone();
    proof {
        assert forall|i: int| 0 <= i < items@.len() implies (#[trigger] copy@[i])@ == items@[i]@ by {
            assert(cloned::<T>(items[i], copy[i]));
        }
        assert(models(copy@) =~= models(items@));
    }
    copy
}

} // verus!
