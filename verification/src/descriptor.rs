//! Type descriptors: the compact text that says what type a field has and
//! what a method takes and gives.
//!
//! The grammar: one letter for each primitive type and for `void`; `L`, a
//! class name and `;` for a class; `[` before a type for an array of it;
//! the parameter types in round brackets before the return type for a
//! method.

use vstd::prelude::*;
use vstd::string::{StrSliceExecFns, StringExecFns};
use crate::error::{Error, ErrorModel};

verus! {

/// A type descriptor.
#[derive(Debug, PartialEq)]
pub enum Descriptor {
    Byte,
    Char,
    Double,
    Float,
    Int,
    Long,
    Short,
    Boolean,
    Array(Box<Descriptor>),
    Object(String),
    Function(Vec<Descriptor>, Box<Descriptor>),
    Void,
}

/// The model of a descriptor: text as a sequence of characters, the
/// parameters as a sequence.
pub enum DescriptorModel {
    Byte,
    Char,
    Double,
    Float,
    Int,
    Long,
    Short,
    Boolean,
    Array(Box<DescriptorModel>),
    Object(Seq<char>),
    Function(Seq<DescriptorModel>, Box<DescriptorModel>),
    Void,
}

/// The model of a descriptor.
pub open spec fn descriptor_model(d: Descriptor) -> DescriptorModel
    decreases d,
{
    match d {
        Descriptor::Byte => DescriptorModel::Byte,
        Descriptor::Char => DescriptorModel::Char,
        Descriptor::Double => DescriptorModel::Double,
        Descriptor::Float => DescriptorModel::Float,
        Descriptor::Int => DescriptorModel::Int,
        Descriptor::Long => DescriptorModel::Long,
        Descriptor::Short => DescriptorModel::Short,
        Descriptor::Boolean => DescriptorModel::Boolean,
        Descriptor::Array(inner) => DescriptorModel::Array(Box::new(descriptor_model(*inner))),
        Descriptor::Object(name) => DescriptorModel::Object(name@),
        Descriptor::Function(parameters, result) => DescriptorModel::Function(
            descriptor_models(parameters@),
            Box::new(descriptor_model(*result)),
        ),
        Descriptor::Void => DescriptorModel::Void,
    }
}

/// The models of the descriptors of a table.
pub open spec fn descriptor_models(s: Seq<Descriptor>) -> Seq<DescriptorModel>
    decreases s,
{
    Seq::new(
        s.len(),
        |i: int|
            if 0 <= i < s.len() {
                descriptor_model(s[i])
            } else {
                arbitrary()
            },
    )
}

impl View for Descriptor {
    type V = DescriptorModel;

    open spec fn view(&self) -> DescriptorModel {
        descriptor_model(*self)
    }
}

/// The text of a descriptor.
pub open spec fn text_of(d: DescriptorModel) -> Seq<char>
    decreases d,
{
    match d {
        DescriptorModel::Byte => seq!['B'],
        DescriptorModel::Char => seq!['C'],
        DescriptorModel::Double => seq!['D'],
        DescriptorModel::Float => seq!['F'],
        DescriptorModel::Int => seq!['I'],
        DescriptorModel::Long => seq!['J'],
        DescriptorModel::Short => seq!['S'],
        DescriptorModel::Boolean => seq!['Z'],
        DescriptorModel::Array(inner) => seq!['['] + text_of(*inner),
        DescriptorModel::Object(name) => seq!['L'] + name + seq![';'],
        DescriptorModel::Function(parameters, result) => seq!['('] + texts_of(parameters) + seq![')']
            + text_of(*result),
        DescriptorModel::Void => seq!['V'],
    }
}

/// The texts of the descriptors, one behind the other.
pub open spec fn texts_of(s: Seq<DescriptorModel>) -> Seq<char>
    decreases s,
{
    if s.len() == 0 {
        Seq::empty()
    } else {
        text_of(s[0]) + texts_of(s.drop_first())
    }
}

/// Whether no class name in the descriptor holds a `;`, so that the text of
/// the descriptor shows where each name ends.
pub open spec fn well_formed(d: DescriptorModel) -> bool
    decreases d,
{
    match d {
        DescriptorModel::Array(inner) => well_formed(*inner),
        DescriptorModel::Object(name) => !name.contains(';'),
        DescriptorModel::Function(parameters, result) => {
            &&& forall|i: int| 0 <= i < parameters.len() ==> well_formed(#[trigger] parameters[i])
            &&& well_formed(*result)
        },
        _ => true,
    }
}

/// The position of the first `;` in `s` at or behind `from`.
pub open spec fn find_semicolon(s: Seq<char>, from: int) -> Option<int>
    decreases s.len() - from,
{
    if from < 0 || from >= s.len() {
        None
    } else if s[from] == ';' {
        Some(from)
    } else {
        find_semicolon(s, from + 1)
    }
}

/// What parsing one descriptor gives: the descriptor and the position
/// behind it.
pub type ParsedDescriptor = Result<(DescriptorModel, int), ErrorModel>;

/// The descriptor that starts at `pos` in `s`.
pub open spec fn parse_descriptor(s: Seq<char>, pos: int) -> ParsedDescriptor
    decreases s.len() - pos, 0int,
{
    if pos < 0 || pos >= s.len() {
        Err(ErrorModel::InvalidDescriptor)
    } else if s[pos] == 'B' {
        Ok((DescriptorModel::Byte, pos + 1))
    } else if s[pos] == 'C' {
        Ok((DescriptorModel::Char, pos + 1))
    } else if s[pos] == 'D' {
        Ok((DescriptorModel::Double, pos + 1))
    } else if s[pos] == 'F' {
        Ok((DescriptorModel::Float, pos + 1))
    } else if s[pos] == 'I' {
        Ok((DescriptorModel::Int, pos + 1))
    } else if s[pos] == 'J' {
        Ok((DescriptorModel::Long, pos + 1))
    } else if s[pos] == 'S' {
        Ok((DescriptorModel::Short, pos + 1))
    } else if s[pos] == 'Z' {
        Ok((DescriptorModel::Boolean, pos + 1))
    } else if s[pos] == 'V' {
        Ok((DescriptorModel::Void, pos + 1))
    } else if s[pos] == 'L' {
        match find_semicolon(s, pos + 1) {
            Some(end) => if pos < end < s.len() {
                Ok((DescriptorModel::Object(s.subrange(pos + 1, end)), end + 1))
            } else {
                Err(ErrorModel::InvalidDescriptor)
            },
            None => Err(ErrorModel::InvalidDescriptor),
        }
    } else if s[pos] == '[' {
        match parse_descriptor(s, pos + 1) {
            Ok((inner, p)) => Ok((DescriptorModel::Array(Box::new(inner)), p)),
            Err(e) => Err(e),
        }
    } else if s[pos] == '(' {
        match parse_parameters(s, pos + 1) {
            Ok((parameters, p)) => if pos < p <= s.len() {
                match parse_descriptor(s, p) {
                    Ok((result, q)) => Ok(
                        (DescriptorModel::Function(parameters, Box::new(result)), q),
                    ),
                    Err(e) => Err(e),
                }
            } else {
                Err(ErrorModel::InvalidDescriptor)
            },
            Err(e) => Err(e),
        }
    } else {
        Err(ErrorModel::InvalidDescriptor)
    }
}

/// The parameter descriptors from `pos` up to the closing bracket, and the
/// position behind the bracket.
pub open spec fn parse_parameters(s: Seq<char>, pos: int) -> Result<
    (Seq<DescriptorModel>, int),
    ErrorModel,
>
    decreases s.len() - pos, 1int,
{
    if pos < 0 || pos >= s.len() {
        Err(ErrorModel::InvalidDescriptor)
    } else if s[pos] == ')' {
        Ok((Seq::empty(), pos + 1))
    } else {
        match parse_descriptor(s, pos) {
            Ok((d, p)) => if pos < p <= s.len() {
                match parse_parameters(s, p) {
                    Ok((rest, q)) => Ok((seq![d] + rest, q)),
                    Err(e) => Err(e),
                }
            } else {
                Err(ErrorModel::InvalidDescriptor)
            },
            Err(e) => Err(e),
        }
    }
}

/// `s` holds all of `w` from `pos` on.
pub open spec fn holds_at(s: Seq<char>, pos: int, w: Seq<char>) -> bool {
    &&& 0 <= pos
    &&& pos + w.len() <= s.len()
    &&& forall|i: int| 0 <= i < w.len() ==> s[pos + i] == #[trigger] w[i]
}

/// Where `s` holds `a + b`, it holds `a`, and `b` behind it.
pub proof fn lemma_holds_split(s: Seq<char>, pos: int, a: Seq<char>, b: Seq<char>)
    requires
        holds_at(s, pos, a + b),
    ensures
        holds_at(s, pos, a),
        holds_at(s, pos + a.len(), b),
{
    assert forall|i: int| 0 <= i < a.len() implies s[pos + i] == #[trigger] a[i] by {
        assert((a + b)[i] == a[i]);
    }
    assert forall|i: int| 0 <= i < b.len() implies s[pos + a.len() + i] == #[trigger] b[i] by {
        assert((a + b)[a.len() + i] == b[i]);
    }
}

/// The text of a descriptor is not empty and starts with none of the two
/// characters that end something: `)` and `;`.
pub proof fn lemma_text_head(d: DescriptorModel)
    ensures
        text_of(d).len() >= 1,
        text_of(d)[0] != ')',
{
}

/// The first `;` behind a name without `;` is the one that ends it.
pub proof fn lemma_find_semicolon(s: Seq<char>, from: int, name: Seq<char>)
    requires
        !name.contains(';'),
        holds_at(s, from, name + seq![';']),
    ensures
        find_semicolon(s, from) == Some(from + name.len()),
    decreases name.len(),
{
    lemma_holds_split(s, from, name, seq![';']);
    if name.len() == 0 {
        assert(s[from + 0] == seq![';'][0]);
    } else {
        assert(s[from + 0] == name[0]);
        assert(name.contains(name[0]));
        let tail = name.drop_first();
        assert forall|i: int| 0 <= i < tail.len() implies tail[i] != ';' by {
            assert(tail[i] == name[i + 1]);
            assert(name.contains(name[i + 1]));
        }
        assert(!tail.contains(';'));
        assert forall|i: int| 0 <= i < (tail + seq![';']).len() implies s[from + 1 + i] == #[trigger] (
        tail + seq![';'])[i] by {
            assert((name + seq![';'])[i + 1] == (tail + seq![';'])[i]);
            assert(s[from + (i + 1)] == (name + seq![';'])[i + 1]);
        }
        lemma_find_semicolon(s, from + 1, tail);
    }
}

/// Parsing where the text of a well-formed descriptor stands gives the
/// descriptor back and stops behind the text, whatever follows.
pub proof fn lemma_parse_text(d: DescriptorModel, s: Seq<char>, pos: int)
    requires
        well_formed(d),
        holds_at(s, pos, text_of(d)),
    ensures
        parse_descriptor(s, pos) == Ok::<(DescriptorModel, int), ErrorModel>(
            (d, pos + text_of(d).len()),
        ),
    decreases d,
{
    lemma_text_head(d);
    assert(s[pos + 0] == text_of(d)[0]);
    match d {
        DescriptorModel::Array(inner) => {
            lemma_holds_split(s, pos, seq!['['], text_of(*inner));
            lemma_parse_text(*inner, s, pos + 1);
        },
        DescriptorModel::Object(name) => {
            assert(text_of(d) == seq!['L'] + (name + seq![';']));
            lemma_holds_split(s, pos, seq!['L'], name + seq![';']);
            lemma_find_semicolon(s, pos + 1, name);
            lemma_holds_split(s, pos + 1, name, seq![';']);
            assert(s.subrange(pos + 1, pos + 1 + name.len()) =~= name) by {
                assert forall|i: int| 0 <= i < name.len() implies s[pos + 1 + i] == name[i] by {}
            }
        },
        DescriptorModel::Function(parameters, result) => {
            let a = seq!['('];
            let b = texts_of(parameters) + seq![')'];
            let c = text_of(*result);
            assert(text_of(d) == (a + b) + c);
            lemma_holds_split(s, pos, a + b, c);
            lemma_holds_split(s, pos, a, b);
            lemma_parse_texts(parameters, s, pos + 1);
            lemma_parse_text(*result, s, pos + 1 + b.len());
        },
        _ => {},
    }
}

/// Parsing where the texts of well-formed parameters stand before a closing
/// bracket gives the parameters back and stops behind the bracket.
pub proof fn lemma_parse_texts(parameters: Seq<DescriptorModel>, s: Seq<char>, pos: int)
    requires
        forall|i: int| 0 <= i < parameters.len() ==> well_formed(#[trigger] parameters[i]),
        holds_at(s, pos, texts_of(parameters) + seq![')']),
    ensures
        parse_parameters(s, pos) == Ok::<(Seq<DescriptorModel>, int), ErrorModel>(
            (parameters, pos + texts_of(parameters).len() + 1),
        ),
    decreases parameters,
{
    if parameters.len() == 0 {
        assert(s[pos + 0] == (texts_of(parameters) + seq![')'])[0]);
        assert(parameters =~= Seq::<DescriptorModel>::empty());
    } else {
        let head = parameters[0];
        let tail = parameters.drop_first();
        lemma_text_head(head);
        assert(texts_of(parameters) + seq![')'] == text_of(head) + (texts_of(tail) + seq![')']));
        lemma_holds_split(s, pos, text_of(head), texts_of(tail) + seq![')']);
        assert(s[pos + 0] == text_of(head)[0]);
        lemma_parse_text(head, s, pos);
        assert forall|i: int| 0 <= i < tail.len() implies well_formed(#[trigger] tail[i]) by {
            assert(tail[i] == parameters[i + 1]);
        }
        lemma_parse_texts(tail, s, pos + text_of(head).len());
        assert(seq![head] + tail =~= parameters);
    }
}

/// The text of a well-formed descriptor parses to the descriptor, and
/// nothing is left over.
pub proof fn lemma_parse_serialize(d: DescriptorModel)
    requires
        well_formed(d),
    ensures
        parse_descriptor(text_of(d), 0) == Ok::<(DescriptorModel, int), ErrorModel>(
            (d, text_of(d).len() as int),
        ),
{
    lemma_parse_text(d, text_of(d), 0);
}

/// What parses is the text of what it parses to: where parsing at `pos`
/// gives `d` and stops at `end`, the characters from `pos` to `end` are the
/// text of `d`, and `d` is well formed.
pub proof fn lemma_serialize_parse(s: Seq<char>, pos: int)
    ensures
        parse_descriptor(s, pos) matches Ok((d, end)) ==> {
            &&& pos < end <= s.len()
            &&& text_of(d) == s.subrange(pos, end)
            &&& well_formed(d)
        },
    decreases s.len() - pos, 0int,
{
    if 0 <= pos < s.len() {
        if s[pos] == 'L' {
            lemma_found_semicolon(s, pos + 1);
            if let Some(end) = find_semicolon(s, pos + 1) {
                let name = s.subrange(pos + 1, end);
                assert(seq!['L'] + name + seq![';'] =~= s.subrange(pos, end + 1));
                assert(!name.contains(';')) by {
                    assert forall|i: int| 0 <= i < name.len() implies name[i] != ';' by {
                        assert(name[i] == s[pos + 1 + i]);
                    }
                }
            }
        } else if s[pos] == '[' {
            lemma_serialize_parse(s, pos + 1);
            if let Ok((inner, p)) = parse_descriptor(s, pos + 1) {
                assert(seq!['['] + s.subrange(pos + 1, p) =~= s.subrange(pos, p));
            }
        } else if s[pos] == '(' {
            lemma_serialize_parameters(s, pos + 1);
            if let Ok((parameters, p)) = parse_parameters(s, pos + 1) {
                lemma_serialize_parse(s, p);
                if let Ok((result, q)) = parse_descriptor(s, p) {
                    assert(seq!['('] + (s.subrange(pos + 1, p - 1) + seq![')']) + s.subrange(p, q)
                        =~= s.subrange(pos, q));
                    assert(seq!['('] + s.subrange(pos + 1, p - 1) + seq![')'] =~= seq!['('] + (
                    s.subrange(pos + 1, p - 1) + seq![')']));
                }
            }
        } else {
            assert(s.subrange(pos, pos + 1) =~= seq![s[pos]]);
        }
    }
}

/// Where a `;` is found, it is the first at or behind `from`.
pub proof fn lemma_found_semicolon(s: Seq<char>, from: int)
    ensures
        find_semicolon(s, from) matches Some(end) ==> {
            &&& 0 <= from <= end < s.len()
            &&& s[end] == ';'
            &&& forall|i: int| from <= i < end ==> s[i] != ';'
        },
    decreases s.len() - from,
{
    if 0 <= from < s.len() && s[from] != ';' {
        lemma_found_semicolon(s, from + 1);
    }
}

/// As `lemma_serialize_parse`, for the parameters up to the closing bracket.
pub proof fn lemma_serialize_parameters(s: Seq<char>, pos: int)
    ensures
        parse_parameters(s, pos) matches Ok((parameters, end)) ==> {
            &&& pos < end <= s.len()
            &&& texts_of(parameters) == s.subrange(pos, end - 1)
            &&& s[end - 1] == ')'
            &&& forall|i: int| 0 <= i < parameters.len() ==> well_formed(#[trigger] parameters[i])
        },
    decreases s.len() - pos, 1int,
{
    if 0 <= pos < s.len() {
        if s[pos] == ')' {
            assert(s.subrange(pos, pos) =~= Seq::<char>::empty());
        } else {
            lemma_serialize_parse(s, pos);
            if let Ok((d, p)) = parse_descriptor(s, pos) {
                lemma_serialize_parameters(s, p);
                if let Ok((rest, q)) = parse_parameters(s, p) {
                    let all = seq![d] + rest;
                    assert(all.drop_first() =~= rest);
                    assert(s.subrange(pos, p) + s.subrange(p, q - 1) =~= s.subrange(pos, q - 1));
                    assert forall|i: int| 0 <= i < all.len() implies well_formed(#[trigger] all[i]) by {
                        if i > 0 {
                            assert(all[i] == rest[i - 1]);
                        }
                    }
                }
            }
        }
    }
}


/// The position of the first `;` at or behind `from`, or `len` if there is
/// none.
fn semicolon_from(text: &str, from: usize, len: usize) -> (end: usize)
    requires
        len == text@.len(),
        from <= len,
    ensures
        from <= end <= len,
        match find_semicolon(text@, from as int) {
            Some(p) => end == p,
            None => end == len,
        },
{
    let mut end = from;
    while end < len
        invariant
            from <= end <= len,
            len == text@.len(),
            find_semicolon(text@, from as int) == find_semicolon(text@, end as int),
        decreases len - end,
    {
        if text.get_char(end) == ';' {
            return end;
        }
        end += 1;
    }
    end
}

/// Parses the descriptor that starts at character `pos` of `text`, which
/// has `len` characters.
#[verifier::loop_isolation(false)]
fn parse_at(text: &str, pos: usize, len: usize) -> (r: Result<(Descriptor, usize), Error>)
    requires
        len == text@.len(),
    ensures
        match parse_descriptor(text@, pos as int) {
            Ok((d, end)) => r matches Ok((parsed, p)) && parsed@ == d && p == end && pos < p <= len,
            Err(e) => r matches Err(x) && x@ == e,
        },
    decreases len - pos,
{
    if pos >= len {
        return Err(Error::InvalidDescriptor);
    }
    let c = text.get_char(pos);
    if c == 'B' {
        Ok((Descriptor::Byte, pos + 1))
    } else if c == 'C' {
        Ok((Descriptor::Char, pos + 1))
    } else if c == 'D' {
        Ok((Descriptor::Double, pos + 1))
    } else if c == 'F' {
        Ok((Descriptor::Float, pos + 1))
    } else if c == 'I' {
        Ok((Descriptor::Int, pos + 1))
    } else if c == 'J' {
        Ok((Descriptor::Long, pos + 1))
    } else if c == 'S' {
        Ok((Descriptor::Short, pos + 1))
    } else if c == 'Z' {
        Ok((Descriptor::Boolean, pos + 1))
    } else if c == 'V' {
        Ok((Descriptor::Void, pos + 1))
    } else if c == 'L' {
        let end = semicolon_from(text, pos + 1, len);
        if end >= len {
            proof {
                lemma_found_semicolon(text@, pos + 1);
            }
            return Err(Error::InvalidDescriptor);
        }
        let name = String::from_str(text.substring_char(pos + 1, end));
        Ok((Descriptor::Object(name), end + 1))
    } else if c == '[' {
        let (inner, p) = parse_at(text, pos + 1, len)?;
        Ok((Descriptor::Array(Box::new(inner)), p))
    } else if c == '(' {
        let mut parameters: Vec<Descriptor> = Vec::new();
        let mut p = pos + 1;
        let ghost s = text@;
        proof {
            assert(descriptor_models(parameters@) =~= Seq::<DescriptorModel>::empty());
            if let Ok((rest, q)) = parse_parameters(s, p as int) {
                assert(Seq::<DescriptorModel>::empty() + rest =~= rest);
            }
        }
        let mut closed = false;
        while !closed
            invariant
                pos < p <= len,
                !closed ==> parse_parameters(s, pos + 1) == match parse_parameters(s, p as int) {
                    Ok((rest, q)) => Ok((descriptor_models(parameters@) + rest, q)),
                    Err(e) => Err(e),
                },
                closed ==> pos + 1 < p && parse_parameters(s, pos + 1) == Ok::<
                    (Seq<DescriptorModel>, int),
                    ErrorModel,
                >((descriptor_models(parameters@), p as int)),
            decreases len - p + (if closed { 0int } else { 1int }),
        {
            if p >= len {
                return Err(Error::InvalidDescriptor);
            }
            if text.get_char(p) == ')' {
                proof {
                    assert(descriptor_models(parameters@) + Seq::<DescriptorModel>::empty()
                        =~= descriptor_models(parameters@));
                }
                p += 1;
                closed = true;
            } else {
                let (d, q) = parse_at(text, p, len)?;
                proof {
                    if let Ok((rest, end)) = parse_parameters(s, q as int) {
                        assert(descriptor_models(parameters@) + (seq![d@] + rest)
                            =~= descriptor_models(parameters@.push(d)) + rest);
                    }
                }
                parameters.push(d);
                p = q;
            }
        }
        let (result, q) = parse_at(text, p, len)?;
        Ok((Descriptor::Function(parameters, Box::new(result)), q))
    } else {
        Err(Error::InvalidDescriptor)
    }
}

impl Descriptor {
    /// Parses the descriptor that `descriptor` starts with and gives it
    /// back with the text that is left over. Fails with `InvalidDescriptor`
    /// where the text is empty, a type starts with a character that starts
    /// none, the `;` of a class name is missing, or the `)` or the return
    /// type of a method is.
    pub fn parse(descriptor: &str) -> (r: Result<(Descriptor, String), Error>)
        ensures
            match parse_descriptor(descriptor@, 0) {
                Ok((d, end)) => r matches Ok((parsed, rest)) && parsed@ == d && rest@
                    == descriptor@.subrange(end, descriptor@.len() as int),
                Err(e) => r matches Err(x) && x == Error::InvalidDescriptor,
            },
    {
        let len = descriptor.unicode_len();
        proof {
            lemma_parse_fails_invalid(descriptor@, 0);
        }
        let (parsed, end) = parse_at(descriptor, 0, len)?;
        let rest = String::from_str(descriptor.substring_char(end, len));
        Ok((parsed, rest))
    }

    /// The text of the descriptor.
    #[verifier::loop_isolation(false)]
    pub fn serialize(&self) -> (text: String)
        ensures
            text@ == text_of(self@),
        decreases self,
    {
        proof {
            reveal_strlit("B");
            reveal_strlit("C");
            reveal_strlit("D");
            reveal_strlit("F");
            reveal_strlit("I");
            reveal_strlit("J");
            reveal_strlit("S");
            reveal_strlit("Z");
            reveal_strlit("V");
            reveal_strlit("L");
            reveal_strlit("[");
            reveal_strlit("(");
        }
        match self {
            Descriptor::Byte => letter("B"),
            Descriptor::Char => letter("C"),
            Descriptor::Double => letter("D"),
            Descriptor::Float => letter("F"),
            Descriptor::Int => letter("I"),
            Descriptor::Long => letter("J"),
            Descriptor::Short => letter("S"),
            Descriptor::Boolean => letter("Z"),
            Descriptor::Void => letter("V"),
            Descriptor::Object(name) => {
                let mut text = letter("L");
                text.append(name.as_str());
                text.append(";");
                proof {
                    reveal_strlit(";");
                    assert(";"@ =~= seq![';']);
                }
                text
            },
            Descriptor::Array(inner) => {
                let mut text = letter("[");
                let rest = inner.serialize();
                text.append(rest.as_str());
                text
            },
            Descriptor::Function(parameters, result) => {
                let mut text = letter("(");
                let ghost ms = descriptor_models(parameters@);
                let mut i: usize = 0;
                proof {
                    assert(ms.take(0) =~= Seq::<DescriptorModel>::empty());
                    assert(seq!['('] + texts_of(ms.take(0)) =~= seq!['(']);
                }
                while i < parameters.len()
                    invariant
                        i <= parameters.len(),
                        ms == descriptor_models(parameters@),
                        text@ == seq!['('] + texts_of(ms.take(i as int)),
                    decreases parameters.len() - i,
                {
                    let part = parameters[i].serialize();
                    proof {
                        lemma_texts_push(ms.take(i as int), ms[i as int]);
                        assert(ms.take(i + 1) =~= ms.take(i as int).push(ms[i as int]));
                        assert(seq!['('] + (texts_of(ms.take(i as int)) + part@) =~= text@ + part@);
                    }
                    text.append(part.as_str());
                    i += 1;
                }
                proof {
                    assert(ms.take(i as int) =~= ms);
                    reveal_strlit(")");
                    assert(")"@ =~= seq![')']);
                }
                text.append(")");
                let rest = result.serialize();
                text.append(rest.as_str());
                text
            },
        }
    }
}

/// The text of one letter.
fn letter(l: &str) -> (text: String)
    requires
        l@.len() == 1,
    ensures
        text@ == seq![l@[0]],
{
    let text = String::from_str(l);
    proof {
        assert(text@ =~= seq![l@[0]]);
    }
    text
}

/// The texts of some descriptors and one more are the texts of the first
/// with the text of the last behind them.
pub proof fn lemma_texts_push(s: Seq<DescriptorModel>, d: DescriptorModel)
    ensures
        texts_of(s.push(d)) == texts_of(s) + text_of(d),
    decreases s.len(),
{
    if s.len() == 0 {
        assert(s.push(d).drop_first() =~= Seq::<DescriptorModel>::empty());
        assert(texts_of(s.push(d).drop_first()) =~= Seq::<char>::empty());
        assert(texts_of(s.push(d)) =~= text_of(d));
        assert(texts_of(s) + text_of(d) =~= text_of(d));
    } else {
        lemma_texts_push(s.drop_first(), d);
        assert(s.push(d).drop_first() =~= s.drop_first().push(d));
        assert(text_of(s[0]) + (texts_of(s.drop_first()) + text_of(d)) =~= (text_of(s[0])
            + texts_of(s.drop_first())) + text_of(d));
    }
}

/// Parsing fails in one way only.
pub proof fn lemma_parse_fails_invalid(s: Seq<char>, pos: int)
    ensures
        parse_descriptor(s, pos) matches Err(e) ==> e == ErrorModel::InvalidDescriptor,
    decreases s.len() - pos, 0int,
{
    if 0 <= pos < s.len() {
        if s[pos] == '[' {
            lemma_parse_fails_invalid(s, pos + 1);
        } else if s[pos] == '(' {
            lemma_parameters_fail_invalid(s, pos + 1);
            if let Ok((parameters, p)) = parse_parameters(s, pos + 1) {
                if pos < p <= s.len() {
                    lemma_parse_fails_invalid(s, p);
                }
            }
        }
    }
}

/// Parsing parameters fails in one way only.
pub proof fn lemma_parameters_fail_invalid(s: Seq<char>, pos: int)
    ensures
        parse_parameters(s, pos) matches Err(e) ==> e == ErrorModel::InvalidDescriptor,
    decreases s.len() - pos, 1int,
{
    if 0 <= pos < s.len() && s[pos] != ')' {
        lemma_parse_fails_invalid(s, pos);
        if let Ok((d, p)) = parse_descriptor(s, pos) {
            if pos < p <= s.len() {
                lemma_parameters_fail_invalid(s, p);
            }
        }
    }
}


impl Clone for Descriptor {
    /// A descriptor with the same model.
    #[verifier::loop_isolation(false)]
    fn clone(&self) -> (copy: Descriptor)
        ensures
            copy@ == self@,
        decreases self,
    {
        match self {
            Descriptor::Byte => Descriptor::Byte,
            Descriptor::Char => Descriptor::Char,
            Descriptor::Double => Descriptor::Double,
            Descriptor::Float => Descriptor::Float,
            Descriptor::Int => Descriptor::Int,
            Descriptor::Long => Descriptor::Long,
            Descriptor::Short => Descriptor::Short,
            Descriptor::Boolean => Descriptor::Boolean,
            Descriptor::Void => Descriptor::Void,
            Descriptor::Object(name) => Descriptor::Object(name.clone()),
            Descriptor::Array(inner) => Descriptor::Array(Box::new((**inner).clone())),
            Descriptor::Function(parameters, result) => {
                let mut copies: Vec<Descriptor> = Vec::new();
                let mut i: usize = 0;
                while i < parameters.len()
                    invariant
                        i <= parameters.len(),
                        copies@.len() == i,
                        forall|j: int| 0 <= j < i ==> (#[trigger] copies@[j])@ == parameters@[j]@,
                    decreases parameters.len() - i,
                {
                    copies.push(parameters[i].clone());
                    i += 1;
                }
                proof {
                    assert(descriptor_models(copies@) =~= descriptor_models(parameters@));
                }
                Descriptor::Function(copies, Box::new((**result).clone()))
            },
        }
    }
}

} // verus!
