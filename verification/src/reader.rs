//! A cursor over a byte buffer that reads big-endian fields front to back.

use vstd::prelude::*;
use vstd::utf8::{decode_utf8, valid_utf8};
use crate::error::Error;

verus! {

/// Whether `n` bytes lie in `data` from `pos` on.
pub open spec fn has_bytes(data: Seq<u8>, pos: int, n: int) -> bool {
    0 <= pos && 0 <= n && pos + n <= data.len()
}

/// The big-endian number in the two bytes at `pos`.
pub open spec fn u16_at(data: Seq<u8>, pos: int) -> u16 {
    (data[pos] as int * 0x100 + data[pos + 1] as int) as u16
}

/// The big-endian number in the four bytes at `pos`.
pub open spec fn u32_at(data: Seq<u8>, pos: int) -> u32 {
    (u16_at(data, pos) as int * 0x1_0000 + u16_at(data, pos + 2) as int) as u32
}

/// The big-endian number in the eight bytes at `pos`.
pub open spec fn u64_at(data: Seq<u8>, pos: int) -> u64 {
    (u32_at(data, pos) as int * 0x1_0000_0000 + u32_at(data, pos + 4) as int) as u64
}

/// The two bytes of `x`, most significant first.
pub open spec fn u16_bytes(x: u16) -> Seq<u8> {
    seq![(x / 0x100) as u8, (x % 0x100) as u8]
}

/// The four bytes of `x`, most significant first.
pub open spec fn u32_bytes(x: u32) -> Seq<u8> {
    u16_bytes((x / 0x1_0000) as u16) + u16_bytes((x % 0x1_0000) as u16)
}

/// The eight bytes of `x`, most significant first.
pub open spec fn u64_bytes(x: u64) -> Seq<u8> {
    u32_bytes((x / 0x1_0000_0000) as u32) + u32_bytes((x % 0x1_0000_0000) as u32)
}

/// `data` carries `w` from `pos` on, as far as `data` reaches: every byte of
/// `w` that has a place in `data` stands there.
pub open spec fn carries(data: Seq<u8>, pos: int, w: Seq<u8>) -> bool {
    forall|i: int| 0 <= i < w.len() && pos + i < data.len() ==> data[pos + i] == #[trigger] w[i]
}

/// Where `data` carries `a + b`, it carries `a`, and `b` behind it.
pub proof fn lemma_carries_split(data: Seq<u8>, pos: int, a: Seq<u8>, b: Seq<u8>)
    requires
        0 <= pos,
        carries(data, pos, a + b),
    ensures
        carries(data, pos, a),
        carries(data, pos + a.len(), b),
{
    assert forall|i: int| 0 <= i < a.len() && pos + i < data.len() implies data[pos + i]
        == #[trigger] a[i] by {
        assert((a + b)[i] == a[i]);
    }
    assert forall|i: int| 0 <= i < b.len() && pos + a.len() + i < data.len() implies data[pos
        + a.len() + i] == #[trigger] b[i] by {
        assert((a + b)[a.len() + i] == b[i]);
    }
}

/// Reading two bytes that carry `u16_bytes(x)` gives `x` back.
pub proof fn lemma_u16_at_bytes(data: Seq<u8>, pos: int, x: u16)
    requires
        has_bytes(data, pos, 2),
        carries(data, pos, u16_bytes(x)),
    ensures
        u16_at(data, pos) == x,
{
    let w = u16_bytes(x);
    assert(data[pos + 0] == w[0]);
    assert(data[pos + 1] == w[1]);
}

/// Reading four bytes that carry `u32_bytes(x)` gives `x` back.
pub proof fn lemma_u32_at_bytes(data: Seq<u8>, pos: int, x: u32)
    requires
        has_bytes(data, pos, 4),
        carries(data, pos, u32_bytes(x)),
    ensures
        u32_at(data, pos) == x,
{
    let hi = (x / 0x1_0000) as u16;
    let lo = (x % 0x1_0000) as u16;
    lemma_carries_split(data, pos, u16_bytes(hi), u16_bytes(lo));
    lemma_u16_at_bytes(data, pos, hi);
    lemma_u16_at_bytes(data, pos + 2, lo);
}

/// Reading eight bytes that carry `u64_bytes(x)` gives `x` back.
pub proof fn lemma_u64_at_bytes(data: Seq<u8>, pos: int, x: u64)
    requires
        has_bytes(data, pos, 8),
        carries(data, pos, u64_bytes(x)),
    ensures
        u64_at(data, pos) == x,
{
    let hi = (x / 0x1_0000_0000) as u32;
    let lo = (x % 0x1_0000_0000) as u32;
    lemma_carries_split(data, pos, u32_bytes(hi), u32_bytes(lo));
    lemma_u32_at_bytes(data, pos, hi);
    lemma_u32_at_bytes(data, pos + 4, lo);
}

/// A byte buffer and the position of the next byte to read.
#[derive(Debug, Clone, PartialEq)]
pub struct Reader {
    pub data: Vec<u8>,
    pub cursor: usize,
}

/// `String::from_utf8` of std, whose contract is taken on trust: it gives a
/// text exactly where `bytes` are UTF-8, as `valid_utf8` of vstd defines it,
/// and the text is then the one that `bytes` encode, as `decode_utf8` of
/// vstd defines it.
#[verifier::external_body]
fn text_of_utf8(bytes: Vec<u8>) -> (text: Option<String>)
    ensures
        text is Some <==> valid_utf8(bytes@),
        text matches Some(s) ==> s@ == decode_utf8(bytes@),
{
    match String::from_utf8(bytes) {
        Ok(text) => Some(text),
        Err(_) => None,
    }
}

impl Reader {
    /// A reader at the start of `data`.
    pub fn new(data: Vec<u8>) -> (reader: Reader)
        ensures
            reader.data == data,
            reader.cursor == 0,
    {
        Reader { data, cursor: 0 }
    }

    /// The bytes and the position as mathematical values.
    pub open spec fn bytes(&self) -> Seq<u8> {
        self.data@
    }

    /// The next `n` bytes from the cursor on.
    pub open spec fn next(&self, n: int) -> Seq<u8> {
        self.data@.subrange(self.cursor as int, self.cursor + n)
    }

    /// Whether `n` bytes remain from the cursor on.
    pub open spec fn has(&self, n: int) -> bool {
        has_bytes(self.data@, self.cursor as int, n)
    }

    fn available(&self, n: usize) -> (b: bool)
        ensures
            b == self.has(n as int),
            b ==> self.cursor + n <= usize::MAX,
    {
        self.cursor <= self.data.len() && self.data.len() - self.cursor >= n
    }

    /// Reads `length` bytes as UTF-8 text.
    pub fn read_string(&mut self, length: usize) -> (r: Result<String, Error>)
        ensures
            final(self).data == old(self).data,
            match r {
                Ok(s) => {
                    &&& old(self).has(length as int)
                    &&& valid_utf8(old(self).next(length as int))
                    &&& s@ == decode_utf8(old(self).next(length as int))
                    &&& final(self).cursor == old(self).cursor + length
                },
                Err(e) => {
                    &&& final(self).cursor == old(self).cursor
                    &&& if old(self).has(length as int) {
                        &&& e == Error::InvalidUtf8
                        &&& !valid_utf8(old(self).next(length as int))
                    } else {
                        e == Error::TruncatedInput
                    }
                },
            },
    {
        let start = self.cursor;
        let bytes = self.read_bytes(length)?;
        match text_of_utf8(bytes) {
            Some(s) => Ok(s),
            None => {
                self.cursor = start;
                Err(Error::InvalidUtf8)
            },
        }
    }

    /// Reads `length` bytes.
    pub fn read_bytes(&mut self, length: usize) -> (r: Result<Vec<u8>, Error>)
        ensures
            final(self).data == old(self).data,
            match r {
                Ok(v) => {
                    &&& old(self).has(length as int)
                    &&& v@ == old(self).next(length as int)
                    &&& final(self).cursor == old(self).cursor + length
                },
                Err(e) => {
                    &&& e == Error::TruncatedInput
                    &&& !old(self).has(length as int)
                    &&& final(self).cursor == old(self).cursor
                },
            },
    {
        if !self.available(length) {
            return Err(Error::TruncatedInput);
        }
        let mut out: Vec<u8> = Vec::new();
        let start = self.cursor;
        let mut i: usize = 0;
        while i < length
            invariant
                i <= length,
                start + length <= self.data.len(),
                out@ == self.data@.subrange(start as int, start + i),
            decreases length - i,
        {
            out.push(self.data[start + i]);
            i += 1;
        }
        self.cursor = start + length;
        Ok(out)
    }

    /// Reads an eight-byte big-endian number.
    pub fn read_int8(&mut self) -> (r: Result<u64, Error>)
        ensures
            final(self).data == old(self).data,
            match r {
                Ok(v) => {
                    &&& old(self).has(8)
                    &&& v == u64_at(old(self).data@, old(self).cursor as int)
                    &&& final(self).cursor == old(self).cursor + 8
                },
                Err(e) => {
                    &&& e == Error::TruncatedInput
                    &&& !old(self).has(8)
                    &&& final(self).cursor == old(self).cursor
                },
            },
    {
        if !self.available(8) {
            return Err(Error::TruncatedInput);
        }
        let hi = self.read_int4()?;
        let lo = self.read_int4()?;
        Ok(hi as u64 * 0x1_0000_0000 + lo as u64)
    }

    /// Reads a four-byte big-endian number.
    pub fn read_int4(&mut self) -> (r: Result<u32, Error>)
        ensures
            final(self).data == old(self).data,
            match r {
                Ok(v) => {
                    &&& old(self).has(4)
                    &&& v == u32_at(old(self).data@, old(self).cursor as int)
                    &&& final(self).cursor == old(self).cursor + 4
                },
                Err(e) => {
                    &&& e == Error::TruncatedInput
                    &&& !old(self).has(4)
                    &&& final(self).cursor == old(self).cursor
                },
            },
    {
        if !self.available(4) {
            return Err(Error::TruncatedInput);
        }
        let hi = self.read_int2()?;
        let lo = self.read_int2()?;
        Ok(hi as u32 * 0x1_0000 + lo as u32)
    }

    /// Reads a two-byte big-endian number.
    pub fn read_int2(&mut self) -> (r: Result<u16, Error>)
        ensures
            final(self).data == old(self).data,
            match r {
                Ok(v) => {
                    &&& old(self).has(2)
                    &&& v == u16_at(old(self).data@, old(self).cursor as int)
                    &&& final(self).cursor == old(self).cursor + 2
                },
                Err(e) => {
                    &&& e == Error::TruncatedInput
                    &&& !old(self).has(2)
                    &&& final(self).cursor == old(self).cursor
                },
            },
    {
        if !self.available(2) {
            return Err(Error::TruncatedInput);
        }
        let hi = self.data[self.cursor];
        let lo = self.data[self.cursor + 1];
        self.cursor = self.cursor + 2;
        Ok(hi as u16 * 0x100 + lo as u16)
    }

    /// Reads one byte.
    pub fn read_int1(&mut self) -> (r: Result<u8, Error>)
        ensures
            final(self).data == old(self).data,
            match r {
                Ok(v) => {
                    &&& old(self).has(1)
                    &&& v == old(self).data@[old(self).cursor as int]
                    &&& final(self).cursor == old(self).cursor + 1
                },
                Err(e) => {
                    &&& e == Error::TruncatedInput
                    &&& !old(self).has(1)
                    &&& final(self).cursor == old(self).cursor
                },
            },
    {
        if !self.available(1) {
            return Err(Error::TruncatedInput);
        }
        let b = self.data[self.cursor];
        self.cursor = self.cursor + 1;
        Ok(b)
    }

    /// A copy of the whole buffer, read or not.
    pub fn read(&self) -> (all: Vec<u8>)
        ensures
            all@ == self.data@,
    {
        self.data.clone()
    }

    /// Whether every byte has been read.
    pub fn is_at_end(&self) -> (b: bool)
        ensures
            b == (self.cursor >= self.data.len()),
    {
        self.cursor >= self.data.len()
    }
}

} // verus!
