//! The scalar reader: fixed-width big-endian integers peeked or read from a
//! byte buffer, with a cursor that only moves on a successful read.

use vstd::prelude::*;
use vstd::slice::slice_subrange;

use crate::errors::{DviousError, DviousResult};
use crate::model::{be_value, lemma_be_value_push};

verus! {

/// A byte buffer together with a read cursor.
pub struct ByteReader {
    position: usize,
    bytes: Vec<u8>,
}

/// A scalar type that can be extracted from big-endian bytes.
///
/// `from_be_spec` is the specification-level meaning of `from_u8_be`; every
/// implementation gives its value over [`be_value`], the one definition of
/// what "big-endian" means in this crate.
pub trait Readable: Sized {
    /// The width of the encoded field in bytes.
    spec fn size_spec() -> usize;

    /// The value of an encoded field, most-significant byte first.
    spec fn from_be_spec(s: Seq<u8>) -> Self;

    /// The width of the encoded field in bytes.
    fn size_in_bytes() -> (n: usize)
        ensures
            n == Self::size_spec(),
    ;

    /// Decode a field from exactly `size_in_bytes` bytes.
    fn from_u8_be(b: &[u8]) -> (r: Self)
        requires
            b@.len() == Self::size_spec(),
        ensures
            r == Self::from_be_spec(b@),
    ;
}

impl ByteReader {
    /// The cursor position.
    pub closed spec fn pos(&self) -> int {
        self.position as int
    }

    /// The underlying buffer.
    pub closed spec fn data(&self) -> Seq<u8> {
        self.bytes@
    }

    /// The cursor never leaves the buffer.
    pub open spec fn wf(&self) -> bool {
        0 <= self.pos() <= self.data().len()
    }

    pub fn new(bytes: Vec<u8>) -> (r: ByteReader)
        ensures
            r.wf(),
            r.pos() == 0,
            r.data() == bytes@,
    {
        ByteReader { position: 0, bytes }
    }

    /// The value at the cursor, without advancing: `Ok` exactly when
    /// `T::size_spec()` bytes remain.
    pub fn peek_be<T: Readable>(&self) -> (r: DviousResult<T>)
        requires
            self.wf(),
        ensures
            match r {
                Ok(v) => self.pos() + T::size_spec() <= self.data().len() && v
                    == T::from_be_spec(
                    self.data().subrange(self.pos(), self.pos() + T::size_spec()),
                ),
                Err(e) => e == DviousError::IndexOutOfBoundsError && self.pos() + T::size_spec()
                    > self.data().len(),
            },
    {
        let number_of_bytes = T::size_in_bytes();
        match self.peek_slice(number_of_bytes) {
            Ok(buffer) => Ok(T::from_u8_be(buffer)),
            Err(e) => Err(e),
        }
    }

    /// The value at the cursor; on success the cursor advances by exactly
    /// the width of the field, on failure it does not move.
    pub fn read_be<T: Readable>(&mut self) -> (r: DviousResult<T>)
        requires
            old(self).wf(),
        ensures
            final(self).wf(),
            final(self).data() == old(self).data(),
            match r {
                Ok(v) => old(self).pos() + T::size_spec() <= old(self).data().len() && v
                    == T::from_be_spec(
                    old(self).data().subrange(old(self).pos(), old(self).pos() + T::size_spec()),
                ) && final(self).pos() == old(self).pos() + T::size_spec(),
                Err(e) => e == DviousError::IndexOutOfBoundsError && old(self).pos()
                    + T::size_spec() > old(self).data().len() && final(self).pos() == old(
                    self,
                ).pos(),
            },
    {
        let number_of_bytes = T::size_in_bytes();
        match self.read_slice(number_of_bytes) {
            Ok(buffer) => Ok(T::from_u8_be(buffer)),
            Err(e) => Err(e),
        }
    }

    /// The `n` bytes at the cursor; on success the cursor advances past
    /// them, on failure it does not move.
    fn read_slice(&mut self, n: usize) -> (r: DviousResult<&[u8]>)
        requires
            old(self).wf(),
        ensures
            final(self).wf(),
            final(self).data() == old(self).data(),
            match r {
                Ok(b) => old(self).pos() + n <= old(self).data().len() && b@ == old(
                    self,
                ).data().subrange(old(self).pos(), old(self).pos() + n) && final(self).pos()
                    == old(self).pos() + n,
                Err(e) => e == DviousError::IndexOutOfBoundsError && old(self).pos() + n > old(
                    self,
                ).data().len() && final(self).pos() == old(self).pos(),
            },
    {
        if n <= self.bytes.len() - self.position {
            let start = self.position;
            self.position = self.position + n;
            Ok(slice_subrange(self.bytes.as_slice(), start, start + n))
        } else {
            Err(DviousError::IndexOutOfBoundsError)
        }
    }

    /// The `n` bytes at the cursor, without advancing.
    fn peek_slice(&self, n: usize) -> (r: DviousResult<&[u8]>)
        requires
            self.wf(),
        ensures
            match r {
                Ok(b) => self.pos() + n <= self.data().len() && b@ == self.data().subrange(
                    self.pos(),
                    self.pos() + n,
                ),
                Err(e) => e == DviousError::IndexOutOfBoundsError && self.pos() + n
                    > self.data().len(),
            },
    {
        if n <= self.bytes.len() - self.position {
            Ok(slice_subrange(self.bytes.as_slice(), self.position, self.position + n))
        } else {
            Err(DviousError::IndexOutOfBoundsError)
        }
    }

    /// Whether at least one byte remains before the end of the buffer.
    pub fn has_more(&self) -> (r: bool)
        requires
            self.wf(),
        ensures
            r <==> self.pos() < self.data().len(),
    {
        self.position < self.bytes.len()
    }
}

/// A 24-bit unsigned integer, stored in the low three bytes of a `u32`.
#[allow(non_camel_case_types)]
#[derive(Debug, PartialEq, Eq, Clone, Copy, Structural)]
pub struct u24(pub u32);

impl From<u32> for u24 {
    fn from(v: u32) -> (r: u24) {
        u24(v)
    }
}

impl vstd::std_specs::convert::FromSpecImpl<u32> for u24 {
    open spec fn obeys_from_spec() -> bool {
        true
    }

    open spec fn from_spec(v: u32) -> u24 {
        u24(v)
    }
}

impl Readable for u8 {
    open spec fn size_spec() -> usize {
        1
    }

    open spec fn from_be_spec(s: Seq<u8>) -> u8 {
        s[0]
    }

    fn size_in_bytes() -> usize {
        1
    }

    fn from_u8_be(a: &[u8]) -> (r: u8) {
        proof {
            lemma_be_small(a@);
        }
        a[0]
    }
}

impl Readable for u16 {
    open spec fn size_spec() -> usize {
        2
    }

    open spec fn from_be_spec(s: Seq<u8>) -> u16 {
        be_value(s) as u16
    }

    fn size_in_bytes() -> usize {
        2
    }

    fn from_u8_be(b: &[u8]) -> (r: u16) {
        proof {
            lemma_be_small(b@);
        }
        (b[0] as u16) * 0x100 + (b[1] as u16)
    }
}

impl Readable for u24 {
    open spec fn size_spec() -> usize {
        3
    }

    open spec fn from_be_spec(s: Seq<u8>) -> u24 {
        u24(be_value(s) as u32)
    }

    fn size_in_bytes() -> usize {
        3
    }

    fn from_u8_be(b: &[u8]) -> (r: u24) {
        proof {
            lemma_be_small(b@);
        }
        u24(((b[0] as u32) * 0x100 + (b[1] as u32)) * 0x100 + (b[2] as u32))
    }
}

impl Readable for u32 {
    open spec fn size_spec() -> usize {
        4
    }

    open spec fn from_be_spec(s: Seq<u8>) -> u32 {
        be_value(s) as u32
    }

    fn size_in_bytes() -> usize {
        4
    }

    fn from_u8_be(b: &[u8]) -> (r: u32) {
        proof {
            lemma_be_small(b@);
        }
        (((b[0] as u32) * 0x100 + (b[1] as u32)) * 0x100 + (b[2] as u32)) * 0x100 + (b[3] as u32)
    }
}

/// The big-endian value of up to four bytes, written out digit by digit.
proof fn lemma_be_small(s: Seq<u8>)
    requires
        1 <= s.len() <= 4,
    ensures
        s.len() == 1 ==> be_value(s) == s[0],
        s.len() == 2 ==> be_value(s) == (s[0] as nat) * 0x100 + s[1],
        s.len() == 3 ==> be_value(s) == ((s[0] as nat) * 0x100 + s[1]) * 0x100 + s[2],
        s.len() == 4 ==> be_value(s) == (((s[0] as nat) * 0x100 + s[1]) * 0x100 + s[2]) * 0x100
            + s[3],
{
    let e = Seq::<u8>::empty();
    assert(be_value(e) == 0);
    if s.len() == 1 {
        assert(s =~= e.push(s[0]));
        lemma_be_value_push(e, s[0]);
    } else if s.len() == 2 {
        assert(s =~= e.push(s[0]).push(s[1]));
        lemma_be_value_push(e, s[0]);
        lemma_be_value_push(e.push(s[0]), s[1]);
    } else if s.len() == 3 {
        assert(s =~= e.push(s[0]).push(s[1]).push(s[2]));
        lemma_be_value_push(e, s[0]);
        lemma_be_value_push(e.push(s[0]), s[1]);
        lemma_be_value_push(e.push(s[0]).push(s[1]), s[2]);
    } else {
        assert(s =~= e.push(s[0]).push(s[1]).push(s[2]).push(s[3]));
        lemma_be_value_push(e, s[0]);
        lemma_be_value_push(e.push(s[0]), s[1]);
        lemma_be_value_push(e.push(s[0]).push(s[1]), s[2]);
        lemma_be_value_push(e.push(s[0]).push(s[1]).push(s[2]), s[3]);
    }
}

} // verus!
