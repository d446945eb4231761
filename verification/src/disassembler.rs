//! The instruction decoder: a byte buffer consumed from position 0 to its
//! end, one instruction per leading byte, with backward links resolved to
//! output-sequence indices as the stream is walked.
//!
//! Every function here is verified against the model in [`crate::model`]:
//! [`disassemble`] returns exactly what [`disassemble_spec`] says the buffer
//! decodes to.

use vstd::prelude::*;
use vstd::pervasive::unreached;

use crate::errors::DecodeError;
use crate::model::{
    be_value_at, decode_from, decode_op, decode_step, disassemble_spec, fill_run,
    lemma_be_value_at_extend, lemma_be_value_at_one, lemma_be_value_at_small,
    lemma_decode_from_end, lemma_decode_from_step, lemma_step_in_bounds, operand_i32,
    step_fnt_def, wrap_i32, DecodeState,
};
use crate::opcodes::{ops_view, OpCode, OpCodeView};

verus! {

/// Decode a whole buffer into its instruction sequence, or fail on the
/// first malformed instruction. The result is exactly what the model says:
/// the sequence of [`disassemble_spec`] on success, its error on failure.
pub fn disassemble(bytes: Vec<u8>) -> (r: Result<Vec<OpCode>, DecodeError>)
    ensures
        (match disassemble_spec(bytes@) {
            Ok(ops) => r is Ok && ops_view(r->Ok_0@) == ops,
            Err(e) => r is Err && r->Err_0 == e,
        }),
{
    let mut disassembler = Disassembler::new(bytes);
    disassembler.disassemble()
}

/// The decoder: the buffer, the cursor, and the link-tracking state of one
/// decode call.
pub struct Disassembler {
    bytes: Vec<u8>,
    position: usize,
    last_bop: Option<usize>,
    last_post: Option<usize>,
    number_of_instructions: usize,
}

/// What every operand-reading helper leaves untouched and what it
/// establishes: the buffer and the link state keep their values, the
/// decoder stays well formed, and the result and new cursor are the ones
/// `sr` (the model's answer for the instruction at hand) prescribes.
pub open spec fn handler_post(
    pre: Disassembler,
    post: Disassembler,
    r: Result<OpCode, DecodeError>,
    sr: Result<(OpCodeView, int), DecodeError>,
) -> bool {
    &&& post.wf()
    &&& post.data() == pre.data()
    &&& post.state() == pre.state()
    &&& match sr {
        Ok((op, np)) => r is Ok && r->Ok_0@ == op && post.pos() == np,
        Err(e) => r is Err && r->Err_0 == e,
    }
}

impl Disassembler {
    /// The buffer being decoded.
    pub closed spec fn data(&self) -> Seq<u8> {
        self.bytes@
    }

    /// The cursor position.
    pub closed spec fn pos(&self) -> int {
        self.position as int
    }

    /// The model state: instructions produced so far and the two link
    /// indices.
    pub closed spec fn state(&self) -> DecodeState {
        DecodeState {
            count: self.number_of_instructions as nat,
            last_bop: self.last_bop,
            last_post: self.last_post,
        }
    }

    /// The cursor never leaves the buffer, and no more instructions have
    /// been produced than bytes consumed (each instruction is at least one
    /// byte long).
    pub open spec fn wf(&self) -> bool {
        0 <= self.pos() <= self.data().len() && self.state().count <= self.pos()
    }

    pub fn new(bytes: Vec<u8>) -> (r: Disassembler)
        ensures
            r.wf(),
            r.data() == bytes@,
            r.pos() == 0,
            r.state() == DecodeState::initial(),
    {
        Disassembler {
            bytes,
            position: 0,
            last_bop: Option::None,
            last_post: Option::None,
            number_of_instructions: 0,
        }
    }

    /// Whether at least one byte remains before the end of the buffer.
    pub fn has_more(&self) -> (r: bool)
        requires
            self.wf(),
        ensures
            r <==> self.pos() < self.data().len(),
    {
        self.position < self.bytes.len()
    }

    /// Read the next byte. On success the cursor advances by one; on
    /// failure (cursor at the end) it does not move.
    pub fn consume_one_byte_as_scalar(&mut self) -> (r: Result<u8, DecodeError>)
        requires
            old(self).wf(),
        ensures
            final(self).wf(),
            final(self).data() == old(self).data(),
            final(self).state() == old(self).state(),
            match r {
                Ok(v) => old(self).pos() < old(self).data().len() && v == old(self).data()[old(
                    self,
                ).pos()] && final(self).pos() == old(self).pos() + 1,
                Err(e) => e == (DecodeError::OutOfBounds { offset: old(self).pos() as usize })
                    && old(self).pos() >= old(self).data().len() && final(self).pos() == old(
                    self,
                ).pos(),
            },
    {
        proof {
            if old(self).pos() < old(self).data().len() {
                lemma_be_value_at_one(old(self).data(), old(self).pos());
            }
        }
        match self.consume_n_bytes_as_scalar(1) {
            Ok(v) => Ok(v as u8),
            Err(e) => Err(e),
        }
    }

    /// Read the next two bytes as a big-endian scalar.
    pub fn consume_two_bytes_as_scalar(&mut self) -> (r: Result<u32, DecodeError>)
        requires
            old(self).wf(),
        ensures
            final(self).wf(),
            final(self).data() == old(self).data(),
            final(self).state() == old(self).state(),
            match r {
                Ok(v) => old(self).pos() + 2 <= old(self).data().len() && v as nat == be_value_at(
                    old(self).data(),
                    old(self).pos(),
                    2,
                ) && final(self).pos() == old(self).pos() + 2,
                Err(e) => e == (DecodeError::OutOfBounds { offset: old(self).pos() as usize })
                    && old(self).pos() + 2 > old(self).data().len() && final(self).pos() == old(
                    self,
                ).pos(),
            },
    {
        self.consume_n_bytes_as_scalar(2)
    }

    /// Read the next three bytes as a big-endian scalar.
    pub fn consume_three_bytes_as_scalar(&mut self) -> (r: Result<u32, DecodeError>)
        requires
            old(self).wf(),
        ensures
            final(self).wf(),
            final(self).data() == old(self).data(),
            final(self).state() == old(self).state(),
            match r {
                Ok(v) => old(self).pos() + 3 <= old(self).data().len() && v as nat == be_value_at(
                    old(self).data(),
                    old(self).pos(),
                    3,
                ) && final(self).pos() == old(self).pos() + 3,
                Err(e) => e == (DecodeError::OutOfBounds { offset: old(self).pos() as usize })
                    && old(self).pos() + 3 > old(self).data().len() && final(self).pos() == old(
                    self,
                ).pos(),
            },
    {
        self.consume_n_bytes_as_scalar(3)
    }

    /// Read the next four bytes as a big-endian scalar, reinterpreted as a
    /// two's-complement `i32`.
    pub fn consume_four_bytes_as_scalar(&mut self) -> (r: Result<i32, DecodeError>)
        requires
            old(self).wf(),
        ensures
            final(self).wf(),
            final(self).data() == old(self).data(),
            final(self).state() == old(self).state(),
            match r {
                Ok(v) => old(self).pos() + 4 <= old(self).data().len() && v == wrap_i32(
                    be_value_at(old(self).data(), old(self).pos(), 4),
                ) && final(self).pos() == old(self).pos() + 4,
                Err(e) => e == (DecodeError::OutOfBounds { offset: old(self).pos() as usize })
                    && old(self).pos() + 4 > old(self).data().len() && final(self).pos() == old(
                    self,
                ).pos(),
            },
    {
        match self.consume_n_bytes_as_scalar(4) {
            Ok(v) => Ok(to_i32(v)),
            Err(e) => Err(e),
        }
    }

    /// Read the next `n` (at most four) bytes as one big-endian scalar. On
    /// success the cursor advances by exactly `n`; on failure (fewer than
    /// `n` bytes remain) it does not move.
    pub fn consume_n_bytes_as_scalar(&mut self, n: u32) -> (r: Result<u32, DecodeError>)
        requires
            old(self).wf(),
            n <= 4,
        ensures
            final(self).wf(),
            final(self).data() == old(self).data(),
            final(self).state() == old(self).state(),
            match r {
                Ok(v) => old(self).pos() + n <= old(self).data().len() && v as nat == be_value_at(
                    old(self).data(),
                    old(self).pos(),
                    n as int,
                ) && final(self).pos() == old(self).pos() + n && (n <= 3 ==> v < 0x100_0000) && (n
                    <= 2 ==> v < 0x1_0000) && (n <= 1 ==> v < 0x100),
                Err(e) => e == (DecodeError::OutOfBounds { offset: old(self).pos() as usize })
                    && old(self).pos() + n > old(self).data().len() && final(self).pos() == old(
                    self,
                ).pos(),
            },
    {
        let n_bytes = n as usize;
        if n_bytes <= self.bytes.len() - self.position {
            let ghost s = self.bytes@;
            let ghost p0 = self.position as int;
            proof {
                assert(s.subrange(p0, p0) =~= Seq::<u8>::empty());
            }
            let mut result: u64 = 0;
            let mut i: usize = 0;
            while i < n_bytes
                invariant
                    i <= n_bytes <= 4,
                    self.bytes@ == s,
                    self.position as int == p0,
                    0 <= p0,
                    p0 + n_bytes <= s.len(),
                    result as nat == be_value_at(s, p0, i as int),
                    result < 0x1_0000_0000,
                decreases n_bytes - i,
            {
                let total = self.bytes.len();
                assert(self.position + i < total);
                let b = self.bytes[self.position + i];
                proof {
                    lemma_be_value_at_extend(s, p0, i as int);
                    lemma_be_value_at_small(s, p0, i + 1);
                }
                result = result * 0x100 + (b as u64);
                i = i + 1;
            }
            proof {
                lemma_be_value_at_small(s, p0, n_bytes as int);
            }
            let total = self.bytes.len();
            assert(self.position + n_bytes <= total);
            self.position = self.position + n_bytes;
            Ok(result as u32)
        } else {
            Err(DecodeError::OutOfBounds { offset: self.position })
        }
    }

    /// Read the next `k` bytes verbatim. On success the cursor advances by
    /// exactly `k`; on failure (fewer than `k` bytes remain) it does not
    /// move.
    pub fn consume_n_bytes_as_vec(&mut self, k: u32) -> (r: Result<Vec<u8>, DecodeError>)
        requires
            old(self).wf(),
        ensures
            final(self).wf(),
            final(self).data() == old(self).data(),
            final(self).state() == old(self).state(),
            match r {
                Ok(v) => old(self).pos() + k <= old(self).data().len() && v@ == old(
                    self,
                ).data().subrange(old(self).pos(), old(self).pos() + k) && final(self).pos()
                    == old(self).pos() + k,
                Err(e) => e == (DecodeError::OutOfBounds { offset: old(self).pos() as usize })
                    && old(self).pos() + k > old(self).data().len() && final(self).pos() == old(
                    self,
                ).pos(),
            },
    {
        let k_bytes = k as usize;
        if k_bytes <= self.bytes.len() - self.position {
            let ghost s = self.bytes@;
            let ghost p0 = self.position as int;
            let mut result: Vec<u8> = Vec::new();
            let mut i: usize = 0;
            proof {
                assert(s.subrange(p0, p0) =~= Seq::<u8>::empty());
            }
            while i < k_bytes
                invariant
                    i <= k_bytes,
                    self.bytes@ == s,
                    self.position as int == p0,
                    0 <= p0,
                    p0 + k_bytes <= s.len(),
                    result@ == s.subrange(p0, p0 + i),
                decreases k_bytes - i,
            {
                let total = self.bytes.len();
                assert(self.position + i < total);
                let b = self.bytes[self.position + i];
                proof {
                    assert(s.subrange(p0, p0 + i + 1) =~= s.subrange(p0, p0 + i).push(
                        s[p0 + i],
                    ));
                }
                result.push(b);
                i = i + 1;
            }
            let total = self.bytes.len();
            assert(self.position + k_bytes <= total);
            self.position = self.position + k_bytes;
            Ok(result)
        } else {
            Err(DecodeError::OutOfBounds { offset: self.position })
        }
    }

    /// One byte of the instruction whose leading byte stands at `off`; a
    /// shortfall is reported at the instruction start.
    fn take_one(&mut self, off: usize) -> (r: Result<u8, DecodeError>)
        requires
            old(self).wf(),
        ensures
            final(self).wf(),
            final(self).data() == old(self).data(),
            final(self).state() == old(self).state(),
            match r {
                Ok(v) => old(self).pos() < old(self).data().len() && v == old(self).data()[old(
                    self,
                ).pos()] && v as nat == be_value_at(old(self).data(), old(self).pos(), 1)
                    && final(self).pos() == old(self).pos() + 1,
                Err(e) => e == (DecodeError::OutOfBounds { offset: off }) && old(self).pos() + 1
                    > old(self).data().len(),
            },
    {
        proof {
            if old(self).pos() < old(self).data().len() {
                lemma_be_value_at_one(old(self).data(), old(self).pos());
            }
        }
        match self.consume_one_byte_as_scalar() {
            Ok(v) => Ok(v),
            Err(_) => Err(DecodeError::OutOfBounds { offset: off }),
        }
    }

    /// An `n`-byte scalar field of the instruction whose leading byte
    /// stands at `off`; a shortfall is reported at the instruction start.
    fn take_n(&mut self, off: usize, n: u32) -> (r: Result<u32, DecodeError>)
        requires
            old(self).wf(),
            1 <= n <= 4,
        ensures
            final(self).wf(),
            final(self).data() == old(self).data(),
            final(self).state() == old(self).state(),
            match r {
                Ok(v) => old(self).pos() + n <= old(self).data().len() && v as nat == be_value_at(
                    old(self).data(),
                    old(self).pos(),
                    n as int,
                ) && final(self).pos() == old(self).pos() + n && (n <= 3 ==> v < 0x100_0000) && (n
                    <= 2 ==> v < 0x1_0000) && (n <= 1 ==> v < 0x100),
                Err(e) => e == (DecodeError::OutOfBounds { offset: off }) && old(self).pos() + n
                    > old(self).data().len(),
            },
    {
        match self.consume_n_bytes_as_scalar(n) {
            Ok(v) => Ok(v),
            Err(_) => Err(DecodeError::OutOfBounds { offset: off }),
        }
    }

    /// A four-byte two's-complement field of the instruction whose leading
    /// byte stands at `off`.
    fn take_i32(&mut self, off: usize) -> (r: Result<i32, DecodeError>)
        requires
            old(self).wf(),
        ensures
            final(self).wf(),
            final(self).data() == old(self).data(),
            final(self).state() == old(self).state(),
            match r {
                Ok(v) => old(self).pos() + 4 <= old(self).data().len() && v == operand_i32(
                    old(self).data(),
                    old(self).pos(),
                    4,
                ) && final(self).pos() == old(self).pos() + 4,
                Err(e) => e == (DecodeError::OutOfBounds { offset: off }) && old(self).pos() + 4
                    > old(self).data().len(),
            },
    {
        match self.consume_four_bytes_as_scalar() {
            Ok(v) => Ok(v),
            Err(_) => Err(DecodeError::OutOfBounds { offset: off }),
        }
    }

    /// A `k`-byte verbatim payload of the instruction whose leading byte
    /// stands at `off`; a shortfall is reported at the instruction start.
    fn take_vec(&mut self, off: usize, k: u32) -> (r: Result<Vec<u8>, DecodeError>)
        requires
            old(self).wf(),
        ensures
            final(self).wf(),
            final(self).data() == old(self).data(),
            final(self).state() == old(self).state(),
            match r {
                Ok(v) => old(self).pos() + k <= old(self).data().len() && v@ == old(
                    self,
                ).data().subrange(old(self).pos(), old(self).pos() + k) && final(self).pos()
                    == old(self).pos() + k,
                Err(e) => e == (DecodeError::OutOfBounds { offset: off }) && old(self).pos() + k
                    > old(self).data().len(),
            },
    {
        match self.consume_n_bytes_as_vec(k) {
            Ok(v) => Ok(v),
            Err(_) => Err(DecodeError::OutOfBounds { offset: off }),
        }
    }

    // Set

    fn handle_set_char(&mut self, byte: u8) -> (r: OpCode)
        requires
            old(self).wf(),
            byte <= 127,
        ensures
            *final(self) == *old(self),
            r@ == (OpCodeView::SetChar { c: byte as u32 }),
    {
        OpCode::SetChar { c: byte as u32 }
    }

    fn handle_set1(&mut self, off: usize) -> (r: Result<OpCode, DecodeError>)
        requires
            old(self).wf(),
            off + 1 == old(self).pos(),
            old(self).data()[off as int] == 128,
        ensures
            handler_post(*old(self), *final(self), r, decode_op(old(self).data(), off as int)),
    {
        proof {
            reveal(decode_op);
        }
        let v = self.take_one(off)?;
        Ok(OpCode::SetCode { c: v as i32 })
    }

    fn handle_set2(&mut self, off: usize) -> (r: Result<OpCode, DecodeError>)
        requires
            old(self).wf(),
            off + 1 == old(self).pos(),
            old(self).data()[off as int] == 129,
        ensures
            handler_post(*old(self), *final(self), r, decode_op(old(self).data(), off as int)),
    {
        proof {
            reveal(decode_op);
        }
        let v = self.take_n(off, 2)?;
        Ok(OpCode::SetCode { c: v as i32 })
    }

    fn handle_set3(&mut self, off: usize) -> (r: Result<OpCode, DecodeError>)
        requires
            old(self).wf(),
            off + 1 == old(self).pos(),
            old(self).data()[off as int] == 130,
        ensures
            handler_post(*old(self), *final(self), r, decode_op(old(self).data(), off as int)),
    {
        proof {
            reveal(decode_op);
        }
        let v = self.take_n(off, 3)?;
        Ok(OpCode::SetCode { c: v as i32 })
    }

    fn handle_set4(&mut self, off: usize) -> (r: Result<OpCode, DecodeError>)
        requires
            old(self).wf(),
            off + 1 == old(self).pos(),
            old(self).data()[off as int] == 131,
        ensures
            handler_post(*old(self), *final(self), r, decode_op(old(self).data(), off as int)),
    {
        proof {
            reveal(decode_op);
        }
        let v = self.take_i32(off)?;
        Ok(OpCode::SetCode { c: v })
    }

    fn handle_set_rule(&mut self, off: usize) -> (r: Result<OpCode, DecodeError>)
        requires
            old(self).wf(),
            off + 1 == old(self).pos(),
            old(self).data()[off as int] == 132,
        ensures
            handler_post(*old(self), *final(self), r, decode_op(old(self).data(), off as int)),
    {
        proof {
            reveal(decode_op);
        }
        let a = self.take_i32(off)?;
        let b = self.take_i32(off)?;
        Ok(OpCode::SetRule { a, b })
    }

    // Put

    fn handle_put1(&mut self, off: usize) -> (r: Result<OpCode, DecodeError>)
        requires
            old(self).wf(),
            off + 1 == old(self).pos(),
            old(self).data()[off as int] == 133,
        ensures
            handler_post(*old(self), *final(self), r, decode_op(old(self).data(), off as int)),
    {
        proof {
            reveal(decode_op);
        }
        let v = self.take_one(off)?;
        Ok(OpCode::Put { c: v as i32 })
    }

    fn handle_put2(&mut self, off: usize) -> (r: Result<OpCode, DecodeError>)
        requires
            old(self).wf(),
            off + 1 == old(self).pos(),
            old(self).data()[off as int] == 134,
        ensures
            handler_post(*old(self), *final(self), r, decode_op(old(self).data(), off as int)),
    {
        proof {
            reveal(decode_op);
        }
        let v = self.take_n(off, 2)?;
        Ok(OpCode::Put { c: v as i32 })
    }

    fn handle_put3(&mut self, off: usize) -> (r: Result<OpCode, DecodeError>)
        requires
            old(self).wf(),
            off + 1 == old(self).pos(),
            old(self).data()[off as int] == 135,
        ensures
            handler_post(*old(self), *final(self), r, decode_op(old(self).data(), off as int)),
    {
        proof {
            reveal(decode_op);
        }
        let v = self.take_n(off, 3)?;
        Ok(OpCode::Put { c: v as i32 })
    }

    fn handle_put4(&mut self, off: usize) -> (r: Result<OpCode, DecodeError>)
        requires
            old(self).wf(),
            off + 1 == old(self).pos(),
            old(self).data()[off as int] == 136,
        ensures
            handler_post(*old(self), *final(self), r, decode_op(old(self).data(), off as int)),
    {
        proof {
            reveal(decode_op);
        }
        let v = self.take_i32(off)?;
        Ok(OpCode::Put { c: v })
    }

    fn handle_put_rule(&mut self, off: usize) -> (r: Result<OpCode, DecodeError>)
        requires
            old(self).wf(),
            off + 1 == old(self).pos(),
            old(self).data()[off as int] == 137,
        ensures
            handler_post(*old(self), *final(self), r, decode_op(old(self).data(), off as int)),
    {
        proof {
            reveal(decode_op);
        }
        let a = self.take_i32(off)?;
        let b = self.take_i32(off)?;
        Ok(OpCode::PutRule { a, b })
    }

    fn handle_nop(&mut self) -> (r: OpCode)
        requires
            old(self).wf(),
        ensures
            *final(self) == *old(self),
            r@ == OpCodeView::Nop,
    {
        OpCode::Nop
    }

    fn handle_bop(&mut self, off: usize) -> (r: Result<OpCode, DecodeError>)
        requires
            old(self).wf(),
            off + 1 == old(self).pos(),
            old(self).data()[off as int] == 139,
        ensures
            final(self).wf(),
            final(self).data() == old(self).data(),
            (match decode_step(old(self).data(), off as int, old(self).state()) {
                Ok((op, np, st2)) => r is Ok && r->Ok_0@ == op && final(self).pos() == np
                    && final(self).state() == (DecodeState {
                    count: old(self).state().count,
                    last_bop: st2.last_bop,
                    last_post: st2.last_post,
                }),
                Err(e) => r is Err && r->Err_0 == e,
            }),
    {
        self.last_bop = Some(self.number_of_instructions);

        let c0 = self.take_i32(off)?;
        let c1 = self.take_i32(off)?;
        let c2 = self.take_i32(off)?;
        let c3 = self.take_i32(off)?;
        let c4 = self.take_i32(off)?;
        let c5 = self.take_i32(off)?;
        let c6 = self.take_i32(off)?;
        let c7 = self.take_i32(off)?;
        let c8 = self.take_i32(off)?;
        let c9 = self.take_i32(off)?;
        let p = self.take_i32(off)?;
        Ok(OpCode::Bop { c0, c1, c2, c3, c4, c5, c6, c7, c8, c9, p })
    }

    fn handle_eop(&mut self) -> (r: OpCode)
        requires
            old(self).wf(),
        ensures
            *final(self) == *old(self),
            r@ == OpCodeView::Eop,
    {
        OpCode::Eop
    }

    fn handle_push(&mut self) -> (r: OpCode)
        requires
            old(self).wf(),
        ensures
            *final(self) == *old(self),
            r@ == OpCodeView::Push,
    {
        OpCode::Push
    }

    fn handle_pop(&mut self) -> (r: OpCode)
        requires
            old(self).wf(),
        ensures
            *final(self) == *old(self),
            r@ == OpCodeView::Pop,
    {
        OpCode::Pop
    }

    // Right

    fn handle_right1(&mut self, off: usize) -> (r: Result<OpCode, DecodeError>)
        requires
            old(self).wf(),
            off + 1 == old(self).pos(),
            old(self).data()[off as int] == 143,
        ensures
            handler_post(*old(self), *final(self), r, decode_op(old(self).data(), off as int)),
    {
        proof {
            reveal(decode_op);
        }
        let v = self.take_one(off)?;
        Ok(OpCode::Right { b: v as i32 })
    }

    fn handle_right2(&mut self, off: usize) -> (r: Result<OpCode, DecodeError>)
        requires
            old(self).wf(),
            off + 1 == old(self).pos(),
            old(self).data()[off as int] == 144,
        ensures
            handler_post(*old(self), *final(self), r, decode_op(old(self).data(), off as int)),
    {
        proof {
            reveal(decode_op);
        }
        let v = self.take_n(off, 2)?;
        Ok(OpCode::Right { b: v as i32 })
    }

    fn handle_right3(&mut self, off: usize) -> (r: Result<OpCode, DecodeError>)
        requires
            old(self).wf(),
            off + 1 == old(self).pos(),
            old(self).data()[off as int] == 145,
        ensures
            handler_post(*old(self), *final(self), r, decode_op(old(self).data(), off as int)),
    {
        proof {
            reveal(decode_op);
        }
        let v = self.take_n(off, 3)?;
        Ok(OpCode::Right { b: v as i32 })
    }

    fn handle_right4(&mut self, off: usize) -> (r: Result<OpCode, DecodeError>)
        requires
            old(self).wf(),
            off + 1 == old(self).pos(),
            old(self).data()[off as int] == 146,
        ensures
            handler_post(*old(self), *final(self), r, decode_op(old(self).data(), off as int)),
    {
        proof {
            reveal(decode_op);
        }
        let v = self.take_i32(off)?;
        Ok(OpCode::Right { b: v })
    }

    // W

    fn handle_w0(&mut self) -> (r: OpCode)
        requires
            old(self).wf(),
        ensures
            *final(self) == *old(self),
            r@ == OpCodeView::W0,
    {
        OpCode::W0
    }

    fn handle_w1(&mut self, off: usize) -> (r: Result<OpCode, DecodeError>)
        requires
            old(self).wf(),
            off + 1 == old(self).pos(),
            old(self).data()[off as int] == 148,
        ensures
            handler_post(*old(self), *final(self), r, decode_op(old(self).data(), off as int)),
    {
        proof {
            reveal(decode_op);
        }
        let v = self.take_one(off)?;
        Ok(OpCode::W { b: v as i32 })
    }

    fn handle_w2(&mut self, off: usize) -> (r: Result<OpCode, DecodeError>)
        requires
            old(self).wf(),
            off + 1 == old(self).pos(),
            old(self).data()[off as int] == 149,
        ensures
            handler_post(*old(self), *final(self), r, decode_op(old(self).data(), off as int)),
    {
        proof {
            reveal(decode_op);
        }
        let v = self.take_n(off, 2)?;
        Ok(OpCode::W { b: v as i32 })
    }

    fn handle_w3(&mut self, off: usize) -> (r: Result<OpCode, DecodeError>)
        requires
            old(self).wf(),
            off + 1 == old(self).pos(),
            old(self).data()[off as int] == 150,
        ensures
            handler_post(*old(self), *final(self), r, decode_op(old(self).data(), off as int)),
    {
        proof {
            reveal(decode_op);
        }
        let v = self.take_n(off, 3)?;
        Ok(OpCode::W { b: v as i32 })
    }

    fn handle_w4(&mut self, off: usize) -> (r: Result<OpCode, DecodeError>)
        requires
            old(self).wf(),
            off + 1 == old(self).pos(),
            old(self).data()[off as int] == 151,
        ensures
            handler_post(*old(self), *final(self), r, decode_op(old(self).data(), off as int)),
    {
        proof {
            reveal(decode_op);
        }
        let v = self.take_i32(off)?;
        Ok(OpCode::W { b: v })
    }

    // X

    fn handle_x0(&mut self) -> (r: OpCode)
        requires
            old(self).wf(),
        ensures
            *final(self) == *old(self),
            r@ == OpCodeView::X0,
    {
        OpCode::X0
    }

    fn handle_x1(&mut self, off: usize) -> (r: Result<OpCode, DecodeError>)
        requires
            old(self).wf(),
            off + 1 == old(self).pos(),
            old(self).data()[off as int] == 153,
        ensures
            handler_post(*old(self), *final(self), r, decode_op(old(self).data(), off as int)),
    {
        proof {
            reveal(decode_op);
        }
        let v = self.take_one(off)?;
        Ok(OpCode::X { b: v as i32 })
    }

    fn handle_x2(&mut self, off: usize) -> (r: Result<OpCode, DecodeError>)
        requires
            old(self).wf(),
            off + 1 == old(self).pos(),
            old(self).data()[off as int] == 154,
        ensures
            handler_post(*old(self), *final(self), r, decode_op(old(self).data(), off as int)),
    {
        proof {
            reveal(decode_op);
        }
        let v = self.take_n(off, 2)?;
        Ok(OpCode::X { b: v as i32 })
    }

    fn handle_x3(&mut self, off: usize) -> (r: Result<OpCode, DecodeError>)
        requires
            old(self).wf(),
            off + 1 == old(self).pos(),
            old(self).data()[off as int] == 155,
        ensures
            handler_post(*old(self), *final(self), r, decode_op(old(self).data(), off as int)),
    {
        proof {
            reveal(decode_op);
        }
        let v = self.take_n(off, 3)?;
        Ok(OpCode::X { b: v as i32 })
    }

    fn handle_x4(&mut self, off: usize) -> (r: Result<OpCode, DecodeError>)
        requires
            old(self).wf(),
            off + 1 == old(self).pos(),
            old(self).data()[off as int] == 156,
        ensures
            handler_post(*old(self), *final(self), r, decode_op(old(self).data(), off as int)),
    {
        proof {
            reveal(decode_op);
        }
        let v = self.take_i32(off)?;
        Ok(OpCode::X { b: v })
    }

    // Down

    fn handle_down1(&mut self, off: usize) -> (r: Result<OpCode, DecodeError>)
        requires
            old(self).wf(),
            off + 1 == old(self).pos(),
            old(self).data()[off as int] == 157,
        ensures
            handler_post(*old(self), *final(self), r, decode_op(old(self).data(), off as int)),
    {
        proof {
            reveal(decode_op);
        }
        let v = self.take_one(off)?;
        Ok(OpCode::Down { a: v as i32 })
    }

    fn handle_down2(&mut self, off: usize) -> (r: Result<OpCode, DecodeError>)
        requires
            old(self).wf(),
            off + 1 == old(self).pos(),
            old(self).data()[off as int] == 158,
        ensures
            handler_post(*old(self), *final(self), r, decode_op(old(self).data(), off as int)),
    {
        proof {
            reveal(decode_op);
        }
        let v = self.take_n(off, 2)?;
        Ok(OpCode::Down { a: v as i32 })
    }

    fn handle_down3(&mut self, off: usize) -> (r: Result<OpCode, DecodeError>)
        requires
            old(self).wf(),
            off + 1 == old(self).pos(),
            old(self).data()[off as int] == 159,
        ensures
            handler_post(*old(self), *final(self), r, decode_op(old(self).data(), off as int)),
    {
        proof {
            reveal(decode_op);
        }
        let v = self.take_n(off, 3)?;
        Ok(OpCode::Down { a: v as i32 })
    }

    fn handle_down4(&mut self, off: usize) -> (r: Result<OpCode, DecodeError>)
        requires
            old(self).wf(),
            off + 1 == old(self).pos(),
            old(self).data()[off as int] == 160,
        ensures
            handler_post(*old(self), *final(self), r, decode_op(old(self).data(), off as int)),
    {
        proof {
            reveal(decode_op);
        }
        let v = self.take_i32(off)?;
        Ok(OpCode::Down { a: v })
    }

    // Y

    fn handle_y0(&mut self) -> (r: OpCode)
        requires
            old(self).wf(),
        ensures
            *final(self) == *old(self),
            r@ == OpCodeView::Y0,
    {
        OpCode::Y0
    }

    fn handle_y1(&mut self, off: usize) -> (r: Result<OpCode, DecodeError>)
        requires
            old(self).wf(),
            off + 1 == old(self).pos(),
            old(self).data()[off as int] == 162,
        ensures
            handler_post(*old(self), *final(self), r, decode_op(old(self).data(), off as int)),
    {
        proof {
            reveal(decode_op);
        }
        let v = self.take_one(off)?;
        Ok(OpCode::Y { a: v as i32 })
    }

    fn handle_y2(&mut self, off: usize) -> (r: Result<OpCode, DecodeError>)
        requires
            old(self).wf(),
            off + 1 == old(self).pos(),
            old(self).data()[off as int] == 163,
        ensures
            handler_post(*old(self), *final(self), r, decode_op(old(self).data(), off as int)),
    {
        proof {
            reveal(decode_op);
        }
        let v = self.take_n(off, 2)?;
        Ok(OpCode::Y { a: v as i32 })
    }

    fn handle_y3(&mut self, off: usize) -> (r: Result<OpCode, DecodeError>)
        requires
            old(self).wf(),
            off + 1 == old(self).pos(),
            old(self).data()[off as int] == 164,
        ensures
            handler_post(*old(self), *final(self), r, decode_op(old(self).data(), off as int)),
    {
        proof {
            reveal(decode_op);
        }
        let v = self.take_n(off, 3)?;
        Ok(OpCode::Y { a: v as i32 })
    }

    fn handle_y4(&mut self, off: usize) -> (r: Result<OpCode, DecodeError>)
        requires
            old(self).wf(),
            off + 1 == old(self).pos(),
            old(self).data()[off as int] == 165,
        ensures
            handler_post(*old(self), *final(self), r, decode_op(old(self).data(), off as int)),
    {
        proof {
            reveal(decode_op);
        }
        let v = self.take_i32(off)?;
        Ok(OpCode::Y { a: v })
    }

    // Z

    fn handle_z0(&mut self) -> (r: OpCode)
        requires
            old(self).wf(),
        ensures
            *final(self) == *old(self),
            r@ == OpCodeView::Z0,
    {
        OpCode::Z0
    }

    fn handle_z1(&mut self, off: usize) -> (r: Result<OpCode, DecodeError>)
        requires
            old(self).wf(),
            off + 1 == old(self).pos(),
            old(self).data()[off as int] == 167,
        ensures
            handler_post(*old(self), *final(self), r, decode_op(old(self).data(), off as int)),
    {
        proof {
            reveal(decode_op);
        }
        let v = self.take_one(off)?;
        Ok(OpCode::Z { a: v as i32 })
    }

    fn handle_z2(&mut self, off: usize) -> (r: Result<OpCode, DecodeError>)
        requires
            old(self).wf(),
            off + 1 == old(self).pos(),
            old(self).data()[off as int] == 168,
        ensures
            handler_post(*old(self), *final(self), r, decode_op(old(self).data(), off as int)),
    {
        proof {
            reveal(decode_op);
        }
        let v = self.take_n(off, 2)?;
        Ok(OpCode::Z { a: v as i32 })
    }

    fn handle_z3(&mut self, off: usize) -> (r: Result<OpCode, DecodeError>)
        requires
            old(self).wf(),
            off + 1 == old(self).pos(),
            old(self).data()[off as int] == 169,
        ensures
            handler_post(*old(self), *final(self), r, decode_op(old(self).data(), off as int)),
    {
        proof {
            reveal(decode_op);
        }
        let v = self.take_n(off, 3)?;
        Ok(OpCode::Z { a: v as i32 })
    }

    fn handle_z4(&mut self, off: usize) -> (r: Result<OpCode, DecodeError>)
        requires
            old(self).wf(),
            off + 1 == old(self).pos(),
            old(self).data()[off as int] == 170,
        ensures
            handler_post(*old(self), *final(self), r, decode_op(old(self).data(), off as int)),
    {
        proof {
            reveal(decode_op);
        }
        let v = self.take_i32(off)?;
        Ok(OpCode::Z { a: v })
    }

    // Fonts

    fn handle_fnt_num(&mut self, byte: u8) -> (r: OpCode)
        requires
            old(self).wf(),
            171 <= byte <= 234,
        ensures
            *final(self) == *old(self),
            r@ == (OpCodeView::FntNum { k: (byte - 171) as u32 }),
    {
        OpCode::FntNum { k: (byte - 171) as u32 }
    }

    fn handle_fnt1(&mut self, off: usize) -> (r: Result<OpCode, DecodeError>)
        requires
            old(self).wf(),
            off + 1 == old(self).pos(),
            old(self).data()[off as int] == 235,
        ensures
            handler_post(*old(self), *final(self), r, decode_op(old(self).data(), off as int)),
    {
        proof {
            reveal(decode_op);
        }
        let v = self.take_one(off)?;
        Ok(OpCode::Fnt { k: v as i32 })
    }

    fn handle_fnt2(&mut self, off: usize) -> (r: Result<OpCode, DecodeError>)
        requires
            old(self).wf(),
            off + 1 == old(self).pos(),
            old(self).data()[off as int] == 236,
        ensures
            handler_post(*old(self), *final(self), r, decode_op(old(self).data(), off as int)),
    {
        proof {
            reveal(decode_op);
        }
        let v = self.take_n(off, 2)?;
        Ok(OpCode::Fnt { k: v as i32 })
    }

    fn handle_fnt3(&mut self, off: usize) -> (r: Result<OpCode, DecodeError>)
        requires
            old(self).wf(),
            off + 1 == old(self).pos(),
            old(self).data()[off as int] == 237,
        ensures
            handler_post(*old(self), *final(self), r, decode_op(old(self).data(), off as int)),
    {
        proof {
            reveal(decode_op);
        }
        let v = self.take_n(off, 3)?;
        Ok(OpCode::Fnt { k: v as i32 })
    }

    fn handle_fnt4(&mut self, off: usize) -> (r: Result<OpCode, DecodeError>)
        requires
            old(self).wf(),
            off + 1 == old(self).pos(),
            old(self).data()[off as int] == 238,
        ensures
            handler_post(*old(self), *final(self), r, decode_op(old(self).data(), off as int)),
    {
        proof {
            reveal(decode_op);
        }
        let v = self.take_i32(off)?;
        Ok(OpCode::Fnt { k: v })
    }

    // Xxx

    fn handle_xxx1(&mut self, off: usize) -> (r: Result<OpCode, DecodeError>)
        requires
            old(self).wf(),
            off + 1 == old(self).pos(),
            old(self).data()[off as int] == 239,
        ensures
            handler_post(*old(self), *final(self), r, decode_op(old(self).data(), off as int)),
    {
        proof {
            reveal(decode_op);
        }
        let k = self.take_one(off)?;
        let x = self.take_vec(off, k as u32)?;
        Ok(OpCode::Xxx { k: k as i32, x })
    }

    fn handle_xxx2(&mut self, off: usize) -> (r: Result<OpCode, DecodeError>)
        requires
            old(self).wf(),
            off + 1 == old(self).pos(),
            old(self).data()[off as int] == 240,
        ensures
            handler_post(*old(self), *final(self), r, decode_op(old(self).data(), off as int)),
    {
        proof {
            reveal(decode_op);
        }
        let k = self.take_n(off, 2)?;
        let x = self.take_vec(off, k)?;
        Ok(OpCode::Xxx { k: k as i32, x })
    }

    fn handle_xxx3(&mut self, off: usize) -> (r: Result<OpCode, DecodeError>)
        requires
            old(self).wf(),
            off + 1 == old(self).pos(),
            old(self).data()[off as int] == 241,
        ensures
            handler_post(*old(self), *final(self), r, decode_op(old(self).data(), off as int)),
    {
        proof {
            reveal(decode_op);
        }
        let k = self.take_n(off, 3)?;
        let x = self.take_vec(off, k)?;
        Ok(OpCode::Xxx { k: k as i32, x })
    }

    fn handle_xxx4(&mut self, off: usize) -> (r: Result<OpCode, DecodeError>)
        requires
            old(self).wf(),
            off + 1 == old(self).pos(),
            old(self).data()[off as int] == 242,
        ensures
            handler_post(*old(self), *final(self), r, decode_op(old(self).data(), off as int)),
    {
        proof {
            reveal(decode_op);
        }
        let k = self.take_n(off, 4)?;
        let x = self.take_vec(off, k)?;
        Ok(OpCode::Xxx { k: to_i32(k), x })
    }

    // fnt_def

    fn handle_fnt_def1(&mut self, off: usize) -> (r: Result<OpCode, DecodeError>)
        requires
            old(self).wf(),
            off + 1 == old(self).pos(),
            old(self).data()[off as int] == 243,
        ensures
            handler_post(*old(self), *final(self), r, decode_op(old(self).data(), off as int)),
    {
        proof {
            reveal(decode_op);
        }
        let k = self.take_one(off)?;
        self.handle_fnt_def(off, k as i32, Ghost(1))
    }

    fn handle_fnt_def2(&mut self, off: usize) -> (r: Result<OpCode, DecodeError>)
        requires
            old(self).wf(),
            off + 1 == old(self).pos(),
            old(self).data()[off as int] == 244,
        ensures
            handler_post(*old(self), *final(self), r, decode_op(old(self).data(), off as int)),
    {
        proof {
            reveal(decode_op);
        }
        let k = self.take_n(off, 2)?;
        self.handle_fnt_def(off, k as i32, Ghost(2))
    }

    fn handle_fnt_def3(&mut self, off: usize) -> (r: Result<OpCode, DecodeError>)
        requires
            old(self).wf(),
            off + 1 == old(self).pos(),
            old(self).data()[off as int] == 245,
        ensures
            handler_post(*old(self), *final(self), r, decode_op(old(self).data(), off as int)),
    {
        proof {
            reveal(decode_op);
        }
        let k = self.take_n(off, 3)?;
        self.handle_fnt_def(off, k as i32, Ghost(3))
    }

    fn handle_fnt_def4(&mut self, off: usize) -> (r: Result<OpCode, DecodeError>)
        requires
            old(self).wf(),
            off + 1 == old(self).pos(),
            old(self).data()[off as int] == 246,
        ensures
            handler_post(*old(self), *final(self), r, decode_op(old(self).data(), off as int)),
    {
        proof {
            reveal(decode_op);
        }
        let k = self.take_i32(off)?;
        self.handle_fnt_def(off, k, Ghost(4))
    }

    /// The shared tail of a font definition: the fields after the
    /// `w`-byte font number `k`, whose value the caller has already read.
    fn handle_fnt_def(&mut self, off: usize, k: i32, Ghost(w): Ghost<int>) -> (r: Result<
        OpCode,
        DecodeError,
    >)
        requires
            old(self).wf(),
            1 <= w <= 4,
            off + 1 + w == old(self).pos(),
            k == operand_i32(old(self).data(), off as int + 1, w),
        ensures
            handler_post(*old(self), *final(self), r, step_fnt_def(old(self).data(), off as int, w)),
    {
        let c = self.take_n(off, 4)?;
        let s = self.take_n(off, 4)?;
        let d = self.take_n(off, 4)?;
        let a = self.take_one(off)?;
        let l = self.take_one(off)?;

        let n = self.take_vec(off, a as u32 + l as u32)?;
        Ok(OpCode::FntDef { k, c, s, d, a, l, n })
    }

    // Pre and post

    fn handle_pre(&mut self, off: usize) -> (r: Result<OpCode, DecodeError>)
        requires
            old(self).wf(),
            off + 1 == old(self).pos(),
            old(self).data()[off as int] == 247,
        ensures
            handler_post(*old(self), *final(self), r, decode_op(old(self).data(), off as int)),
    {
        proof {
            reveal(decode_op);
        }
        let i = self.take_one(off)?;
        let num = self.take_n(off, 4)?;
        let den = self.take_n(off, 4)?;
        let mag = self.take_n(off, 4)?;
        let k = self.take_one(off)?;

        let x = self.take_vec(off, k as u32)?;
        Ok(OpCode::Pre { i, num, den, mag, k, x })
    }

    fn handle_post(&mut self, off: usize) -> (r: Result<OpCode, DecodeError>)
        requires
            old(self).wf(),
            off + 1 == old(self).pos(),
            old(self).data()[off as int] == 248,
        ensures
            final(self).wf(),
            final(self).data() == old(self).data(),
            (match decode_step(old(self).data(), off as int, old(self).state()) {
                Ok((op, np, st2)) => r is Ok && r->Ok_0@ == op && final(self).pos() == np
                    && final(self).state() == (DecodeState {
                    count: old(self).state().count,
                    last_bop: st2.last_bop,
                    last_post: st2.last_post,
                }),
                Err(e) => r is Err && r->Err_0 == e,
            }),
    {
        let _pointer = self.take_i32(off)?;
        self.last_post = Some(self.number_of_instructions);

        let p = self.last_bop;
        let num = self.take_n(off, 4)?;
        let den = self.take_n(off, 4)?;
        let mag = self.take_n(off, 4)?;
        let l = self.take_n(off, 4)?;
        let u = self.take_n(off, 4)?;
        let s = self.take_n(off, 2)?;
        let t = self.take_n(off, 2)?;
        Ok(OpCode::Post { p, num, den, mag, l, u, s: s as u16, t: t as u16 })
    }

    fn handle_post_post(&mut self, off: usize) -> (r: Result<OpCode, DecodeError>)
        requires
            old(self).wf(),
            off + 1 == old(self).pos(),
            old(self).data()[off as int] == 249,
        ensures
            final(self).wf(),
            final(self).data() == old(self).data(),
            final(self).state() == old(self).state(),
            (match decode_step(old(self).data(), off as int, old(self).state()) {
                Ok((op, np, st2)) => r is Ok && r->Ok_0@ == op && final(self).pos() == np,
                Err(e) => r is Err && r->Err_0 == e,
            }),
    {
        let _pointer = self.take_i32(off)?;
        let i = self.take_one(off)?;
        let result = OpCode::PostPost { q: self.last_post, i };

        // Consume padding
        let ghost s = self.bytes@;
        let ghost p1 = self.position as int;
        let ghost snap = *self;
        while self.position < self.bytes.len() && self.bytes[self.position] == 223
            invariant
                self.bytes@ == s,
                self.last_bop == snap.last_bop,
                self.last_post == snap.last_post,
                self.number_of_instructions == snap.number_of_instructions,
                self.wf(),
                p1 <= self.position as int <= s.len(),
                fill_run(s, p1) == (self.position as int - p1) + fill_run(
                    s,
                    self.position as int,
                ),
            decreases s.len() - self.position,
        {
            let total = self.bytes.len();
            assert(self.position < total);
            self.position = self.position + 1;
        }
        Ok(result)
    }

    /// Decode the one instruction whose leading byte stands at the cursor:
    /// exactly the step [`decode_step`] prescribes, error included.
    pub fn disassemble_next(&mut self) -> (r: Result<OpCode, DecodeError>)
        requires
            old(self).wf(),
            old(self).pos() < old(self).data().len(),
        ensures
            final(self).wf(),
            final(self).data() == old(self).data(),
            (match decode_step(old(self).data(), old(self).pos(), old(self).state()) {
                Ok((op, np, st2)) => r is Ok && r->Ok_0@ == op && final(self).pos() == np
                    && final(self).state() == st2,
                Err(e) => r is Err && r->Err_0 == e,
            }),
    {
        proof {
            reveal(decode_op);
        }
        let off = self.position;
        let byte = match self.consume_one_byte_as_scalar() {
            Ok(b) => b,
            Err(_) => unreached(),
        };
        let result = match byte {
            0..=127 => Ok(self.handle_set_char(byte)),
            128 => self.handle_set1(off),
            129 => self.handle_set2(off),
            130 => self.handle_set3(off),
            131 => self.handle_set4(off),
            132 => self.handle_set_rule(off),
            133 => self.handle_put1(off),
            134 => self.handle_put2(off),
            135 => self.handle_put3(off),
            136 => self.handle_put4(off),
            137 => self.handle_put_rule(off),
            138 => Ok(self.handle_nop()),
            139 => self.handle_bop(off),
            140 => Ok(self.handle_eop()),
            141 => Ok(self.handle_push()),
            142 => Ok(self.handle_pop()),
            143 => self.handle_right1(off),
            144 => self.handle_right2(off),
            145 => self.handle_right3(off),
            146 => self.handle_right4(off),
            147 => Ok(self.handle_w0()),
            148 => self.handle_w1(off),
            149 => self.handle_w2(off),
            150 => self.handle_w3(off),
            151 => self.handle_w4(off),
            152 => Ok(self.handle_x0()),
            153 => self.handle_x1(off),
            154 => self.handle_x2(off),
            155 => self.handle_x3(off),
            156 => self.handle_x4(off),
            157 => self.handle_down1(off),
            158 => self.handle_down2(off),
            159 => self.handle_down3(off),
            160 => self.handle_down4(off),
            161 => Ok(self.handle_y0()),
            162 => self.handle_y1(off),
            163 => self.handle_y2(off),
            164 => self.handle_y3(off),
            165 => self.handle_y4(off),
            166 => Ok(self.handle_z0()),
            167 => self.handle_z1(off),
            168 => self.handle_z2(off),
            169 => self.handle_z3(off),
            170 => self.handle_z4(off),
            171..=234 => Ok(self.handle_fnt_num(byte)),
            235 => self.handle_fnt1(off),
            236 => self.handle_fnt2(off),
            237 => self.handle_fnt3(off),
            238 => self.handle_fnt4(off),
            239 => self.handle_xxx1(off),
            240 => self.handle_xxx2(off),
            241 => self.handle_xxx3(off),
            242 => self.handle_xxx4(off),
            243 => self.handle_fnt_def1(off),
            244 => self.handle_fnt_def2(off),
            245 => self.handle_fnt_def3(off),
            246 => self.handle_fnt_def4(off),
            247 => self.handle_pre(off),
            248 => self.handle_post(off),
            249 => self.handle_post_post(off),
            _ => Err(DecodeError::UnknownOpcode { opcode: byte, offset: off }),
        };
        match result {
            Ok(opcode) => {
                proof {
                    lemma_step_in_bounds(old(self).data(), off as int, old(self).state());
                }
                let total = self.bytes.len();
                assert(self.number_of_instructions < total);
                self.number_of_instructions = self.number_of_instructions + 1;
                Ok(opcode)
            },
            Err(e) => Err(e),
        }
    }

    /// Decode the whole buffer from its start, with the link state fresh.
    /// The result is exactly that of [`disassemble_spec`] on the buffer.
    pub fn disassemble(&mut self) -> (r: Result<Vec<OpCode>, DecodeError>)
        ensures
            final(self).wf(),
            final(self).data() == old(self).data(),
            (match disassemble_spec(old(self).data()) {
                Ok(ops) => r is Ok && ops_view(r->Ok_0@) == ops,
                Err(e) => r is Err && r->Err_0 == e,
            }),
    {
        let mut opcodes: Vec<OpCode> = Vec::new();
        self.position = 0;
        self.last_bop = Option::None;
        self.last_post = Option::None;
        self.number_of_instructions = 0;

        let ghost s = self.bytes@;
        proof {
            if decode_from(s, 0, DecodeState::initial()) is Ok {
                assert(ops_view(Seq::<OpCode>::empty()) + decode_from(
                    s,
                    0,
                    DecodeState::initial(),
                )->Ok_0 =~= decode_from(s, 0, DecodeState::initial())->Ok_0);
            }
        }
        while self.has_more()
            invariant
                self.wf(),
                self.data() == s,
                s == old(self).data(),
                (match decode_from(s, self.pos(), self.state()) {
                    Ok(rest) => decode_from(s, 0, DecodeState::initial()) == Ok::<
                        Seq<OpCodeView>,
                        DecodeError,
                    >(ops_view(opcodes@) + rest),
                    Err(e) => decode_from(s, 0, DecodeState::initial()) == Err::<
                        Seq<OpCodeView>,
                        DecodeError,
                    >(e),
                }),
            decreases s.len() - self.pos(),
        {
            let ghost pre = *self;
            let opcode = match self.disassemble_next() {
                Err(why) => {
                    proof {
                        lemma_decode_from_step(s, pre.pos(), pre.state());
                    }
                    return Err(why);
                },
                Ok(opcode) => opcode,
            };
            proof {
                lemma_step_in_bounds(s, pre.pos(), pre.state());
                lemma_decode_from_step(s, pre.pos(), pre.state());
                let (op, np, st2) = decode_step(s, pre.pos(), pre.state())->Ok_0;
                if decode_from(s, np, st2) is Ok {
                    let rest = decode_from(s, np, st2)->Ok_0;
                    assert(ops_view(opcodes@.push(opcode)) =~= ops_view(opcodes@).push(opcode@));
                    assert(ops_view(opcodes@) + (seq![op] + rest) =~= ops_view(
                        opcodes@.push(opcode),
                    ) + rest);
                }
            }
            opcodes.push(opcode);
        }
        proof {
            lemma_decode_from_end(s, self.pos(), self.state());
        }
        Ok(opcodes)
    }
}

/// The two's-complement reinterpretation of a `u32`, computed without any
/// lossy cast.
fn to_i32(v: u32) -> (r: i32)
    ensures
        r == wrap_i32(v as nat),
{
    if v < 0x8000_0000 {
        v as i32
    } else {
        let d: u32 = u32::MAX - v;
        -(d as i32) - 1
    }
}

} // verus!
