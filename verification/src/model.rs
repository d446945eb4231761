//! Mathematical model of the instruction stream.
//!
//! Everything here is specification-level: the value of a big-endian scalar
//! field, the decoder state that threads backward links through the stream,
//! and the step/loop functions that define what decoding a buffer means.
//! The executable decoder in [`crate::disassembler`] is verified against
//! these definitions.

use vstd::prelude::*;

use crate::errors::DecodeError;
use crate::opcodes::OpCodeView;

verus! {

/// The unsigned value of a byte sequence read most-significant byte first.
pub open spec fn be_value(s: Seq<u8>) -> nat
    decreases s.len(),
{
    if s.len() == 0 {
        0
    } else {
        be_value(s.drop_last()) * 256 + (s.last() as nat)
    }
}

/// The unsigned value of the `n` bytes of `s` starting at `pos`,
/// most-significant byte first.
pub open spec fn be_value_at(s: Seq<u8>, pos: int, n: int) -> nat {
    be_value(s.subrange(pos, pos + n))
}

/// 256 to the `n`th power: the number of values a big-endian field of
/// `n` bytes can hold.
pub open spec fn pow256(n: nat) -> nat
    decreases n,
{
    if n == 0 {
        1
    } else {
        256 * pow256((n - 1) as nat)
    }
}

pub proof fn lemma_be_value_bound(s: Seq<u8>)
    ensures
        be_value(s) < pow256(s.len()),
    decreases s.len(),
{
    if s.len() > 0 {
        lemma_be_value_bound(s.drop_last());
    }
}

/// Appending one byte multiplies the value by 256 and adds the byte.
pub proof fn lemma_be_value_push(s: Seq<u8>, b: u8)
    ensures
        be_value(s.push(b)) == be_value(s) * 256 + b,
{
    assert(s.push(b).drop_last() =~= s);
    assert(s.push(b).last() == b);
}

/// A one-byte field holds the byte itself.
pub proof fn lemma_be_value_at_one(s: Seq<u8>, pos: int)
    requires
        0 <= pos < s.len(),
    ensures
        be_value_at(s, pos, 1) == s[pos],
{
    assert(s.subrange(pos, pos + 1) =~= Seq::<u8>::empty().push(s[pos]));
    lemma_be_value_push(Seq::<u8>::empty(), s[pos]);
}

/// Reading one more byte multiplies the value so far by 256 and adds it.
pub proof fn lemma_be_value_at_extend(s: Seq<u8>, pos: int, n: int)
    requires
        0 <= pos,
        0 <= n,
        pos + n + 1 <= s.len(),
    ensures
        be_value_at(s, pos, n + 1) == be_value_at(s, pos, n) * 256 + s[pos + n],
{
    assert(s.subrange(pos, pos + n + 1) =~= s.subrange(pos, pos + n).push(s[pos + n]));
    lemma_be_value_push(s.subrange(pos, pos + n), s[pos + n]);
}

/// A field of at most four bytes fits the familiar power-of-256 bounds.
pub proof fn lemma_be_value_at_small(s: Seq<u8>, pos: int, n: int)
    requires
        0 <= pos,
        0 <= n <= 4,
        pos + n <= s.len(),
    ensures
        be_value_at(s, pos, n) < 0x1_0000_0000,
        n <= 3 ==> be_value_at(s, pos, n) < 0x100_0000,
        n <= 2 ==> be_value_at(s, pos, n) < 0x1_0000,
        n <= 1 ==> be_value_at(s, pos, n) < 0x100,
{
    lemma_be_value_bound(s.subrange(pos, pos + n));
    assert(pow256(4) == 0x1_0000_0000 && pow256(3) == 0x100_0000 && pow256(2) == 0x1_0000
        && pow256(1) == 0x100) by {
        reveal_with_fuel(pow256, 5);
    }
}

/// The two's-complement reinterpretation of an unsigned 32-bit value as a
/// signed one. Four-byte operands are stored this way: the decoder applies
/// no further sign handling of its own.
pub open spec fn wrap_i32(v: nat) -> i32
    recommends
        v < 0x1_0000_0000,
{
    if v < 0x8000_0000 {
        v as i32
    } else {
        (v - 0x1_0000_0000) as i32
    }
}

/// The signed container value of an operand field of width `n` bytes at
/// `pos`: fields narrower than four bytes are taken as unsigned magnitudes
/// (no sign extension), a four-byte field is reinterpreted two's-complement.
pub open spec fn operand_i32(s: Seq<u8>, pos: int, n: int) -> i32
    recommends
        1 <= n <= 4,
{
    if n == 4 {
        wrap_i32(be_value_at(s, pos, 4))
    } else {
        be_value_at(s, pos, n) as i32
    }
}

/// The run of fill bytes (value 223) starting at `pos`: how many
/// consecutive bytes equal to 223 stand there before the first byte that
/// differs or the end of the buffer.
pub open spec fn fill_run(s: Seq<u8>, pos: int) -> nat
    decreases s.len() - pos,
{
    if pos < 0 || pos >= s.len() || s[pos] != 223 {
        0
    } else {
        1 + fill_run(s, pos + 1)
    }
}

pub proof fn lemma_fill_run_in_bounds(s: Seq<u8>, pos: int)
    requires
        0 <= pos <= s.len(),
    ensures
        pos + fill_run(s, pos) <= s.len(),
    decreases s.len() - pos,
{
    if pos < s.len() && s[pos] == 223 {
        lemma_fill_run_in_bounds(s, pos + 1);
    }
}

/// The `n`-byte big-endian encoding of `v`, the low bytes of `v` if it
/// needs more than `n`.
pub open spec fn be_encode(v: nat, n: nat) -> Seq<u8>
    decreases n,
{
    if n == 0 {
        Seq::empty()
    } else {
        be_encode(v / 256, (n - 1) as nat).push((v % 256) as u8)
    }
}

pub proof fn lemma_be_encode_len(v: nat, n: nat)
    ensures
        be_encode(v, n).len() == n,
    decreases n,
{
    if n > 0 {
        lemma_be_encode_len(v / 256, (n - 1) as nat);
    }
}

/// Decoding inverts encoding for every value the width can hold.
pub proof fn lemma_be_decode_encode(v: nat, n: nat)
    requires
        v < pow256(n),
    ensures
        be_value(be_encode(v, n)) == v,
    decreases n,
{
    if n == 0 {
        assert(be_value(Seq::<u8>::empty()) == 0);
    } else {
        assert(v / 256 < pow256((n - 1) as nat)) by {
            assert(pow256(n) == 256 * pow256((n - 1) as nat));
        }
        lemma_be_decode_encode(v / 256, (n - 1) as nat);
        lemma_be_value_push(be_encode(v / 256, (n - 1) as nat), (v % 256) as u8);
        assert(v == (v / 256) * 256 + v % 256);
    }
}

/// A run of `n` bytes of value 223 followed by the buffer end or a byte
/// that differs has a fill run of exactly `n`.
pub proof fn lemma_fill_run_exact(s: Seq<u8>, pos: int, n: nat)
    requires
        0 <= pos,
        pos + n <= s.len(),
        forall|i: int| pos <= i < pos + n ==> s[i] == 223,
        pos + n == s.len() || s[pos + n] != 223,
    ensures
        fill_run(s, pos) == n,
    decreases n,
{
    if n > 0 {
        assert(s[pos] == 223);
        lemma_fill_run_exact(s, pos + 1, (n - 1) as nat);
    }
}

/// The link-tracking state the decoder threads through the stream: how many
/// instructions have been produced, and the output-sequence indices of the
/// most recent beginning-of-page and postamble instructions, if any.
pub ghost struct DecodeState {
    pub count: nat,
    pub last_bop: Option<usize>,
    pub last_post: Option<usize>,
}

impl DecodeState {
    /// The state at the start of a decode call: nothing produced, no links.
    pub open spec fn initial() -> DecodeState {
        DecodeState { count: 0, last_bop: None, last_post: None }
    }

    /// The state after one more instruction that records no link.
    pub open spec fn next(self) -> DecodeState {
        DecodeState { count: self.count + 1, last_bop: self.last_bop, last_post: self.last_post }
    }
}

/// An instruction of `size` bytes whose shape needs no length field: `op`
/// if it fits at `pos`, an out-of-bounds error at the instruction start
/// otherwise.
pub open spec fn fixed_op(s: Seq<u8>, pos: int, size: int, op: OpCodeView) -> Result<
    (OpCodeView, int),
    DecodeError,
> {
    if pos + size <= s.len() {
        Ok((op, pos + size))
    } else {
        Err(DecodeError::OutOfBounds { offset: pos as usize })
    }
}

/// An extension instruction at `pos` with a length field of `w` bytes.
pub open spec fn step_xxx(s: Seq<u8>, pos: int, w: int) -> Result<
    (OpCodeView, int),
    DecodeError,
> {
    if pos + 1 + w <= s.len() {
        let k = be_value_at(s, pos + 1, w) as int;
        if pos + 1 + w + k <= s.len() {
            Ok(
                (
                    OpCodeView::Xxx {
                        k: operand_i32(s, pos + 1, w),
                        x: s.subrange(pos + 1 + w, pos + 1 + w + k),
                    },
                    pos + 1 + w + k,
                ),
            )
        } else {
            Err(DecodeError::OutOfBounds { offset: pos as usize })
        }
    } else {
        Err(DecodeError::OutOfBounds { offset: pos as usize })
    }
}

/// A font-definition instruction at `pos` with a font-number field of `w`
/// bytes. After the fixed fields, the area-length and name-length bytes
/// say how many name bytes follow.
pub open spec fn step_fnt_def(s: Seq<u8>, pos: int, w: int) -> Result<
    (OpCodeView, int),
    DecodeError,
> {
    let body = pos + 1 + w;
    if body + 14 <= s.len() {
        let a = s[body + 12];
        let l = s[body + 13];
        let name_end = body + 14 + a + l;
        if name_end <= s.len() {
            Ok(
                (
                    OpCodeView::FntDef {
                        k: operand_i32(s, pos + 1, w),
                        c: be_value_at(s, body, 4) as u32,
                        s: be_value_at(s, body + 4, 4) as u32,
                        d: be_value_at(s, body + 8, 4) as u32,
                        a,
                        l,
                        n: s.subrange(body + 14, name_end),
                    },
                    name_end,
                ),
            )
        } else {
            Err(DecodeError::OutOfBounds { offset: pos as usize })
        }
    } else {
        Err(DecodeError::OutOfBounds { offset: pos as usize })
    }
}

/// A preamble instruction at `pos`: fixed fields, then a comment whose
/// length is the byte before it.
pub open spec fn step_pre(s: Seq<u8>, pos: int) -> Result<(OpCodeView, int), DecodeError> {
    if pos + 15 <= s.len() {
        let k = s[pos + 14];
        if pos + 15 + k <= s.len() {
            Ok(
                (
                    OpCodeView::Pre {
                        i: s[pos + 1],
                        num: be_value_at(s, pos + 2, 4) as u32,
                        den: be_value_at(s, pos + 6, 4) as u32,
                        mag: be_value_at(s, pos + 10, 4) as u32,
                        k,
                        x: s.subrange(pos + 15, pos + 15 + k),
                    },
                    pos + 15 + k,
                ),
            )
        } else {
            Err(DecodeError::OutOfBounds { offset: pos as usize })
        }
    } else {
        Err(DecodeError::OutOfBounds { offset: pos as usize })
    }
}

/// The state-independent instructions: every arm of the dispatch table
/// except beginning-of-page, postamble and postamble pointer.
#[verifier::opaque]
pub open spec fn decode_op(s: Seq<u8>, pos: int) -> Result<(OpCodeView, int), DecodeError>
    recommends
        0 <= pos < s.len(),
{
    let b = s[pos];
    if b <= 127 {
        fixed_op(s, pos, 1, OpCodeView::SetChar { c: b as u32 })
    } else if b <= 131 {
        let w = b - 127;
        fixed_op(s, pos, 1 + w, OpCodeView::SetCode { c: operand_i32(s, pos + 1, w) })
    } else if b == 132 {
        fixed_op(
            s,
            pos,
            9,
            OpCodeView::SetRule { a: operand_i32(s, pos + 1, 4), b: operand_i32(s, pos + 5, 4) },
        )
    } else if b <= 136 {
        let w = b - 132;
        fixed_op(s, pos, 1 + w, OpCodeView::Put { c: operand_i32(s, pos + 1, w) })
    } else if b == 137 {
        fixed_op(
            s,
            pos,
            9,
            OpCodeView::PutRule { a: operand_i32(s, pos + 1, 4), b: operand_i32(s, pos + 5, 4) },
        )
    } else if b == 138 {
        fixed_op(s, pos, 1, OpCodeView::Nop)
    } else if b == 140 {
        fixed_op(s, pos, 1, OpCodeView::Eop)
    } else if b == 141 {
        fixed_op(s, pos, 1, OpCodeView::Push)
    } else if b == 142 {
        fixed_op(s, pos, 1, OpCodeView::Pop)
    } else if b <= 146 {
        let w = b - 142;
        fixed_op(s, pos, 1 + w, OpCodeView::Right { b: operand_i32(s, pos + 1, w) })
    } else if b == 147 {
        fixed_op(s, pos, 1, OpCodeView::W0)
    } else if b <= 151 {
        let w = b - 147;
        fixed_op(s, pos, 1 + w, OpCodeView::W { b: operand_i32(s, pos + 1, w) })
    } else if b == 152 {
        fixed_op(s, pos, 1, OpCodeView::X0)
    } else if b <= 156 {
        let w = b - 152;
        fixed_op(s, pos, 1 + w, OpCodeView::X { b: operand_i32(s, pos + 1, w) })
    } else if b <= 160 {
        let w = b - 156;
        fixed_op(s, pos, 1 + w, OpCodeView::Down { a: operand_i32(s, pos + 1, w) })
    } else if b == 161 {
        fixed_op(s, pos, 1, OpCodeView::Y0)
    } else if b <= 165 {
        let w = b - 161;
        fixed_op(s, pos, 1 + w, OpCodeView::Y { a: operand_i32(s, pos + 1, w) })
    } else if b == 166 {
        fixed_op(s, pos, 1, OpCodeView::Z0)
    } else if b <= 170 {
        let w = b - 166;
        fixed_op(s, pos, 1 + w, OpCodeView::Z { a: operand_i32(s, pos + 1, w) })
    } else if b <= 234 {
        fixed_op(s, pos, 1, OpCodeView::FntNum { k: (b - 171) as u32 })
    } else if b <= 238 {
        let w = b - 234;
        fixed_op(s, pos, 1 + w, OpCodeView::Fnt { k: operand_i32(s, pos + 1, w) })
    } else if b <= 242 {
        step_xxx(s, pos, b - 238)
    } else if b <= 246 {
        step_fnt_def(s, pos, b - 242)
    } else if b == 247 {
        step_pre(s, pos)
    } else {
        Err(DecodeError::UnknownOpcode { opcode: b, offset: pos as usize })
    }
}

/// One step of the dispatch loop: the instruction whose leading byte
/// stands at `pos`, the position after its encoding (fill bytes included),
/// and the decoder state after it.
pub open spec fn decode_step(s: Seq<u8>, pos: int, st: DecodeState) -> Result<
    (OpCodeView, int, DecodeState),
    DecodeError,
>
    recommends
        0 <= pos < s.len(),
{
    let b = s[pos];
    if b == 139 {
        // Beginning-of-page: the index of this instruction is recorded
        // before its fields are read; the raw back-pointer field is kept
        // in the instruction as it stands in the buffer.
        if pos + 45 <= s.len() {
            Ok(
                (
                    OpCodeView::Bop {
                        c0: operand_i32(s, pos + 1, 4),
                        c1: operand_i32(s, pos + 5, 4),
                        c2: operand_i32(s, pos + 9, 4),
                        c3: operand_i32(s, pos + 13, 4),
                        c4: operand_i32(s, pos + 17, 4),
                        c5: operand_i32(s, pos + 21, 4),
                        c6: operand_i32(s, pos + 25, 4),
                        c7: operand_i32(s, pos + 29, 4),
                        c8: operand_i32(s, pos + 33, 4),
                        c9: operand_i32(s, pos + 37, 4),
                        p: operand_i32(s, pos + 41, 4),
                    },
                    pos + 45,
                    DecodeState {
                        count: st.count + 1,
                        last_bop: Some(st.count as usize),
                        last_post: st.last_post,
                    },
                ),
            )
        } else {
            Err(DecodeError::OutOfBounds { offset: pos as usize })
        }
    } else if b == 248 {
        // Postamble: the raw 4-byte pointer after the opcode is read and
        // discarded; the link field is the index of the most recent
        // beginning-of-page instruction instead.
        if pos + 29 <= s.len() {
            Ok(
                (
                    OpCodeView::Post {
                        p: st.last_bop,
                        num: be_value_at(s, pos + 5, 4) as u32,
                        den: be_value_at(s, pos + 9, 4) as u32,
                        mag: be_value_at(s, pos + 13, 4) as u32,
                        l: be_value_at(s, pos + 17, 4) as u32,
                        u: be_value_at(s, pos + 21, 4) as u32,
                        s: be_value_at(s, pos + 25, 2) as u16,
                        t: be_value_at(s, pos + 27, 2) as u16,
                    },
                    pos + 29,
                    DecodeState {
                        count: st.count + 1,
                        last_bop: st.last_bop,
                        last_post: Some(st.count as usize),
                    },
                ),
            )
        } else {
            Err(DecodeError::OutOfBounds { offset: pos as usize })
        }
    } else if b == 249 {
        // Postamble pointer: the raw 4-byte pointer is read and discarded,
        // the link field is the index of the most recent postamble, and
        // the trailing run of fill bytes is consumed without being kept.
        if pos + 6 <= s.len() {
            Ok(
                (
                    OpCodeView::PostPost { q: st.last_post, i: s[pos + 5] },
                    pos + 6 + fill_run(s, pos + 6),
                    st.next(),
                ),
            )
        } else {
            Err(DecodeError::OutOfBounds { offset: pos as usize })
        }
    } else {
        match decode_op(s, pos) {
            Ok((op, np)) => Ok((op, np, st.next())),
            Err(e) => Err(e),
        }
    }
}

/// A successful step consumes at least the leading byte and never runs
/// past the end of the buffer.
pub proof fn lemma_step_in_bounds(s: Seq<u8>, pos: int, st: DecodeState)
    requires
        0 <= pos < s.len(),
    ensures
        match decode_step(s, pos, st) {
            Ok((op, np, st2)) => pos < np <= s.len() && st2.count == st.count + 1,
            Err(e) => true,
        },
{
    reveal(decode_op);
    if s[pos] == 249 && pos + 6 <= s.len() {
        lemma_fill_run_in_bounds(s, pos + 6);
    }
}

/// The instruction sequence decoded from `pos` to the end of the buffer,
/// starting in state `st`: empty once the buffer is exhausted, otherwise
/// one step and the sequence after it, stopping at the first error.
pub open spec fn decode_from(s: Seq<u8>, pos: int, st: DecodeState) -> Result<
    Seq<OpCodeView>,
    DecodeError,
>
    decreases s.len() - pos,
{
    if pos < 0 || pos >= s.len() {
        Ok(Seq::empty())
    } else {
        match decode_step(s, pos, st) {
            Err(e) => Err(e),
            Ok((op, np, st2)) => {
                proof {
                    lemma_step_in_bounds(s, pos, st);
                }
                match decode_from(s, np, st2) {
                    Err(e) => Err(e),
                    Ok(rest) => Ok(seq![op] + rest),
                }
            },
        }
    }
}

/// One unfolding of [`decode_from`] at a position inside the buffer.
pub proof fn lemma_decode_from_step(s: Seq<u8>, pos: int, st: DecodeState)
    requires
        0 <= pos < s.len(),
    ensures
        decode_from(s, pos, st) == (match decode_step(s, pos, st) {
            Err(e) => Err::<Seq<OpCodeView>, DecodeError>(e),
            Ok((op, np, st2)) => match decode_from(s, np, st2) {
                Err(e) => Err::<Seq<OpCodeView>, DecodeError>(e),
                Ok(rest) => Ok(seq![op] + rest),
            },
        }),
{
}

/// Past the end of the buffer nothing more is decoded.
pub proof fn lemma_decode_from_end(s: Seq<u8>, pos: int, st: DecodeState)
    requires
        pos >= s.len(),
    ensures
        decode_from(s, pos, st) == Ok::<Seq<OpCodeView>, DecodeError>(Seq::<OpCodeView>::empty()),
{
}

/// What decoding a whole buffer means: the ordered instruction sequence,
/// or the first error.
pub open spec fn disassemble_spec(s: Seq<u8>) -> Result<Seq<OpCodeView>, DecodeError> {
    decode_from(s, 0, DecodeState::initial())
}

} // verus!
