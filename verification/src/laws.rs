//! Laws of the decoder, each proved once and for all inputs: what single
//! instructions decode to, how encoded operands round-trip through the
//! decoder, how the backward links are resolved, and how fill bytes are
//! consumed.

use vstd::prelude::*;

use crate::errors::DecodeError;
use crate::model::{
    be_encode, be_value_at, decode_from, decode_op, decode_step, disassemble_spec,
    lemma_be_decode_encode, lemma_be_encode_len, lemma_be_value_at_small, lemma_decode_from_end,
    lemma_decode_from_step, lemma_fill_run_exact, lemma_step_in_bounds, operand_i32, pow256,
    DecodeState,
};
use crate::opcodes::OpCodeView;

verus! {

/// A buffer whose first step consumes it whole decodes to that one
/// instruction.
proof fn lemma_single_step(s: Seq<u8>, op: OpCodeView, st2: DecodeState)
    requires
        s.len() > 0,
        decode_step(s, 0, DecodeState::initial()) == Ok::<
            (OpCodeView, int, DecodeState),
            DecodeError,
        >((op, s.len() as int, st2)),
    ensures
        disassemble_spec(s) == Ok::<Seq<OpCodeView>, DecodeError>(seq![op]),
{
    lemma_decode_from_step(s, 0, DecodeState::initial());
    lemma_decode_from_end(s, s.len() as int, st2);
    assert(seq![op] + Seq::<OpCodeView>::empty() =~= seq![op]);
}

/// An opcode byte followed by the `w`-byte encoding of `v` carries `v` as
/// its operand field.
proof fn lemma_encoded_operand(head: Seq<u8>, w: int, v: nat)
    requires
        head.len() == 1,
        1 <= w <= 4,
        v < pow256(w as nat),
        w == 4 ==> v < 0x8000_0000,
    ensures
        ({
            let s = head + be_encode(v, w as nat);
            s.len() == 1 + w && s[0] == head[0] && be_value_at(s, 1, w) == v && operand_i32(
                s,
                1,
                w,
            ) == v as i32
        }),
{
    lemma_be_encode_len(v, w as nat);
    let s = head + be_encode(v, w as nat);
    assert(s.subrange(1, 1 + w) =~= be_encode(v, w as nat));
    lemma_be_decode_encode(v, w as nat);
    lemma_be_value_at_small(s, 1, w);
}

/// Decoding a one-byte buffer holding 0-127 yields exactly one
/// character-placement instruction with that code.
pub proof fn law_set_char_single(b: u8)
    requires
        b <= 127,
    ensures
        disassemble_spec(seq![b]) == Ok::<Seq<OpCodeView>, DecodeError>(
            seq![OpCodeView::SetChar { c: b as u32 }],
        ),
{
    reveal(decode_op);
    lemma_single_step(
        seq![b],
        OpCodeView::SetChar { c: b as u32 },
        DecodeState::initial().next(),
    );
}

/// Decoding a one-byte buffer holding 171-234 yields exactly one
/// font-selection instruction whose font number is the byte minus 171.
pub proof fn law_fnt_num_single(b: u8)
    requires
        171 <= b <= 234,
    ensures
        disassemble_spec(seq![b]) == Ok::<Seq<OpCodeView>, DecodeError>(
            seq![OpCodeView::FntNum { k: (b - 171) as u32 }],
        ),
{
    reveal(decode_op);
    lemma_single_step(
        seq![b],
        OpCodeView::FntNum { k: (b - 171) as u32 },
        DecodeState::initial().next(),
    );
}

/// Decoding an empty buffer yields an empty instruction sequence, not an
/// error.
pub proof fn law_empty_buffer()
    ensures
        disassemble_spec(Seq::<u8>::empty()) == Ok::<Seq<OpCodeView>, DecodeError>(
            Seq::<OpCodeView>::empty(),
        ),
{
}

/// Decoding a buffer whose first byte is outside every defined range fails
/// with an unknown-opcode error carrying that byte and offset zero,
/// whatever follows.
pub proof fn law_unknown_opcode(b: u8, rest: Seq<u8>)
    requires
        b >= 250,
    ensures
        disassemble_spec(seq![b] + rest) == Err::<Seq<OpCodeView>, DecodeError>(
            DecodeError::UnknownOpcode { opcode: b, offset: 0 },
        ),
{
    reveal(decode_op);
    let s = seq![b] + rest;
    lemma_decode_from_step(s, 0, DecodeState::initial());
}

/// Round trip for the explicit character codes: opcode 127 + w followed by
/// the `w`-byte encoding of `v` decodes to one set instruction with
/// operand `v`.
pub proof fn law_set_code_round_trip(w: int, v: nat)
    requires
        1 <= w <= 4,
        v < pow256(w as nat),
        w == 4 ==> v < 0x8000_0000,
    ensures
        disassemble_spec(seq![(127 + w) as u8] + be_encode(v, w as nat)) == Ok::<
            Seq<OpCodeView>,
            DecodeError,
        >(seq![OpCodeView::SetCode { c: v as i32 }]),
{
    let s = seq![(127 + w) as u8] + be_encode(v, w as nat);
    lemma_encoded_operand(seq![(127 + w) as u8], w, v);
    reveal(decode_op);
    lemma_single_step(s, OpCodeView::SetCode { c: v as i32 }, DecodeState::initial().next());
}

/// Round trip for the put character codes (opcodes 133-136).
pub proof fn law_put_round_trip(w: int, v: nat)
    requires
        1 <= w <= 4,
        v < pow256(w as nat),
        w == 4 ==> v < 0x8000_0000,
    ensures
        disassemble_spec(seq![(132 + w) as u8] + be_encode(v, w as nat)) == Ok::<
            Seq<OpCodeView>,
            DecodeError,
        >(seq![OpCodeView::Put { c: v as i32 }]),
{
    let s = seq![(132 + w) as u8] + be_encode(v, w as nat);
    lemma_encoded_operand(seq![(132 + w) as u8], w, v);
    reveal(decode_op);
    lemma_single_step(s, OpCodeView::Put { c: v as i32 }, DecodeState::initial().next());
}

/// Round trip for the rightward movements (opcodes 143-146).
pub proof fn law_right_round_trip(w: int, v: nat)
    requires
        1 <= w <= 4,
        v < pow256(w as nat),
        w == 4 ==> v < 0x8000_0000,
    ensures
        disassemble_spec(seq![(142 + w) as u8] + be_encode(v, w as nat)) == Ok::<
            Seq<OpCodeView>,
            DecodeError,
        >(seq![OpCodeView::Right { b: v as i32 }]),
{
    let s = seq![(142 + w) as u8] + be_encode(v, w as nat);
    lemma_encoded_operand(seq![(142 + w) as u8], w, v);
    reveal(decode_op);
    lemma_single_step(s, OpCodeView::Right { b: v as i32 }, DecodeState::initial().next());
}

/// Round trip for the `w` movements with an argument (opcodes 148-151).
pub proof fn law_w_round_trip(w: int, v: nat)
    requires
        1 <= w <= 4,
        v < pow256(w as nat),
        w == 4 ==> v < 0x8000_0000,
    ensures
        disassemble_spec(seq![(147 + w) as u8] + be_encode(v, w as nat)) == Ok::<
            Seq<OpCodeView>,
            DecodeError,
        >(seq![OpCodeView::W { b: v as i32 }]),
{
    let s = seq![(147 + w) as u8] + be_encode(v, w as nat);
    lemma_encoded_operand(seq![(147 + w) as u8], w, v);
    reveal(decode_op);
    lemma_single_step(s, OpCodeView::W { b: v as i32 }, DecodeState::initial().next());
}

/// Round trip for the `x` movements with an argument (opcodes 153-156).
pub proof fn law_x_round_trip(w: int, v: nat)
    requires
        1 <= w <= 4,
        v < pow256(w as nat),
        w == 4 ==> v < 0x8000_0000,
    ensures
        disassemble_spec(seq![(152 + w) as u8] + be_encode(v, w as nat)) == Ok::<
            Seq<OpCodeView>,
            DecodeError,
        >(seq![OpCodeView::X { b: v as i32 }]),
{
    let s = seq![(152 + w) as u8] + be_encode(v, w as nat);
    lemma_encoded_operand(seq![(152 + w) as u8], w, v);
    reveal(decode_op);
    lemma_single_step(s, OpCodeView::X { b: v as i32 }, DecodeState::initial().next());
}

/// Round trip for the downward movements (opcodes 157-160).
pub proof fn law_down_round_trip(w: int, v: nat)
    requires
        1 <= w <= 4,
        v < pow256(w as nat),
        w == 4 ==> v < 0x8000_0000,
    ensures
        disassemble_spec(seq![(156 + w) as u8] + be_encode(v, w as nat)) == Ok::<
            Seq<OpCodeView>,
            DecodeError,
        >(seq![OpCodeView::Down { a: v as i32 }]),
{
    let s = seq![(156 + w) as u8] + be_encode(v, w as nat);
    lemma_encoded_operand(seq![(156 + w) as u8], w, v);
    reveal(decode_op);
    lemma_single_step(s, OpCodeView::Down { a: v as i32 }, DecodeState::initial().next());
}

/// Round trip for the `y` movements with an argument (opcodes 162-165).
pub proof fn law_y_round_trip(w: int, v: nat)
    requires
        1 <= w <= 4,
        v < pow256(w as nat),
        w == 4 ==> v < 0x8000_0000,
    ensures
        disassemble_spec(seq![(161 + w) as u8] + be_encode(v, w as nat)) == Ok::<
            Seq<OpCodeView>,
            DecodeError,
        >(seq![OpCodeView::Y { a: v as i32 }]),
{
    let s = seq![(161 + w) as u8] + be_encode(v, w as nat);
    lemma_encoded_operand(seq![(161 + w) as u8], w, v);
    reveal(decode_op);
    lemma_single_step(s, OpCodeView::Y { a: v as i32 }, DecodeState::initial().next());
}

/// Round trip for the `z` movements with an argument (opcodes 167-170).
pub proof fn law_z_round_trip(w: int, v: nat)
    requires
        1 <= w <= 4,
        v < pow256(w as nat),
        w == 4 ==> v < 0x8000_0000,
    ensures
        disassemble_spec(seq![(166 + w) as u8] + be_encode(v, w as nat)) == Ok::<
            Seq<OpCodeView>,
            DecodeError,
        >(seq![OpCodeView::Z { a: v as i32 }]),
{
    let s = seq![(166 + w) as u8] + be_encode(v, w as nat);
    lemma_encoded_operand(seq![(166 + w) as u8], w, v);
    reveal(decode_op);
    lemma_single_step(s, OpCodeView::Z { a: v as i32 }, DecodeState::initial().next());
}

/// Round trip for the explicit font selections (opcodes 235-238).
pub proof fn law_fnt_round_trip(w: int, v: nat)
    requires
        1 <= w <= 4,
        v < pow256(w as nat),
        w == 4 ==> v < 0x8000_0000,
    ensures
        disassemble_spec(seq![(234 + w) as u8] + be_encode(v, w as nat)) == Ok::<
            Seq<OpCodeView>,
            DecodeError,
        >(seq![OpCodeView::Fnt { k: v as i32 }]),
{
    let s = seq![(234 + w) as u8] + be_encode(v, w as nat);
    lemma_encoded_operand(seq![(234 + w) as u8], w, v);
    reveal(decode_op);
    lemma_single_step(s, OpCodeView::Fnt { k: v as i32 }, DecodeState::initial().next());
}

/// Round trip for rule placement: opcode 132 (set) or 137 (put) followed by
/// two four-byte fields decodes to one rule instruction with those height
/// and width values.
pub proof fn law_rule_round_trip(set_variant: bool, a: nat, b: nat)
    requires
        a < 0x8000_0000,
        b < 0x8000_0000,
    ensures
        ({
            let s = seq![if set_variant { 132u8 } else { 137u8 }] + be_encode(a, 4) + be_encode(
                b,
                4,
            );
            disassemble_spec(s) == Ok::<Seq<OpCodeView>, DecodeError>(
                seq![
                    if set_variant {
                        OpCodeView::SetRule { a: a as i32, b: b as i32 }
                    } else {
                        OpCodeView::PutRule { a: a as i32, b: b as i32 }
                    },
                ],
            )
        }),
{
    let s = seq![if set_variant { 132u8 } else { 137u8 }] + be_encode(a, 4) + be_encode(b, 4);
    lemma_be_encode_len(a, 4);
    lemma_be_encode_len(b, 4);
    assert(pow256(4) == 0x1_0000_0000) by {
        reveal_with_fuel(pow256, 5);
    }
    assert(s.subrange(1, 5) =~= be_encode(a, 4));
    assert(s.subrange(5, 9) =~= be_encode(b, 4));
    lemma_be_decode_encode(a, 4);
    lemma_be_decode_encode(b, 4);
    reveal(decode_op);
    let op = if set_variant {
        OpCodeView::SetRule { a: a as i32, b: b as i32 }
    } else {
        OpCodeView::PutRule { a: a as i32, b: b as i32 }
    };
    lemma_single_step(s, op, DecodeState::initial().next());
}

/// Round trip for extensions: opcode 238 + w, the `w`-byte encoding of the
/// payload length, and the payload itself decode to one extension
/// instruction holding the payload verbatim.
pub proof fn law_xxx_round_trip(w: int, payload: Seq<u8>)
    requires
        1 <= w <= 4,
        payload.len() < pow256(w as nat),
        payload.len() < 0x8000_0000,
    ensures
        disassemble_spec(seq![(238 + w) as u8] + be_encode(payload.len(), w as nat) + payload)
            == Ok::<Seq<OpCodeView>, DecodeError>(
            seq![OpCodeView::Xxx { k: payload.len() as i32, x: payload }],
        ),
{
    let s = seq![(238 + w) as u8] + be_encode(payload.len(), w as nat) + payload;
    lemma_be_encode_len(payload.len(), w as nat);
    assert(s.subrange(1, 1 + w) =~= be_encode(payload.len(), w as nat));
    assert(s.subrange(1 + w, s.len() as int) =~= payload);
    lemma_be_decode_encode(payload.len(), w as nat);
    lemma_be_value_at_small(s, 1, w);
    reveal(decode_op);
    lemma_single_step(
        s,
        OpCodeView::Xxx { k: payload.len() as i32, x: payload },
        DecodeState::initial().next(),
    );
}

/// An extension whose declared length exceeds the bytes that follow fails
/// with an out-of-bounds error at the instruction start.
pub proof fn law_xxx_short_payload(w: int, declared: nat, payload: Seq<u8>)
    requires
        1 <= w <= 4,
        declared < pow256(w as nat),
        payload.len() < declared,
    ensures
        disassemble_spec(seq![(238 + w) as u8] + be_encode(declared, w as nat) + payload) == Err::<
            Seq<OpCodeView>,
            DecodeError,
        >(DecodeError::OutOfBounds { offset: 0 }),
{
    let s = seq![(238 + w) as u8] + be_encode(declared, w as nat) + payload;
    lemma_be_encode_len(declared, w as nat);
    assert(s.subrange(1, 1 + w) =~= be_encode(declared, w as nat));
    lemma_be_decode_encode(declared, w as nat);
    reveal(decode_op);
    lemma_decode_from_step(s, 0, DecodeState::initial());
}

/// Round trip for the preamble: format byte, three scale fields, and a
/// length-prefixed comment held verbatim.
pub proof fn law_pre_round_trip(fmt: u8, num: nat, den: nat, mag: nat, k: u8, comment: Seq<u8>)
    requires
        num < 0x1_0000_0000,
        den < 0x1_0000_0000,
        mag < 0x1_0000_0000,
        comment.len() == k,
    ensures
        ({
            let s = seq![247u8, fmt] + be_encode(num, 4) + be_encode(den, 4) + be_encode(mag, 4)
                + seq![k] + comment;
            disassemble_spec(s) == Ok::<Seq<OpCodeView>, DecodeError>(
                seq![
                    OpCodeView::Pre {
                        i: fmt,
                        num: num as u32,
                        den: den as u32,
                        mag: mag as u32,
                        k,
                        x: comment,
                    },
                ],
            )
        }),
{
    let s = seq![247u8, fmt] + be_encode(num, 4) + be_encode(den, 4) + be_encode(mag, 4) + seq![k]
        + comment;
    lemma_be_encode_len(num, 4);
    lemma_be_encode_len(den, 4);
    lemma_be_encode_len(mag, 4);
    assert(pow256(4) == 0x1_0000_0000) by {
        reveal_with_fuel(pow256, 5);
    }
    assert(s.subrange(2, 6) =~= be_encode(num, 4));
    assert(s.subrange(6, 10) =~= be_encode(den, 4));
    assert(s.subrange(10, 14) =~= be_encode(mag, 4));
    assert(s.subrange(15, s.len() as int) =~= comment);
    lemma_be_decode_encode(num, 4);
    lemma_be_decode_encode(den, 4);
    lemma_be_decode_encode(mag, 4);
    reveal(decode_op);
    lemma_single_step(
        s,
        OpCodeView::Pre { i: fmt, num: num as u32, den: den as u32, mag: mag as u32, k, x: comment },
        DecodeState::initial().next(),
    );
}

/// Round trip for a font definition: opcode 242 + w, the `w`-byte font
/// number, checksum, design and "at" sizes, the area and name lengths, and
/// exactly that many name bytes, held verbatim.
pub proof fn law_fnt_def_round_trip(
    w: int,
    k: nat,
    c: nat,
    sz: nat,
    d: nat,
    a: u8,
    l: u8,
    name: Seq<u8>,
)
    requires
        1 <= w <= 4,
        k < pow256(w as nat),
        w == 4 ==> k < 0x8000_0000,
        c < 0x1_0000_0000,
        sz < 0x1_0000_0000,
        d < 0x1_0000_0000,
        name.len() == a + l,
    ensures
        ({
            let s = seq![(242 + w) as u8] + be_encode(k, w as nat) + be_encode(c, 4) + be_encode(
                sz,
                4,
            ) + be_encode(d, 4) + seq![a, l] + name;
            disassemble_spec(s) == Ok::<Seq<OpCodeView>, DecodeError>(
                seq![
                    OpCodeView::FntDef {
                        k: k as i32,
                        c: c as u32,
                        s: sz as u32,
                        d: d as u32,
                        a,
                        l,
                        n: name,
                    },
                ],
            )
        }),
{
    let s = seq![(242 + w) as u8] + be_encode(k, w as nat) + be_encode(c, 4) + be_encode(sz, 4)
        + be_encode(d, 4) + seq![a, l] + name;
    lemma_be_encode_len(k, w as nat);
    lemma_be_encode_len(c, 4);
    lemma_be_encode_len(sz, 4);
    lemma_be_encode_len(d, 4);
    assert(pow256(4) == 0x1_0000_0000) by {
        reveal_with_fuel(pow256, 5);
    }
    let body = 1 + w;
    assert(s.subrange(1, 1 + w) =~= be_encode(k, w as nat));
    assert(s.subrange(body, body + 4) =~= be_encode(c, 4));
    assert(s.subrange(body + 4, body + 8) =~= be_encode(sz, 4));
    assert(s.subrange(body + 8, body + 12) =~= be_encode(d, 4));
    assert(s[body + 12] == a);
    assert(s[body + 13] == l);
    assert(s.subrange(body + 14, s.len() as int) =~= name);
    lemma_be_decode_encode(k, w as nat);
    lemma_be_decode_encode(c, 4);
    lemma_be_decode_encode(sz, 4);
    lemma_be_decode_encode(d, 4);
    lemma_be_value_at_small(s, 1, w);
    reveal(decode_op);
    lemma_single_step(
        s,
        OpCodeView::FntDef { k: k as i32, c: c as u32, s: sz as u32, d: d as u32, a, l, n: name },
        DecodeState::initial().next(),
    );
}

/// A beginning-of-page instruction followed by a postamble yields a
/// postamble whose link is the beginning-of-page's output index (zero),
/// whatever raw bytes stand in the two instructions' own pointer fields.
pub proof fn law_post_links_to_bop(counters: Seq<u8>, tail: Seq<u8>)
    requires
        counters.len() == 44,
        tail.len() == 28,
    ensures
        ({
            let s = seq![139u8] + counters + seq![248u8] + tail;
            &&& disassemble_spec(s) is Ok
            &&& disassemble_spec(s)->Ok_0.len() == 2
            &&& disassemble_spec(s)->Ok_0[0] is Bop
            &&& (disassemble_spec(s)->Ok_0[1] matches OpCodeView::Post { p, .. } && p == Some(
                0usize,
            ))
        }),
{
    let s = seq![139u8] + counters + seq![248u8] + tail;
    let st0 = DecodeState::initial();
    assert(s[0] == 139);
    assert(s[45] == 248);
    lemma_decode_from_step(s, 0, st0);
    let (op0, np0, st1) = decode_step(s, 0, st0)->Ok_0;
    assert(np0 == 45 && st1.last_bop == Some(0usize));
    lemma_decode_from_step(s, 45, st1);
    let (op1, np1, st2) = decode_step(s, 45, st1)->Ok_0;
    assert(np1 == s.len() && (op1 matches OpCodeView::Post { p, .. } && p == Some(0usize)));
    lemma_decode_from_end(s, np1, st2);
    assert(disassemble_spec(s)->Ok_0 =~= seq![op0] + (seq![op1] + Seq::<OpCodeView>::empty()));
    assert(disassemble_spec(s)->Ok_0.len() == 2);
    assert(disassemble_spec(s)->Ok_0[0] == op0);
    assert(disassemble_spec(s)->Ok_0[1] == op1);
}

/// The sequence of `m` no-op instructions.
spec fn nop_run(m: nat) -> Seq<OpCodeView> {
    Seq::new(m, |i: int| OpCodeView::Nop)
}

/// Decoding a run of `m` no-op bytes produces `m` no-op instructions and
/// leaves the link state alone, the instruction count apart.
proof fn lemma_nop_run(s: Seq<u8>, pos: int, st: DecodeState, m: nat)
    requires
        0 <= pos,
        pos + m <= s.len(),
        forall|i: int| pos <= i < pos + m ==> s[i] == 138,
    ensures
        (match decode_from(
            s,
            pos + m,
            DecodeState { count: st.count + m, last_bop: st.last_bop, last_post: st.last_post },
        ) {
            Ok(rest) => decode_from(s, pos, st) == Ok::<Seq<OpCodeView>, DecodeError>(
                nop_run(m) + rest,
            ),
            Err(e) => decode_from(s, pos, st) == Err::<Seq<OpCodeView>, DecodeError>(e),
        }),
    decreases m,
{
    let stm = DecodeState { count: st.count + m, last_bop: st.last_bop, last_post: st.last_post };
    if m == 0 {
        assert(stm == st);
        match decode_from(s, pos, st) {
            Ok(rest) => {
                assert(nop_run(0) + rest =~= rest);
            },
            Err(_) => {
            },
        }
    } else {
        reveal(decode_op);
        lemma_decode_from_step(s, pos, st);
        lemma_nop_run(s, pos + 1, st.next(), (m - 1) as nat);
        assert(decode_step(s, pos, st) == Ok::<(OpCodeView, int, DecodeState), DecodeError>(
            (OpCodeView::Nop, pos + 1, st.next()),
        ));
        match decode_from(s, pos + m, stm) {
            Ok(rest) => {
                assert(nop_run(m) + rest =~= seq![OpCodeView::Nop] + (nop_run((m - 1) as nat)
                    + rest));
            },
            Err(_) => {
            },
        }
    }
}

/// A beginning-of-page instruction followed later by a postamble — here
/// with any number of instructions between the two — still yields a
/// postamble whose link is the beginning-of-page's output index.
pub proof fn law_post_links_to_bop_later(counters: Seq<u8>, m: nat, tail: Seq<u8>)
    requires
        counters.len() == 44,
        tail.len() == 28,
    ensures
        ({
            let s = seq![139u8] + counters + Seq::new(m, |i: int| 138u8) + seq![248u8] + tail;
            &&& disassemble_spec(s) is Ok
            &&& disassemble_spec(s)->Ok_0.len() == m + 2
            &&& (disassemble_spec(s)->Ok_0[m + 1 as int] matches OpCodeView::Post { p, .. } && p
                == Some(0usize))
        }),
{
    let s = seq![139u8] + counters + Seq::new(m, |i: int| 138u8) + seq![248u8] + tail;
    let st0 = DecodeState::initial();
    assert(s[0] == 139);
    lemma_decode_from_step(s, 0, st0);
    let (op0, np0, st1) = decode_step(s, 0, st0)->Ok_0;
    assert(np0 == 45 && st1.last_bop == Some(0usize) && st1.count == 1);
    assert(forall|i: int| 45 <= i < 45 + m ==> s[i] == 138);
    lemma_nop_run(s, 45, st1, m);
    let stm = DecodeState { count: st1.count + m, last_bop: st1.last_bop, last_post: st1.last_post };
    assert(s[45 + m as int] == 248);
    lemma_decode_from_step(s, 45 + m as int, stm);
    let (op1, np1, st2) = decode_step(s, 45 + m as int, stm)->Ok_0;
    assert(np1 == s.len() && (op1 matches OpCodeView::Post { p, .. } && p == Some(0usize)));
    lemma_decode_from_end(s, np1, st2);
    let ops = seq![op0] + (nop_run(m) + (seq![op1] + Seq::<OpCodeView>::empty()));
    assert(disassemble_spec(s)->Ok_0 == ops);
    assert(ops.len() == m + 2);
    assert(ops[m + 1 as int] == op1);
}

/// A postamble with no beginning-of-page before it carries an absent link.
pub proof fn law_post_without_bop(tail: Seq<u8>)
    requires
        tail.len() == 28,
    ensures
        ({
            let s = seq![248u8] + tail;
            &&& disassemble_spec(s) is Ok
            &&& disassemble_spec(s)->Ok_0.len() == 1
            &&& (disassemble_spec(s)->Ok_0[0] matches OpCodeView::Post { p, .. } && p is None)
        }),
{
    let s = seq![248u8] + tail;
    let st0 = DecodeState::initial();
    lemma_decode_from_step(s, 0, st0);
    let (op0, np0, st1) = decode_step(s, 0, st0)->Ok_0;
    lemma_decode_from_end(s, np0, st1);
    assert(disassemble_spec(s)->Ok_0 =~= seq![op0]);
}

/// A postamble pointer consumes its five fixed operand bytes, then exactly
/// the run of 223-valued fill bytes after them, and dispatch resumes at the
/// first byte that differs (here the start of `rest`), whatever the decoder
/// state was.
pub proof fn law_post_post_fill(head: Seq<u8>, n: nat, rest: Seq<u8>, st: DecodeState)
    requires
        head.len() == 5,
        rest.len() == 0 || rest[0] != 223,
    ensures
        ({
            let s = seq![249u8] + head + Seq::new(n, |i: int| 223u8) + rest;
            decode_step(s, 0, st) == Ok::<(OpCodeView, int, DecodeState), DecodeError>(
                (OpCodeView::PostPost { q: st.last_post, i: head[4] }, 6 + n as int, st.next()),
            )
        }),
{
    let s = seq![249u8] + head + Seq::new(n, |i: int| 223u8) + rest;
    assert(forall|i: int| 6 <= i < 6 + n ==> s[i] == 223);
    assert(6 + n == s.len() || s[6 + n as int] != 223);
    lemma_fill_run_exact(s, 6, n);
}

/// Whether every link the instruction resolves points below `idx`.
pub open spec fn links_before(op: OpCodeView, idx: int) -> bool {
    &&& (op matches OpCodeView::Post { p, .. } ==> (p matches Some(j) ==> j < idx))
    &&& (op matches OpCodeView::PostPost { q, .. } ==> (q matches Some(j) ==> j < idx))
}

/// The inductive heart of [`law_links_point_backward`]: starting from a
/// state whose remembered indices lie below its instruction count, every
/// decoded instruction's links lie below that instruction's own index.
proof fn lemma_links_backward_from(s: Seq<u8>, pos: int, st: DecodeState)
    requires
        0 <= pos,
        (st.last_bop matches Some(j) ==> j < st.count),
        (st.last_post matches Some(j) ==> j < st.count),
    ensures
        (decode_from(s, pos, st) matches Ok(ops) ==> forall|i: int|
            0 <= i < ops.len() ==> links_before(#[trigger] ops[i], st.count + i)),
    decreases s.len() - pos,
{
    if 0 <= pos < s.len() {
        match decode_step(s, pos, st) {
            Err(_) => {
            },
            Ok((op, np, st2)) => {
                lemma_step_in_bounds(s, pos, st);
                lemma_decode_from_step(s, pos, st);
                lemma_links_backward_from(s, np, st2);
                reveal(decode_op);
                match decode_from(s, np, st2) {
                    Err(_) => {
                    },
                    Ok(rest) => {
                        let ops = seq![op] + rest;
                        assert(links_before(op, st.count as int));
                        assert forall|i: int| 0 <= i < ops.len() implies links_before(
                            #[trigger] ops[i],
                            st.count + i,
                        ) by {
                            if i > 0 {
                                assert(ops[i] == rest[i - 1]);
                                assert(links_before(rest[i - 1], st2.count + (i - 1)));
                            }
                        }
                    },
                }
            },
        }
    }
}

/// Every link a decode resolves points to an earlier (lower-index)
/// instruction of the same output sequence.
pub proof fn law_links_point_backward(s: Seq<u8>)
    ensures
        (disassemble_spec(s) matches Ok(ops) ==> forall|i: int|
            0 <= i < ops.len() ==> links_before(#[trigger] ops[i], i)),
{
    lemma_links_backward_from(s, 0, DecodeState::initial());
}

} // verus!

