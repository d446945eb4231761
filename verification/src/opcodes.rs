//! The decoded instruction type and its specification-level view.

use vstd::prelude::*;

verus! {

/// One decoded unit of the opcode stream, tagged by shape.
///
/// Operand fields narrower than four bytes are decoded as unsigned
/// big-endian magnitudes; a four-byte field is reinterpreted as a
/// two's-complement `i32`. No sign extension is applied to the narrower
/// widths, so a signed container (`i32`) never holds a negative value that
/// came from a 1-3 byte field.
///
/// The `p` field of [`OpCode::Post`] and the `q` field of
/// [`OpCode::PostPost`] are backward links, stored as indices into the
/// output sequence of the decode call (or `None` when no target had been
/// decoded yet), not as the raw byte offsets present in the buffer.
#[derive(Debug, PartialEq, Eq, Clone)]
pub enum OpCode {
    /// Place the glyph with the inline code `c` (0-127) and advance.
    SetChar { c: u32 },
    /// Place the glyph with the explicit code `c` and advance.
    SetCode { c: i32 },
    /// Draw a rule of height `a` and width `b` and advance.
    SetRule { a: i32, b: i32 },
    /// Place the glyph with the explicit code `c` without advancing.
    Put { c: i32 },
    /// Draw a rule of height `a` and width `b` without advancing.
    PutRule { a: i32, b: i32 },
    /// Carries no data.
    Nop,
    /// Beginning of a page: ten page counters and the raw back-pointer
    /// field `p` as it stands in the buffer.
    Bop {
        c0: i32,
        c1: i32,
        c2: i32,
        c3: i32,
        c4: i32,
        c5: i32,
        c6: i32,
        c7: i32,
        c8: i32,
        c9: i32,
        p: i32,
    },
    /// End of a page.
    Eop,
    /// Push the current position onto the position stack.
    Push,
    /// Pop the position stack.
    Pop,
    /// Move right by `b`.
    Right { b: i32 },
    /// Move right by the remembered `w` displacement.
    W0,
    /// Move right by `b` and remember it as the `w` displacement.
    W { b: i32 },
    /// Move right by the remembered `x` displacement.
    X0,
    /// Move right by `b` and remember it as the `x` displacement.
    X { b: i32 },
    /// Move down by `a`.
    Down { a: i32 },
    /// Move down by the remembered `y` displacement.
    Y0,
    /// Move down by `a` and remember it as the `y` displacement.
    Y { a: i32 },
    /// Move down by the remembered `z` displacement.
    Z0,
    /// Move down by `a` and remember it as the `z` displacement.
    Z { a: i32 },
    /// Select the font with the inline number `k` (leading byte minus 171).
    FntNum { k: u32 },
    /// Select the font with the explicit number `k`.
    Fnt { k: i32 },
    /// Extension ("special"): `k` opaque payload bytes held in `x`.
    Xxx { k: i32, x: Vec<u8> },
    /// Define font `k`: checksum `c`, design size `s`, "at" size `d`, then
    /// the directory and file name of `a` plus `l` bytes held in `n`.
    FntDef { k: i32, c: u32, s: u32, d: u32, a: u8, l: u8, n: Vec<u8> },
    /// Preamble: format byte `i`, scale fields, and a comment of `k` bytes
    /// held in `x`.
    Pre { i: u8, num: u32, den: u32, mag: u32, k: u8, x: Vec<u8> },
    /// Postamble: `p` links to the final beginning-of-page instruction,
    /// then scale fields, extreme page dimensions `l` and `u`, maximum
    /// stack depth `s` and page count `t`.
    Post {
        p: Option<usize>,
        num: u32,
        den: u32,
        mag: u32,
        l: u32,
        u: u32,
        s: u16,
        t: u16,
    },
    /// Postamble pointer: `q` links to the postamble instruction, `i` is
    /// the format byte. Trailing fill bytes are consumed, not retained.
    PostPost { q: Option<usize>, i: u8 },
}

/// The specification-level value of an [`OpCode`]: the same shape with
/// every byte vector abstracted to a `Seq<u8>`.
pub ghost enum OpCodeView {
    SetChar { c: u32 },
    SetCode { c: i32 },
    SetRule { a: i32, b: i32 },
    Put { c: i32 },
    PutRule { a: i32, b: i32 },
    Nop,
    Bop {
        c0: i32,
        c1: i32,
        c2: i32,
        c3: i32,
        c4: i32,
        c5: i32,
        c6: i32,
        c7: i32,
        c8: i32,
        c9: i32,
        p: i32,
    },
    Eop,
    Push,
    Pop,
    Right { b: i32 },
    W0,
    W { b: i32 },
    X0,
    X { b: i32 },
    Down { a: i32 },
    Y0,
    Y { a: i32 },
    Z0,
    Z { a: i32 },
    FntNum { k: u32 },
    Fnt { k: i32 },
    Xxx { k: i32, x: Seq<u8> },
    FntDef { k: i32, c: u32, s: u32, d: u32, a: u8, l: u8, n: Seq<u8> },
    Pre { i: u8, num: u32, den: u32, mag: u32, k: u8, x: Seq<u8> },
    Post {
        p: Option<usize>,
        num: u32,
        den: u32,
        mag: u32,
        l: u32,
        u: u32,
        s: u16,
        t: u16,
    },
    PostPost { q: Option<usize>, i: u8 },
}

impl View for OpCode {
    type V = OpCodeView;

    open spec fn view(&self) -> OpCodeView {
        match *self {
            OpCode::SetChar { c } => OpCodeView::SetChar { c },
            OpCode::SetCode { c } => OpCodeView::SetCode { c },
            OpCode::SetRule { a, b } => OpCodeView::SetRule { a, b },
            OpCode::Put { c } => OpCodeView::Put { c },
            OpCode::PutRule { a, b } => OpCodeView::PutRule { a, b },
            OpCode::Nop => OpCodeView::Nop,
            OpCode::Bop { c0, c1, c2, c3, c4, c5, c6, c7, c8, c9, p } => OpCodeView::Bop {
                c0,
                c1,
                c2,
                c3,
                c4,
                c5,
                c6,
                c7,
                c8,
                c9,
                p,
            },
            OpCode::Eop => OpCodeView::Eop,
            OpCode::Push => OpCodeView::Push,
            OpCode::Pop => OpCodeView::Pop,
            OpCode::Right { b } => OpCodeView::Right { b },
            OpCode::W0 => OpCodeView::W0,
            OpCode::W { b } => OpCodeView::W { b },
            OpCode::X0 => OpCodeView::X0,
            OpCode::X { b } => OpCodeView::X { b },
            OpCode::Down { a } => OpCodeView::Down { a },
            OpCode::Y0 => OpCodeView::Y0,
            OpCode::Y { a } => OpCodeView::Y { a },
            OpCode::Z0 => OpCodeView::Z0,
            OpCode::Z { a } => OpCodeView::Z { a },
            OpCode::FntNum { k } => OpCodeView::FntNum { k },
            OpCode::Fnt { k } => OpCodeView::Fnt { k },
            OpCode::Xxx { k, ref x } => OpCodeView::Xxx { k, x: x@ },
            OpCode::FntDef { k, c, s, d, a, l, ref n } => OpCodeView::FntDef {
                k,
                c,
                s,
                d,
                a,
                l,
                n: n@,
            },
            OpCode::Pre { i, num, den, mag, k, ref x } => OpCodeView::Pre {
                i,
                num,
                den,
                mag,
                k,
                x: x@,
            },
            OpCode::Post { p, num, den, mag, l, u, s, t } => OpCodeView::Post {
                p,
                num,
                den,
                mag,
                l,
                u,
                s,
                t,
            },
            OpCode::PostPost { q, i } => OpCodeView::PostPost { q, i },
        }
    }
}

/// The views of a sequence of decoded instructions.
pub open spec fn ops_view(v: Seq<OpCode>) -> Seq<OpCodeView> {
    v.map_values(|op: OpCode| op@)
}

} // verus!
