//! The decoder exercised on one instruction of each shape.

use dvious::disassembler::disassemble;
use dvious::errors::DecodeError;
use dvious::opcodes::OpCode;

#[test]
fn test_disassemble_set_char() {
    for i in 0..127 + 1 {
        let result = disassemble(vec![i]);

        assert_that_opcode_was_generated(result, OpCode::SetChar { c: i as u32 })
    }
}

#[test]
fn test_disassemble_set1() {
    let result = disassemble(vec![128, 0xAB]);

    assert_that_opcode_was_generated(result, OpCode::SetCode { c: 0xAB })
}

#[test]
fn test_disassemble_set2() {
    let result = disassemble(vec![129, 0xAB, 0xCD]);

    assert_that_opcode_was_generated(result, OpCode::SetCode { c: 0xABCD })
}

#[test]
fn test_disassemble_set3() {
    let result = disassemble(vec![130, 0xAB, 0xCD, 0xEF]);

    assert_that_opcode_was_generated(result, OpCode::SetCode { c: 0xABCDEF })
}

#[test]
fn test_disassemble_set4() {
    let result = disassemble(vec![131, 0x00, 0x11, 0x22, 0x33]);

    assert_that_opcode_was_generated(result, OpCode::SetCode { c: 0x112233 })
}

#[test]
fn test_disassemble_set_rule() {
    let result = disassemble(vec![132, 0x0, 0xAB, 0xCD, 0xEF, 0x0, 0xFE, 0xDC, 0xBA]);

    assert_that_opcode_was_generated(
        result,
        OpCode::SetRule {
            a: 0xABCDEF,
            b: 0xFEDCBA,
        },
    )
}

#[test]
fn test_disassemble_put1() {
    let result = disassemble(vec![133, 0xAB]);

    assert_that_opcode_was_generated(result, OpCode::Put { c: 0xAB })
}

#[test]
fn test_disassemble_put2() {
    let result = disassemble(vec![134, 0xAB, 0xCD]);

    assert_that_opcode_was_generated(result, OpCode::Put { c: 0xABCD })
}

#[test]
fn test_disassemble_put3() {
    let result = disassemble(vec![135, 0xAB, 0xCD, 0xEF]);

    assert_that_opcode_was_generated(result, OpCode::Put { c: 0xABCDEF })
}

#[test]
fn test_disassemble_put4() {
    let result = disassemble(vec![136, 0x00, 0x11, 0x22, 0x33]);

    assert_that_opcode_was_generated(result, OpCode::Put { c: 0x112233 })
}

#[test]
fn test_disassemble_put_rule() {
    let result = disassemble(vec![137, 0x0, 0xAB, 0xCD, 0xEF, 0x0, 0xFE, 0xDC, 0xBA]);

    assert_that_opcode_was_generated(
        result,
        OpCode::PutRule {
            a: 0xABCDEF,
            b: 0xFEDCBA,
        },
    )
}

#[test]
fn test_disassemble_nop() {
    let result = disassemble(vec![138]);

    assert_that_opcode_was_generated(result, OpCode::Nop)
}

#[test]
fn test_disassemble_bop() {
    let result = disassemble(vec![
        139, 
        0x01, 0x11, 0x11, 0x11,
        0x02, 0x22, 0x22, 0x22,
        0x03, 0x33, 0x33, 0x33,
        0x04, 0x44, 0x44, 0x44,
        0x05, 0x55, 0x55, 0x55,
        0x06, 0x66, 0x66, 0x66,
        0x07, 0x77, 0x77, 0x77,
        0x08, 0x88, 0x88, 0x88,
        0x09, 0x99, 0x99, 0x99,
        0x0A, 0xAA, 0xAA, 0xAA,
        0x0C, 0xAF, 0xEB, 0xAE,
    ]);

    assert_that_opcode_was_generated(
        result,
        OpCode::Bop {
            c0: 0x1111111,
            c1: 0x2222222,
            c2: 0x3333333,
            c3: 0x4444444,
            c4: 0x5555555,
            c5: 0x6666666,
            c6: 0x7777777,
            c7: 0x8888888,
            c8: 0x9999999,
            c9: 0xAAAAAAA,
            p:  0xCAFEBAE,
        }
    )
}

#[test]
fn test_disassemble_eop() {
    let result = disassemble(vec![140]);

    assert_that_opcode_was_generated(result, OpCode::Eop)
}

#[test]
fn test_disassemble_push() {
    let result = disassemble(vec![141]);

    assert_that_opcode_was_generated(result, OpCode::Push)
}

#[test]
fn test_disassemble_pop() {
    let result = disassemble(vec![142]);

    assert_that_opcode_was_generated(result, OpCode::Pop)
}

#[test]
fn test_disassemble_right1() {
    let result = disassemble(vec![143, 0xAB]);

    assert_that_opcode_was_generated(result, OpCode::Right { b: 0xAB })
}

#[test]
fn test_disassemble_right2() {
    let result = disassemble(vec![144, 0xAB, 0xCD]);

    assert_that_opcode_was_generated(result, OpCode::Right { b: 0xABCD })
}

#[test]
fn test_disassemble_right3() {
    let result = disassemble(vec![145, 0xAB, 0xCD, 0xEF]);

    assert_that_opcode_was_generated(result, OpCode::Right { b: 0xABCDEF })
}

#[test]
fn test_disassemble_right4() {
    let result = disassemble(vec![146, 0x00, 0x11, 0x22, 0x33]);

    assert_that_opcode_was_generated(result, OpCode::Right { b: 0x112233 })
}

// W

   #[test]
fn test_disassemble_w0() {
    let result = disassemble(vec![147]);

    assert_that_opcode_was_generated(result, OpCode::W0)
}

   #[test]
fn test_disassemble_w1() {
    let result = disassemble(vec![148, 0xAB]);

    assert_that_opcode_was_generated(result, OpCode::W { b: 0xAB })
}

#[test]
fn test_disassemble_w2() {
    let result = disassemble(vec![149, 0xAB, 0xCD]);

    assert_that_opcode_was_generated(result, OpCode::W { b: 0xABCD })
}

#[test]
fn test_disassemble_w3() {
    let result = disassemble(vec![150, 0xAB, 0xCD, 0xEF]);

    assert_that_opcode_was_generated(result, OpCode::W { b: 0xABCDEF })
}

#[test]
fn test_disassemble_w4() {
    let result = disassemble(vec![151, 0x00, 0x11, 0x22, 0x33]);

    assert_that_opcode_was_generated(result, OpCode::W { b: 0x112233 })
}

// X

   #[test]
fn test_disassemble_x0() {
    let result = disassemble(vec![152]);

    assert_that_opcode_was_generated(result, OpCode::X0)
}

   #[test]
fn test_disassemble_x1() {
    let result = disassemble(vec![153, 0xAB]);

    assert_that_opcode_was_generated(result, OpCode::X { b: 0xAB })
}

#[test]
fn test_disassemble_x2() {
    let result = disassemble(vec![154, 0xAB, 0xCD]);

    assert_that_opcode_was_generated(result, OpCode::X { b: 0xABCD })
}

#[test]
fn test_disassemble_x3() {
    let result = disassemble(vec![155, 0xAB, 0xCD, 0xEF]);

    assert_that_opcode_was_generated(result, OpCode::X { b: 0xABCDEF })
}

#[test]
fn test_disassemble_x4() {
    let result = disassemble(vec![156, 0x00, 0x11, 0x22, 0x33]);

    assert_that_opcode_was_generated(result, OpCode::X { b: 0x112233 })
}   

// Down

   #[test]
fn test_disassemble_down1() {
    let result = disassemble(vec![157, 0xAB]);

    assert_that_opcode_was_generated(result, OpCode::Down { a: 0xAB })
}

#[test]
fn test_disassemble_down2() {
    let result = disassemble(vec![158, 0xAB, 0xCD]);

    assert_that_opcode_was_generated(result, OpCode::Down { a: 0xABCD })
}

#[test]
fn test_disassemble_down3() {
    let result = disassemble(vec![159, 0xAB, 0xCD, 0xEF]);

    assert_that_opcode_was_generated(result, OpCode::Down { a: 0xABCDEF })
}

#[test]
fn test_disassemble_down4() {
    let result = disassemble(vec![160, 0x00, 0x11, 0x22, 0x33]);

    assert_that_opcode_was_generated(result, OpCode::Down { a: 0x112233 })
}

// Y

   #[test]
fn test_disassemble_y0() {
    let result = disassemble(vec![161]);

    assert_that_opcode_was_generated(result, OpCode::Y0)
}

   #[test]
fn test_disassemble_y1() {
    let result = disassemble(vec![162, 0xAB]);

    assert_that_opcode_was_generated(result, OpCode::Y { a: 0xAB })
}

#[test]
fn test_disassemble_y2() {
    let result = disassemble(vec![163, 0xAB, 0xCD]);

    assert_that_opcode_was_generated(result, OpCode::Y { a: 0xABCD })
}

#[test]
fn test_disassemble_y3() {
    let result = disassemble(vec![164, 0xAB, 0xCD, 0xEF]);

    assert_that_opcode_was_generated(result, OpCode::Y { a: 0xABCDEF })
}

#[test]
fn test_disassemble_y4() {
    let result = disassemble(vec![165, 0x00, 0x11, 0x22, 0x33]);

    assert_that_opcode_was_generated(result, OpCode::Y { a: 0x112233 })
}

// Z

   #[test]
fn test_disassemble_z0() {
    let result = disassemble(vec![166]);

    assert_that_opcode_was_generated(result, OpCode::Z0)
}

   #[test]
fn test_disassemble_z1() {
    let result = disassemble(vec![167, 0xAB]);

    assert_that_opcode_was_generated(result, OpCode::Z { a: 0xAB })
}

#[test]
fn test_disassemble_z2() {
    let result = disassemble(vec![168, 0xAB, 0xCD]);

    assert_that_opcode_was_generated(result, OpCode::Z { a: 0xABCD })
}

#[test]
fn test_disassemble_z3() {
    let result = disassemble(vec![169, 0xAB, 0xCD, 0xEF]);

    assert_that_opcode_was_generated(result, OpCode::Z { a: 0xABCDEF })
}

#[test]
fn test_disassemble_z4() {
    let result = disassemble(vec![170, 0x00, 0x11, 0x22, 0x33]);

    assert_that_opcode_was_generated(result, OpCode::Z { a: 0x112233 })
}

// Font

#[test]
fn test_disassemble_fnt_num() {
    for i in 172..234 + 1 {
        let result = disassemble(vec![i]);

        assert_that_opcode_was_generated(result, OpCode::FntNum { k: (i - 171) as u32 })
    }
}

#[test]
fn test_disassemble_fnt1() {
    let result = disassemble(vec![235, 0xAB]);

    assert_that_opcode_was_generated(result, OpCode::Fnt {k: 0xAB })
}

#[test]
fn test_disassemble_fnt2() {
    let result = disassemble(vec![236, 0xAB, 0xCD]);

    assert_that_opcode_was_generated(result, OpCode::Fnt {k: 0xABCD })
}

#[test]
fn test_disassemble_fnt3() {
    let result = disassemble(vec![237, 0xAB, 0xCD, 0xEF]);

    assert_that_opcode_was_generated(result, OpCode::Fnt {k: 0xABCDEF })
}

#[test]
fn test_disassemble_fnt4() {
    let result = disassemble(vec![238, 0x11, 0x22, 0x33, 0x44]);

    assert_that_opcode_was_generated(result, OpCode::Fnt {k: 0x11223344 })
}

// Xxx

#[test]
fn test_disassemble_xxx1() {
    let result = disassemble(vec![239, 0x5, 0x1, 0x2, 0x3, 0x4, 0x5]);

    assert_that_opcode_was_generated(
        result, 
        OpCode::Xxx {
            k: 0x5,
            x: vec![1, 2, 3, 4, 5] 
        }
    )
}

#[test]
fn test_disassemble_xxx2() {
    let result = disassemble(vec![240, 0x0, 0x5, 0x1, 0x2, 0x3, 0x4, 0x5]);

    assert_that_opcode_was_generated(
        result, 
        OpCode::Xxx {
            k: 0x5,
            x: vec![1, 2, 3, 4, 5] 
        }
    )
}

#[test]
fn test_disassemble_xxx3() {
    let result = disassemble(vec![241, 0x0, 0x0, 0x5, 0x1, 0x2, 0x3, 0x4, 0x5]);

    assert_that_opcode_was_generated(
        result, 
        OpCode::Xxx {
            k: 0x5,
            x: vec![1, 2, 3, 4, 5] 
        }
    )
}

#[test]
fn test_disassemble_xxx4() {
    let result = disassemble(vec![242, 0x0, 0x0, 0x0, 0x5, 0x1, 0x2, 0x3, 0x4, 0x5]);

    assert_that_opcode_was_generated(
        result, 
        OpCode::Xxx {
            k: 0x5,
            x: vec![1, 2, 3, 4, 5] 
        }
    )
}

// fnt_def

#[test]
fn test_disassemble_fnt_def1() {
    let result = disassemble(vec![
        243, 
        0x42, 
        0xDE, 0xAD, 0xBE, 0xEF, 
        0xCA, 0xFE, 0xBA, 0xBE, 
        0xBA, 0xAA, 0xAA, 0xAD,
        0x2,
        0x3,
        0x1, 0x2, 0x3, 0x4, 0x5
    ]);

    assert_that_opcode_was_generated(
        result, 
        OpCode::FntDef {
            k: 0x42,
            c: 0xDEADBEEF,
            s: 0xCAFEBABE,
            d: 0xBAAAAAAD,
            a: 0x2,
            l: 0x3,
            n: vec![1, 2, 3, 4, 5]
        }
    )
}

#[test]
fn test_disassemble_fnt_def2() {
    let result = disassemble(vec![
        244, 
        0xAB, 0xCD, 
        0xDE, 0xAD, 0xBE, 0xEF, 
        0xCA, 0xFE, 0xBA, 0xBE, 
        0xBA, 0xAA, 0xAA, 0xAD,
        0x2,
        0x3,
        0x1, 0x2, 0x3, 0x4, 0x5
    ]);

    assert_that_opcode_was_generated(
        result, 
        OpCode::FntDef {
            k: 0xABCD,
            c: 0xDEADBEEF,
            s: 0xCAFEBABE,
            d: 0xBAAAAAAD,
            a: 0x2,
            l: 0x3,
            n: vec![1, 2, 3, 4, 5]
        }
    )
}

#[test]
fn test_disassemble_fnt_def3() {
    let result = disassemble(vec![
        245, 
        0xAB, 0xCD, 0xEF, 
        0xDE, 0xAD, 0xBE, 0xEF, 
        0xCA, 0xFE, 0xBA, 0xBE, 
        0xBA, 0xAA, 0xAA, 0xAD,
        0x2,
        0x3,
        0x1, 0x2, 0x3, 0x4, 0x5
    ]);

    assert_that_opcode_was_generated(
        result, 
        OpCode::FntDef {
            k: 0xABCDEF,
            c: 0xDEADBEEF,
            s: 0xCAFEBABE,
            d: 0xBAAAAAAD,
            a: 0x2,
            l: 0x3,
            n: vec![1, 2, 3, 4, 5]
        }
    )
}

#[test]
fn test_disassemble_fnt_def4() {
    let result = disassemble(vec![
        246, 
        0x0A, 0xBC, 0xDE, 0x12, 
        0xDE, 0xAD, 0xBE, 0xEF, 
        0xCA, 0xFE, 0xBA, 0xBE, 
        0xBA, 0xAA, 0xAA, 0xAD,
        0x2,
        0x3,
        0x1, 0x2, 0x3, 0x4, 0x5
    ]);

    assert_that_opcode_was_generated(
        result, 
        OpCode::FntDef {
            k: 0x0ABCDE12,
            c: 0xDEADBEEF,
            s: 0xCAFEBABE,
            d: 0xBAAAAAAD ,
            a: 0x2,
            l: 0x3,
            n: vec![1, 2, 3, 4, 5]
        }
    )
}

// Pre and post

#[test]
fn test_disassemble_pre() {
    let result = disassemble(vec![
        247, 
        0x42, 
        0xDE, 0xAD, 0xBE, 0xEF, 
        0xCA, 0xFE, 0xBA, 0xBE, 
        0xBA, 0xAA, 0xAA, 0xAD,
        0x5,
        0x1, 0x2, 0x3, 0x4, 0x5
    ]);

    assert_that_opcode_was_generated(
        result, 
        OpCode::Pre {
            i: 0x42,
            num: 0xDEADBEEF, 
            den: 0xCAFEBABE, 
            mag: 0xBAAAAAAD, 
            k: 0x5, 
            x: vec![1, 2, 3, 4, 5],
        }
    )
}

#[test]
fn test_disassemble_post() {
    let result = disassemble(vec![
        248,
        0x00, 0x00, 0x00, 0x42,
        0xDE, 0xAD, 0xBE, 0xEF, 
        0xCA, 0xFE, 0xBA, 0xBE, 
        0xBA, 0xAA, 0xAA, 0xAD,
        0xDE, 0xAD, 0xC0, 0xDE,
        0xB1, 0x05, 0xF0, 0x0D,
        0xAB, 0xCD,
        0xDC, 0xBA,
    ]);

    assert_that_opcode_was_generated(
        result, 
        OpCode::Post {
            p: Option::None,
            num: 0xDEADBEEF,
            den: 0xCAFEBABE,
            mag: 0xBAAAAAAD,
            l: 0xDEADC0DE,
            u: 0xB105F00D,
            s: 0xABCD,
            t: 0xDCBA,
        }
    )
}

#[test]
fn test_disassemble_post_post() {
    let result = disassemble(vec![
        249,
        0xAB, 0xCD, 0xEF, 0xAA,
        0x42,
        0xDF, 0xDF
    ]);

    assert_that_opcode_was_generated(
        result, 
        OpCode::PostPost {
            q: Option::None,
            i: 0x42,
        }
    )
}

// Helper

fn assert_that_opcode_was_generated(result: Result<Vec<OpCode>, DecodeError>, opcode: OpCode) {
    let opcodes = result.unwrap();
    assert_eq!(opcodes.len(), 1);
    assert_eq!(opcodes[0], opcode);
}
