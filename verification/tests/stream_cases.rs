//! Whole-stream behaviour: empty input, link resolution across
//! instructions, fill-byte consumption, the error cases, and the exact
//! treatment of four-byte operands.

use dvious::byte_reader::ByteReader;
use dvious::disassembler::disassemble;
use dvious::errors::{DecodeError, DviousError};
use dvious::opcodes::OpCode;

fn bop_bytes() -> Vec<u8> {
    let mut v = vec![139u8];
    for i in 0..44 {
        v.push(i as u8);
    }
    v
}

fn post_bytes() -> Vec<u8> {
    let mut v = vec![248u8];
    for i in 0..28 {
        v.push((0xA0 + i) as u8);
    }
    v
}

#[test]
fn test_empty_buffer_decodes_to_empty_sequence() {
    let result = disassemble(vec![]);

    assert_eq!(result, Ok(vec![]));
}

#[test]
fn test_unknown_opcode_carries_byte_and_offset() {
    let result = disassemble(vec![250]);

    assert_eq!(result, Err(DecodeError::UnknownOpcode { opcode: 250, offset: 0 }));
}

#[test]
fn test_unknown_opcode_after_nop() {
    let result = disassemble(vec![138, 255]);

    assert_eq!(result, Err(DecodeError::UnknownOpcode { opcode: 255, offset: 1 }));
}

#[test]
fn test_truncated_operand_is_out_of_bounds() {
    let result = disassemble(vec![128]);

    assert_eq!(result, Err(DecodeError::OutOfBounds { offset: 0 }));
}

#[test]
fn test_truncated_rule_reports_instruction_start() {
    let result = disassemble(vec![138, 132, 0x01, 0x02, 0x03]);

    assert_eq!(result, Err(DecodeError::OutOfBounds { offset: 1 }));
}

#[test]
fn test_extension_short_payload_is_out_of_bounds() {
    let result = disassemble(vec![239, 0x05, 0x01, 0x02]);

    assert_eq!(result, Err(DecodeError::OutOfBounds { offset: 0 }));
}

#[test]
fn test_post_links_to_bop_index() {
    let mut bytes = bop_bytes();
    bytes.append(&mut post_bytes());
    let opcodes = disassemble(bytes).unwrap();

    assert_eq!(opcodes.len(), 2);
    match opcodes[1] {
        OpCode::Post { p, .. } => assert_eq!(p, Some(0)),
        _ => panic!("expected a postamble"),
    }
}

#[test]
fn test_post_link_ignores_raw_pointer_bytes() {
    let mut bytes = bop_bytes();
    let mut post = vec![248u8, 0xFF, 0xFF, 0xFF, 0xFF];
    for _ in 0..24 {
        post.push(0);
    }
    bytes.append(&mut post);
    let opcodes = disassemble(bytes).unwrap();

    match opcodes[1] {
        OpCode::Post { p, .. } => assert_eq!(p, Some(0)),
        _ => panic!("expected a postamble"),
    }
}

#[test]
fn test_post_without_bop_has_absent_link() {
    let opcodes = disassemble(post_bytes()).unwrap();

    assert_eq!(opcodes.len(), 1);
    match opcodes[0] {
        OpCode::Post { p, .. } => assert_eq!(p, None),
        _ => panic!("expected a postamble"),
    }
}

#[test]
fn test_post_post_links_to_post_index() {
    let mut bytes = vec![138u8];
    bytes.append(&mut post_bytes());
    bytes.append(&mut vec![249, 0, 0, 0, 0, 0x42]);
    let opcodes = disassemble(bytes).unwrap();

    assert_eq!(opcodes.len(), 3);
    assert_eq!(opcodes[2], OpCode::PostPost { q: Some(1), i: 0x42 });
}

#[test]
fn test_fill_bytes_consumed_without_instruction() {
    let result = disassemble(vec![249, 0, 0, 0, 0, 0x42, 223, 223, 223, 223]);

    assert_eq!(result, Ok(vec![OpCode::PostPost { q: None, i: 0x42 }]));
}

#[test]
fn test_dispatch_resumes_after_fill_bytes() {
    let result = disassemble(vec![249, 0, 0, 0, 0, 0x42, 223, 223, 138]);

    assert_eq!(result, Ok(vec![OpCode::PostPost { q: None, i: 0x42 }, OpCode::Nop]));
}

#[test]
fn test_non_fill_byte_after_post_post_is_decoded() {
    let result = disassemble(vec![249, 0, 0, 0, 0, 0x42, 65]);

    assert_eq!(result, Ok(vec![OpCode::PostPost { q: None, i: 0x42 }, OpCode::SetChar { c: 65 }]));
}

#[test]
fn test_first_inline_font_byte_maps_to_font_zero() {
    let result = disassemble(vec![171]);

    assert_eq!(result, Ok(vec![OpCode::FntNum { k: 0 }]));
}

#[test]
fn test_last_inline_font_byte_maps_to_font_sixty_three() {
    let result = disassemble(vec![234]);

    assert_eq!(result, Ok(vec![OpCode::FntNum { k: 63 }]));
}

#[test]
fn test_four_byte_operand_wraps_to_negative() {
    let result = disassemble(vec![131, 0x80, 0x00, 0x00, 0x00]);

    assert_eq!(result, Ok(vec![OpCode::SetCode { c: i32::MIN }]));
}

#[test]
fn test_four_byte_operand_all_ones_is_minus_one() {
    let result = disassemble(vec![146, 0xFF, 0xFF, 0xFF, 0xFF]);

    assert_eq!(result, Ok(vec![OpCode::Right { b: -1 }]));
}

#[test]
fn test_one_byte_operand_is_not_sign_extended() {
    let result = disassemble(vec![143, 0xFF]);

    assert_eq!(result, Ok(vec![OpCode::Right { b: 255 }]));
}

#[test]
fn test_several_instructions_in_order() {
    let result = disassemble(vec![65, 141, 143, 0x10, 142, 140]);

    assert_eq!(
        result,
        Ok(vec![
            OpCode::SetChar { c: 65 },
            OpCode::Push,
            OpCode::Right { b: 0x10 },
            OpCode::Pop,
            OpCode::Eop,
        ])
    );
}

#[test]
fn test_empty_extension_payload() {
    let result = disassemble(vec![239, 0x00]);

    assert_eq!(result, Ok(vec![OpCode::Xxx { k: 0, x: vec![] }]));
}

#[test]
fn test_peek_does_not_advance() {
    let reader = ByteReader::new(vec![0xDE, 0xAD]);

    assert_eq!(reader.peek_be::<u16>().unwrap(), 0xDEAD);
    assert_eq!(reader.peek_be::<u16>().unwrap(), 0xDEAD);
}

#[test]
fn test_peek_agrees_with_read() {
    let mut reader = ByteReader::new(vec![0x12, 0x34, 0x56]);

    let peeked = reader.peek_be::<u16>().unwrap();
    let read = reader.read_be::<u16>().unwrap();
    assert_eq!(peeked, read);
    assert_eq!(reader.read_be::<u8>().unwrap(), 0x56);
}

#[test]
fn test_short_peek_is_index_out_of_bounds() {
    let reader = ByteReader::new(vec![0x12]);

    assert_eq!(reader.peek_be::<u16>(), Err(DviousError::IndexOutOfBoundsError));
}

#[test]
fn test_failed_read_leaves_cursor_in_place() {
    let mut reader = ByteReader::new(vec![0x12]);

    assert_eq!(reader.read_be::<u32>(), Err(DviousError::IndexOutOfBoundsError));
    assert_eq!(reader.read_be::<u8>().unwrap(), 0x12);
}

#[test]
fn test_post_links_across_intervening_instructions() {
    let mut bytes = bop_bytes();
    bytes.push(138);
    bytes.push(65);
    bytes.append(&mut post_bytes());
    let opcodes = disassemble(bytes).unwrap();

    assert_eq!(opcodes.len(), 4);
    match opcodes[3] {
        OpCode::Post { p, .. } => assert_eq!(p, Some(0)),
        _ => panic!("expected a postamble"),
    }
}

#[test]
fn test_post_links_to_most_recent_bop() {
    let mut bytes = bop_bytes();
    bytes.append(&mut bop_bytes());
    bytes.append(&mut post_bytes());
    let opcodes = disassemble(bytes).unwrap();

    assert_eq!(opcodes.len(), 3);
    match opcodes[2] {
        OpCode::Post { p, .. } => assert_eq!(p, Some(1)),
        _ => panic!("expected a postamble"),
    }
}
