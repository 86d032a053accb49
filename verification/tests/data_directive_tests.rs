use falcon_asm::falcon::assembler::{assemble, AsmError};
use falcon_asm::falcon::encoder::encode;
use falcon_asm::falcon::instruction::Instruction;

fn error_of(source: &str) -> AsmError {
    assemble(source, 0).err().expect("expected an error")
}

#[test]
fn byte_and_half_values_are_little_endian() {
    let prog = assemble(".data\n.byte 1, 2, 0xff\n.half 0x1234", 0).expect("assemble");
    assert_eq!(prog.data, vec![1, 2, 0xff, 0x34, 0x12]);
    assert!(prog.text.is_empty());
}

#[test]
fn word_and_dword_values_are_little_endian() {
    let prog = assemble(".data\n.word 0x11223344, -1\n.dword 0x0102030405060708", 0).expect("assemble");
    assert_eq!(
        prog.data,
        vec![0x44, 0x33, 0x22, 0x11, 0xff, 0xff, 0xff, 0xff, 8, 7, 6, 5, 4, 3, 2, 1]
    );
}

#[test]
fn strings_space_and_zero() {
    let prog = assemble(
        ".data\n.ascii \"ab\"\n.asciz \"c\"\n.string \"d\"\n.space 2\n.zero 1",
        0,
    )
    .expect("assemble");
    assert_eq!(prog.data, vec![b'a', b'b', b'c', 0, b'd', 0, 0, 0, 0]);
}

#[test]
fn non_ascii_string_is_stored_as_utf8() {
    let prog = assemble(".data\n.ascii \"é\"", 0).expect("assemble");
    assert_eq!(prog.data, vec![0xc3, 0xa9]);
}

#[test]
fn data_base_is_four_kib_after_text() {
    let prog = assemble(".text\nnop", 0x100).expect("assemble");
    assert_eq!(prog.data_base, 0x1100);
    let wrapped = assemble(".text\nnop", 0xFFFF_F800).expect("assemble");
    assert_eq!(wrapped.data_base, 0x0000_0800);
}

#[test]
fn byte_out_of_range_is_reported() {
    let e = error_of(".data\n.byte 256");
    assert_eq!(e.line, 1);
    assert_eq!(e.msg, ".byte outside 0..255: 256");
}

#[test]
fn half_out_of_range_is_reported() {
    let e = error_of(".data\n.half -1");
    assert_eq!(e.msg, ".half outside 0..65535: -1");
}

#[test]
fn invalid_byte_value_is_reported() {
    let e = error_of(".data\n.byte 1, zz");
    assert_eq!(e.msg, "invalid .byte:  zz");
}

#[test]
fn invalid_word_and_dword_are_reported() {
    assert_eq!(error_of(".data\n.word q").msg, "invalid .word:  q");
    assert_eq!(error_of(".data\n.dword q").msg, "invalid .dword:  q");
}

#[test]
fn unknown_directive_is_reported() {
    let e = error_of("\n\n.data\n.quad 1");
    assert_eq!(e.line, 3);
    assert_eq!(e.msg, "unknown data directive: .quad 1");
}

#[test]
fn bad_strings_and_sizes_are_reported() {
    assert_eq!(error_of(".data\n.asciz hi").msg, "invalid string:  hi");
    assert_eq!(error_of(".data\n.ascii hi").msg, "invalid .ascii:  hi");
    assert_eq!(error_of(".data\n.space x").msg, "invalid size:  x");
    assert_eq!(error_of(".data\n.space -3").msg, "size must be positive: -3");
}

#[test]
fn error_text_counts_lines_from_one() {
    let e = error_of(".data\n.quad 1");
    assert_eq!(e.to_text(), "line 2: unknown data directive: .quad 1");
}

#[test]
fn data_labels_point_at_their_bytes() {
    let prog = assemble(".data\na: .byte 1, 2, 3\nb: .word 7\n.text\nla t1, b", 0).expect("assemble");
    assert_eq!(prog.text.len(), 2);
    let lui = encode(Instruction::Lui { rd: 6, imm: 0x1000 }).unwrap();
    let addi = encode(Instruction::Addi { rd: 6, rs1: 6, imm: 3 }).unwrap();
    assert_eq!(prog.text, vec![lui, addi]);
}

#[test]
fn comments_and_blank_lines_are_ignored() {
    let prog = assemble("# header\n\n.text ; code\n  nop # nothing\n", 0).expect("assemble");
    assert_eq!(prog.text, vec![encode(Instruction::Addi { rd: 0, rs1: 0, imm: 0 }).unwrap()]);
}

#[test]
fn la_loads_an_address_with_bit_eleven_set() {
    let prog = assemble(".data\n.space 2048\nx: .word 1\n.text\nla t0, x", 0).expect("assemble");
    let lui = encode(Instruction::Lui { rd: 5, imm: 0x2000 }).unwrap();
    let addi = encode(Instruction::Addi { rd: 5, rs1: 5, imm: -2048 }).unwrap();
    assert_eq!(prog.text, vec![lui, addi]);
}
