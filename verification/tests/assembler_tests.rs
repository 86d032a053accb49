use falcon_asm::falcon::assembler::labels::Labels;
use falcon_asm::falcon::assembler::operands::branch_imm;
use falcon_asm::falcon::assembler::assemble;
use falcon_asm::falcon::encoder::encode;
use falcon_asm::falcon::instruction::Instruction;

#[test]
fn la_generates_lui_addi_pair() {
    let source = ".data\nvar: .word 0\n.text\nla t0, var";
    let prog = assemble(source, 0).expect("assemble");
    assert_eq!(prog.text.len(), 2);
    let expected_lui = encode(Instruction::Lui { rd: 5, imm: 0x1000 }).expect("encode lui");
    let expected_addi = encode(Instruction::Addi { rd: 5, rs1: 5, imm: 0 }).expect("encode addi");
    assert_eq!(prog.text[0], expected_lui);
    assert_eq!(prog.text[1], expected_addi);
}

#[test]
fn call_expands_to_jal_ra() {
    let source = ".text\ncall func\nfunc: ebreak";
    let prog = assemble(source, 0).expect("assemble");
    assert_eq!(prog.text.len(), 2);
    let expected_jal = encode(Instruction::Jal { rd: 1, imm: 4 }).expect("encode jal");
    assert_eq!(prog.text[0], expected_jal);
}

#[test]
fn push_expands_correctly() {
    let source = ".text\npush a0";
    let prog = assemble(source, 0).expect("assemble");
    println!("Program text: {:?}", prog.text);
    assert_eq!(prog.text.len(), 2);
    let expected_addi = encode(Instruction::Addi { rd: 2, rs1: 2, imm: -4 }).expect("encode addi");
    let expected_sw = encode(Instruction::Sw { rs2: 10, rs1: 2, imm: 4 }).expect("encode sw");
    println!("Expected SW: {}, Expected ADDI: {}", expected_sw, expected_addi);
    assert_eq!(prog.text[0], expected_addi);
    assert_eq!(prog.text[1], expected_sw);
}

#[test]
fn pop_expands_correctly() {
    let source = ".text\npop a0";
    let prog = assemble(source, 0).expect("assemble");
    assert_eq!(prog.text.len(), 2);
    let expected_lw = encode(Instruction::Lw { rd: 10, rs1: 2, imm: 4 }).expect("encode lw");
    let expected_addi = encode(Instruction::Addi { rd: 2, rs1: 2, imm: 4 }).expect("encode addi");
    assert_eq!(prog.text[0], expected_lw);
    assert_eq!(prog.text[1], expected_addi);
}

#[test]
fn print_expands_correctly() {
    let source = ".text\nprint a1";
    let prog = assemble(source, 0).expect("assemble");
    assert_eq!(prog.text.len(), 3);
    let expected_li = encode(Instruction::Addi { rd: 17, rs1: 0, imm: 1 }).expect("encode addi");
    let expected_mv = encode(Instruction::Addi { rd: 10, rs1: 11, imm: 0 }).expect("encode addi");
    let expected_ecall = encode(Instruction::Ecall).expect("encode ecall");
    assert_eq!(prog.text[0], expected_li);
    assert_eq!(prog.text[1], expected_mv);
    assert_eq!(prog.text[2], expected_ecall);
}

#[test]
fn print_string_register_expands_correctly() {
    let source = ".text\nprintString a1";
    let prog = assemble(source, 0).expect("assemble");
    assert_eq!(prog.text.len(), 3);
    let expected_li = encode(Instruction::Addi { rd: 17, rs1: 0, imm: 2 }).expect("encode addi");
    let expected_mv = encode(Instruction::Addi { rd: 10, rs1: 11, imm: 0 }).expect("encode addi");
    let expected_ecall = encode(Instruction::Ecall).expect("encode ecall");
    assert_eq!(prog.text[0], expected_li);
    assert_eq!(prog.text[1], expected_mv);
    assert_eq!(prog.text[2], expected_ecall);
}

#[test]
fn print_string_label_expands_correctly() {
    let source = ".data\nmsg: .asciz \"hi\"\n.text\nprintString msg";
    let prog = assemble(source, 0).expect("assemble");
    assert_eq!(prog.text.len(), 4);
    let expected_li = encode(Instruction::Addi { rd: 17, rs1: 0, imm: 2 }).expect("encode addi");
    let expected_lui = encode(Instruction::Lui { rd: 10, imm: 0x1000 }).expect("encode lui");
    let expected_addi = encode(Instruction::Addi { rd: 10, rs1: 10, imm: 0 }).expect("encode addi");
    let expected_ecall = encode(Instruction::Ecall).expect("encode ecall");
    assert_eq!(prog.text[0], expected_li);
    assert_eq!(prog.text[1], expected_lui);
    assert_eq!(prog.text[2], expected_addi);
    assert_eq!(prog.text[3], expected_ecall);
}

#[test]
fn read_expands_correctly() {
    let source = ".text\nread a1";
    let prog = assemble(source, 0).expect("assemble");
    assert_eq!(prog.text.len(), 3);
    let expected_li = encode(Instruction::Addi { rd: 17, rs1: 0, imm: 3 }).expect("encode addi");
    let expected_ecall = encode(Instruction::Ecall).expect("encode ecall");
    let expected_mv = encode(Instruction::Addi { rd: 11, rs1: 10, imm: 0 }).expect("encode addi");
    assert_eq!(prog.text[0], expected_li);
    assert_eq!(prog.text[1], expected_ecall);
    assert_eq!(prog.text[2], expected_mv);
}

#[test]
fn addi_immediate_range_error() {
    let source = ".text\naddi x1, x0, 4096";
    let err = assemble(source, 0).err().expect("expected error");
    assert!(err.msg.contains("12-bit"));
}

#[test]
fn beq_offset_range_error() {
    let source = ".text\nbeq x0, x0, 8192";
    let err = assemble(source, 0).err().expect("expected error");
    assert!(err.msg.contains("13-bit"));
}

#[test]
fn branch_offsets_are_checked_against_any_width() {
    let mut ls = Labels::new();
    ls.insert("L".chars().collect(), 0);
    let tok: Vec<char> = "L".chars().collect();
    let ctx: Vec<char> = "beq".chars().collect();
    assert_eq!(branch_imm(&tok, 8, &ls, 13, &ctx), Ok(-8));
    assert!(branch_imm(&"3".chars().collect::<Vec<char>>(), 0, &ls, 13, &ctx).is_err());
    assert_eq!(branch_imm(&"14".chars().collect::<Vec<char>>(), 0, &ls, 5, &ctx), Ok(14));
    let e = branch_imm(&"16".chars().collect::<Vec<char>>(), 0, &ls, 5, &ctx).unwrap_err();
    let text: String = e.iter().collect();
    assert_eq!(text, "beq: immediate 16 out of 5-bit signed range (-16..15)");
}

#[test]
fn mnemonics_and_registers_ignore_ascii_case() {
    let prog = assemble(".text\nADDI X5, Zero, 3\nAdd T1, t0, A0", 0).expect("assemble");
    let addi = encode(Instruction::Addi { rd: 5, rs1: 0, imm: 3 }).unwrap();
    let add = encode(Instruction::Add { rd: 6, rs1: 5, rs2: 10 }).unwrap();
    assert_eq!(prog.text, vec![addi, add]);
}
