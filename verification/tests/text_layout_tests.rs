use falcon_asm::falcon::assembler::assemble;
use falcon_asm::falcon::encoder::encode;
use falcon_asm::falcon::instruction::Instruction;

#[test]
fn labels_after_pseudo_instructions_get_their_word_address() {
    // push (2 words), print (3 words), read (3 words), then the target.
    let prog = assemble(".text\nj end\npush a0\nprint a0\nread a1\nend: ebreak", 0).expect("assemble");
    assert_eq!(prog.text.len(), 10);
    let jal = encode(Instruction::Jal { rd: 0, imm: 36 }).unwrap();
    assert_eq!(prog.text[0], jal);
    assert_eq!(prog.text[9], encode(Instruction::Ebreak).unwrap());
}

#[test]
fn backward_branch_to_label_on_its_own_line() {
    let prog = assemble(".text\nloop:\naddi t0, t0, 1\nbne t0, t1, loop", 0x40).expect("assemble");
    let bne = encode(Instruction::Bne { rs1: 5, rs2: 6, imm: -4 }).unwrap();
    assert_eq!(prog.text[1], bne);
}

#[test]
fn print_string_label_takes_four_words() {
    let prog = assemble(
        ".data\nm: .asciz \"x\"\n.text\nprintString m\nafter: j after",
        0,
    )
    .expect("assemble");
    assert_eq!(prog.text.len(), 5);
    assert_eq!(prog.text[4], encode(Instruction::Jal { rd: 0, imm: 0 }).unwrap());
}

#[test]
fn mnemonics_are_case_insensitive() {
    let prog = assemble(".text\nADDI X1, ZERO, 5", 0).expect("assemble");
    assert_eq!(prog.text, vec![encode(Instruction::Addi { rd: 1, rs1: 0, imm: 5 }).unwrap()]);
}

#[test]
fn unknown_mnemonic_is_reported_on_its_line() {
    let e = assemble(".text\nnop\nfrobnicate x1", 0).err().expect("error");
    assert_eq!(e.line, 2);
    assert_eq!(e.msg, "unsupported mnemonic: frobnicate");
}

#[test]
fn missing_label_is_reported() {
    let e = assemble(".text\nla t0, nowhere", 0).err().expect("error");
    assert_eq!(e.msg, "label not found: nowhere");
}

#[test]
fn later_label_definition_wins() {
    let prog = assemble(".text\nx: nop\nx: nop\nj x", 0).expect("assemble");
    assert_eq!(prog.text[2], encode(Instruction::Jal { rd: 0, imm: -4 }).unwrap());
}

#[test]
fn li_takes_a_twelve_bit_immediate() {
    let prog = assemble(".text\nli t0, -2048", 0).expect("assemble");
    assert_eq!(prog.text, vec![encode(Instruction::Addi { rd: 5, rs1: 0, imm: -2048 }).unwrap()]);
    let e = assemble(".text\nli t0, 2048", 0).err().expect("error");
    assert_eq!(e.msg, "li: immediate 2048 out of 12-bit signed range (-2048..2047)");
}
