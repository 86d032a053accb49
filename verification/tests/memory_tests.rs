use falcon_asm::falcon::arch::FalconArch;
use falcon_asm::falcon::decoder::decode;
use falcon_asm::falcon::encoder::encode;
use falcon_asm::falcon::errors::FalconError;
use falcon_asm::falcon::instruction::Instruction;
use falcon_asm::falcon::memory::{Memory, MEMORY_SIZE};
use falcon_asm::falcon::program::{load_bytes, load_words};
use falcon_asm::falcon::{Bus, Ram};
use falcon_asm::ui::Console;

#[test]
fn memory_words_are_big_endian() {
    let mut m = Memory::new();
    m.write_word(8, 0x0A0B0C0D);
    assert_eq!(m.read_q_word(8), 0x0A);
    assert_eq!(m.read_q_word(11), 0x0D);
    assert_eq!(m.read_word(8), 0x0A0B0C0D);
    m.write_d_word(16, 0x0102030405060708);
    assert_eq!(m.read_d_word(16), 0x0102030405060708);
    assert_eq!(m.read_q_word(23), 0x08);
    m.write_q_word(MEMORY_SIZE - 1, 7);
    assert_eq!(m.read_q_word(MEMORY_SIZE - 1), 7);
}

#[test]
fn ram_accesses_past_the_end_fault() {
    let mut ram = Ram::new(8);
    assert_eq!(ram.store32(6, 1), Err(FalconError::OutOfBounds { addr: 6, size: 4 }));
    assert_eq!(ram.load16(7), Err(FalconError::OutOfBounds { addr: 7, size: 2 }));
    assert_eq!(ram.store16(6, 0xBEEF), Ok(()));
    assert_eq!(ram.load8(6), Ok(0xEF));
    assert_eq!(ram.load16(6), Ok(0xBEEF));
}

#[test]
fn loaded_words_and_bytes_read_back() {
    let mut ram = Ram::new(64);
    load_words(&mut ram, 4, &[0x11223344, 0x55667788]).unwrap();
    load_bytes(&mut ram, 20, &[9, 8, 7]).unwrap();
    assert_eq!(ram.load32(4), Ok(0x11223344));
    assert_eq!(ram.load32(8), Ok(0x55667788));
    assert_eq!(ram.load8(21), Ok(8));
}

#[test]
fn loading_past_the_end_stops_with_the_fault() {
    let mut ram = Ram::new(8);
    assert_eq!(
        load_words(&mut ram, 4, &[1, 2]),
        Err(FalconError::OutOfBounds { addr: 8, size: 4 })
    );
    assert_eq!(ram.load32(4), Ok(1));
    assert_eq!(load_bytes(&mut ram, 7, &[1, 2]), Err(FalconError::OutOfBounds { addr: 8, size: 1 }));
}

#[test]
fn decode_inverts_encode() {
    let samples = [
        Instruction::Addi { rd: 3, rs1: 4, imm: -2048 },
        Instruction::Sw { rs2: 1, rs1: 2, imm: 2047 },
        Instruction::Beq { rs1: 1, rs2: 2, imm: -4096 },
        Instruction::Jal { rd: 1, imm: 1048574 },
        Instruction::Lui { rd: 7, imm: -4096 },
        Instruction::Srai { rd: 1, rs1: 2, shamt: 31 },
        Instruction::Mulhsu { rd: 1, rs1: 2, rs2: 3 },
        Instruction::Ecall,
        Instruction::Ebreak,
    ];
    for i in samples {
        let w = encode(i).unwrap();
        assert_eq!(decode(w), Ok(i));
    }
}

#[test]
fn encode_rejects_out_of_range_fields() {
    assert!(encode(Instruction::Addi { rd: 1, rs1: 0, imm: 4096 }).is_err());
    assert!(encode(Instruction::Add { rd: 32, rs1: 0, rs2: 0 }).is_err());
    assert!(encode(Instruction::Beq { rs1: 0, rs2: 0, imm: 3 }).is_err());
}

#[test]
fn arch_starts_zeroed() {
    let a = FalconArch::new();
    assert!(a.registers.iter().all(|r| r.value == 0));
    assert_eq!(a.pc.value, 0);
    assert_eq!(a.memory.read_word(0), 0);
}

#[test]
fn console_input_is_first_in_first_out() {
    let mut c = Console::default();
    c.push_input("one");
    c.push_input("two");
    assert_eq!(c.read_line().as_deref(), Some("one"));
    assert_eq!(c.read_line().as_deref(), Some("two"));
    assert_eq!(c.read_line(), None);
    assert_eq!(c.lines, vec!["one".to_string(), "two".to_string()]);
}

#[test]
fn memory_writes_leave_other_bytes_alone() {
    let mut m = Memory::new();
    m.write_word(100, 0xDEADBEEF);
    m.write_d_word(200, 0x1122334455667788);
    assert_eq!(m.read_word(200), 0x11223344);
    assert_eq!(m.read_word(204), 0x55667788);
    assert_eq!(m.read_q_word(99), 0);
    assert_eq!(m.read_q_word(104), 0);
    assert_eq!(m.read_q_word(100), 0xDE);
    assert_eq!(m.read_q_word(103), 0xEF);
    let copy = m.clone();
    assert_eq!(copy.read_d_word(200), 0x1122334455667788);
}
