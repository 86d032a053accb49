use falcon_asm::falcon::encoder;
use falcon_asm::falcon::exec::{run, step};
use falcon_asm::falcon::instruction::Instruction;
use falcon_asm::falcon::{Bus, Cpu, Ram};
use falcon_asm::ui::Console;

#[test]
fn halt_halts() {
    let mut cpu = Cpu::default();
    let mut mem = Ram::new(4);
    let mut console = Console::default();
    let inst = encoder::encode(Instruction::Halt).unwrap();
    mem.store32(0, inst).unwrap();
    assert!(!step(&mut cpu, &mut mem, &mut console));
}

#[test]
fn sw_stores_word() {
    let mut cpu = Cpu::default();
    let mut mem = Ram::new(64);
    let mut console = Console::default();
    cpu.write(1, 0xDEADBEEF);
    cpu.write(2, 0x20);
    let sw = encoder::encode(Instruction::Sw { rs2: 1, rs1: 2, imm: 0 }).unwrap();
    let halt = encoder::encode(Instruction::Halt).unwrap();
    mem.store32(0, sw).unwrap();
    mem.store32(4, halt).unwrap();
    assert!(step(&mut cpu, &mut mem, &mut console));
    assert_eq!(mem.load32(0x20), Ok(0xDEADBEEF));
    assert!(!step(&mut cpu, &mut mem, &mut console));
}

#[test]
fn syscall_print_int() {
    let mut cpu = Cpu::default();
    let mut mem = Ram::new(4);
    let mut console = Console::default();
    cpu.write(10, 42);
    cpu.write(17, 1);
    let inst = encoder::encode(Instruction::Ecall).unwrap();
    mem.store32(0, inst).unwrap();
    assert!(step(&mut cpu, &mut mem, &mut console));
    assert_eq!(cpu.stdout, b"42");
}

#[test]
fn syscall_print_string() {
    let mut cpu = Cpu::default();
    let mut mem = Ram::new(64);
    let mut console = Console::default();
    let addr = 8u32;
    let msg = b"hi\0";
    for (i, b) in msg.iter().enumerate() {
        mem.store8(addr + i as u32, *b).unwrap();
    }
    cpu.write(10, addr);
    cpu.write(17, 2);
    let inst = encoder::encode(Instruction::Ecall).unwrap();
    mem.store32(0, inst).unwrap();
    assert!(step(&mut cpu, &mut mem, &mut console));
    assert_eq!(cpu.stdout, b"hi");
}

#[test]
fn syscall_read_string() {
    let mut cpu = Cpu::default();
    let mut mem = Ram::new(64);
    let mut console = Console::default();
    console.push_input("hi");
    let addr = 8u32;
    cpu.write(10, addr);
    cpu.write(17, 3);
    let inst = encoder::encode(Instruction::Ecall).unwrap();
    mem.store32(0, inst).unwrap();

    assert!(step(&mut cpu, &mut mem, &mut console));
    assert_eq!(mem.load8(addr), Ok(b'h'));
    assert_eq!(mem.load8(addr + 1), Ok(b'i'));
    assert_eq!(mem.load8(addr + 2), Ok(0));
}

#[test]
fn syscall_read_waits_for_input() {
    let mut cpu = Cpu::default();
    let mut mem = Ram::new(64);
    let mut console = Console::default();
    let addr = 8u32;
    cpu.write(10, addr);
    cpu.write(17, 3);
    let ecall = encoder::encode(Instruction::Ecall).unwrap();
    let halt = encoder::encode(Instruction::Halt).unwrap();
    mem.store32(0, ecall).unwrap();
    mem.store32(4, halt).unwrap();

    assert!(!step(&mut cpu, &mut mem, &mut console));
    assert_eq!(cpu.pc, 0);

    console.push_input("hi");
    assert!(step(&mut cpu, &mut mem, &mut console));
    assert_eq!(cpu.pc, 4);
    assert_eq!(mem.load8(addr), Ok(b'h'));
    assert_eq!(mem.load8(addr + 1), Ok(b'i'));
    assert_eq!(mem.load8(addr + 2), Ok(0));

    assert!(!step(&mut cpu, &mut mem, &mut console));
}

#[test]
fn run_stops_at_halt_and_counts_steps() {
    let mut cpu = Cpu::default();
    let mut mem = Ram::new(16);
    let mut console = Console::default();
    let addi = encoder::encode(Instruction::Addi { rd: 5, rs1: 0, imm: 7 }).unwrap();
    let halt = encoder::encode(Instruction::Halt).unwrap();
    mem.store32(0, addi).unwrap();
    mem.store32(4, addi).unwrap();
    mem.store32(8, halt).unwrap();
    assert_eq!(run(&mut cpu, &mut mem, &mut console, 100), 2);
    assert_eq!(cpu.read(5), 7);
}

#[test]
fn run_respects_step_bound() {
    let mut cpu = Cpu::default();
    let mut mem = Ram::new(16);
    let mut console = Console::default();
    let jump_self = encoder::encode(Instruction::Jal { rd: 0, imm: 0 }).unwrap();
    mem.store32(0, jump_self).unwrap();
    assert_eq!(run(&mut cpu, &mut mem, &mut console, 25), 25);
    assert_eq!(cpu.pc, 0);
}

#[test]
fn fetch_out_of_memory_reports_fault() {
    let mut cpu = Cpu::default();
    let mut mem = Ram::new(4);
    let mut console = Console::default();
    cpu.pc = 8;
    assert!(!step(&mut cpu, &mut mem, &mut console));
    assert_eq!(console.lines.len(), 1);
    assert_eq!(console.lines[0], "Memory access out of bounds at 0x00000008");
}

#[test]
fn x0_stays_zero() {
    let mut cpu = Cpu::default();
    cpu.write(0, 99);
    assert_eq!(cpu.read(0), 0);
    cpu.write(3, 99);
    assert_eq!(cpu.read(3), 99);
}

#[test]
fn run_of_no_steps_changes_nothing() {
    let mut cpu = Cpu::default();
    let mut mem = Ram::new(16);
    let mut console = Console::default();
    let addi = encoder::encode(Instruction::Addi { rd: 5, rs1: 0, imm: 7 }).unwrap();
    mem.store32(0, addi).unwrap();
    assert_eq!(run(&mut cpu, &mut mem, &mut console, 0), 0);
    assert_eq!(cpu.pc, 0);
    assert_eq!(cpu.read(5), 0);
    assert!(console.lines.is_empty());
}
