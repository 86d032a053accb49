//! System calls of the emulated machine, selected by the code in `a7`.
use vstd::prelude::*;
use crate::falcon::errors::FalconError;
use crate::falcon::machine::{self, Machine};
use crate::falcon::memory::{self, Bus};
use crate::falcon::registers::{self, Cpu};
use crate::text::{self, chars_of, push_decimal, string_from_utf8, string_of};
use crate::ui::console::Console;

verus! {

/// The bytes of the string starting at `a`: up to, not including, the first
/// zero byte, or up to the end of memory if there is none.
pub open spec fn scan(m: Seq<u8>, a: int) -> Seq<u8>
    decreases m.len() - a,
{
    if a < 0 || a >= m.len() || m[a] == 0 {
        seq![]
    } else {
        seq![m[a]] + scan(m, a + 1)
    }
}

/// Whether the string starting at `a` ends with a zero byte inside memory.
pub open spec fn terminated(m: Seq<u8>, a: int) -> bool {
    a + scan(m, a).len() < m.len()
}

/// The first address past the end of memory that a write of `n` bytes
/// from `a` reaches.
pub open spec fn first_outside(len: nat, a: u32) -> u32 {
    if (a as int) < len {
        len as u32
    } else {
        a
    }
}

/// Effect of system call `code` on machine `m`: the machine after it and
/// what the call returns (`Ok(true)` to go on, `Ok(false)` to stop, `Err` on
/// a memory fault).
pub open spec fn syscall_effect(code: u32, m: Machine) -> (Machine, Result<bool, FalconError>) {
    let a0 = registers::reg_value(m.x, 10);
    if code == 1 {
        let s = text::dec_int((a0 as i32) as int);
        (
            Machine {
                stdout: m.stdout + machine::ascii_bytes(s),
                lines: m.lines.push(s),
                ..m
            },
            Ok(true),
        )
    } else if code == 2 {
        let bs = scan(m.mem, a0 as int);
        let out = Machine { stdout: m.stdout + bs, ..m };
        if terminated(m.mem, a0 as int) {
            if vstd::utf8::valid_utf8(bs) {
                (Machine { lines: m.lines.push(vstd::utf8::decode_utf8(bs)), ..out }, Ok(true))
            } else {
                (out, Ok(true))
            }
        } else {
            (out, Err(memory::oob((a0 + bs.len()) as u32, 1)))
        }
    } else if code == 3 {
        if m.input.len() == 0 {
            (Machine { reading: true, ..m }, Ok(false))
        } else {
            let bs = vstd::utf8::encode_utf8(m.input[0]).push(0u8);
            let after = Machine {
                mem: memory::write_at(m.mem, a0 as int, bs),
                input: m.input.drop_first(),
                ..m
            };
            if memory::in_bounds(m.mem.len(), a0, bs.len()) {
                (Machine { reading: false, ..after }, Ok(true))
            } else {
                (after, Err(memory::oob(first_outside(m.mem.len(), a0), 1)))
            }
        }
    } else {
        (machine::with_line(m, "Unknown syscall code "@ + text::dec_int(code as int)), Ok(false))
    }
}

/// System call 1 prints `a0` as a signed 32-bit number: the decimal text of
/// its two's-complement value, so a register holding `0xFFFFFFFB` prints
/// `-5`. The text goes both to the program output and to a new console
/// line, nothing else changes, and execution goes on.
pub proof fn lemma_print_int_is_signed(m: Machine)
    ensures
        ({
            let v = machine::signed32(registers::reg_value(m.x, 10));
            let s = text::dec_int(v);
            &&& i32::MIN <= v <= i32::MAX
            &&& syscall_effect(1, m) == (
                Machine { stdout: m.stdout + machine::ascii_bytes(s), lines: m.lines.push(s), ..m },
                Ok::<bool, FalconError>(true),
            )
        }),
{
    machine::lemma_as_i32(registers::reg_value(m.x, 10));
}

/// The bytes `scan` collects are the nonzero bytes from `a` on, in order,
/// stopping at a zero byte or the end of memory.
proof fn lemma_scan_reads_until_zero(m: Seq<u8>, a: int)
    requires
        0 <= a,
    ensures
        forall|k: int| 0 <= k < scan(m, a).len() ==> a + k < m.len() && #[trigger] scan(m, a)[k]
            == m[a + k] && m[a + k] != 0,
        a + scan(m, a).len() < m.len() ==> m[a + scan(m, a).len()] == 0,
    decreases m.len() - a,
{
    lemma_scan_len(m, a);
    if a < m.len() && m[a] != 0 {
        lemma_scan_reads_until_zero(m, a + 1);
        let s1 = scan(m, a + 1);
        assert(scan(m, a) == seq![m[a]] + s1);
        assert forall|k: int| 0 <= k < scan(m, a).len() implies a + k < m.len() && #[trigger] scan(
            m,
            a,
        )[k] == m[a + k] && m[a + k] != 0 by {
            if k > 0 {
                assert(scan(m, a)[k] == s1[k - 1]);
            }
        }
    }
}

/// System call 2 prints the zero-terminated string at `a0`: the program
/// output gains exactly the bytes from `a0` on up to, not including, the
/// first zero byte. When a zero byte ends them inside memory the call goes
/// on (and shows the text as a console line when it is valid UTF-8);
/// when the bytes run to the end of memory it reports a fault instead.
/// Memory, registers and the program counter stay as they were.
pub proof fn lemma_print_string_copies_until_zero(m: Machine)
    ensures
        ({
            let a = registers::reg_value(m.x, 10) as int;
            let m2 = syscall_effect(2, m).0;
            let r = syscall_effect(2, m).1;
            let out = m2.stdout.subrange(m.stdout.len() as int, m2.stdout.len() as int);
            &&& m2.stdout.len() >= m.stdout.len()
            &&& m2.stdout.subrange(0, m.stdout.len() as int) == m.stdout
            &&& forall|k: int| 0 <= k < out.len() ==> a + k < m.mem.len() && #[trigger] out[k]
                == m.mem[a + k] && m.mem[a + k] != 0
            &&& (a + out.len() < m.mem.len() ==> m.mem[a + out.len()] == 0 && r == Ok::<
                bool,
                FalconError,
            >(true))
            &&& (a + out.len() >= m.mem.len() ==> r is Err)
            &&& m2.mem == m.mem && m2.x == m.x && m2.pc == m.pc && m2.input == m.input
        }),
{
    let a = registers::reg_value(m.x, 10) as int;
    lemma_scan_reads_until_zero(m.mem, a);
    lemma_scan_len(m.mem, a);
    let bs = scan(m.mem, a);
    let m2 = syscall_effect(2, m).0;
    assert(m2.stdout == m.stdout + bs);
    let out = m2.stdout.subrange(m.stdout.len() as int, m2.stdout.len() as int);
    assert(out =~= bs);
    assert(m2.stdout.subrange(0, m.stdout.len() as int) =~= m.stdout);
    assert forall|k: int| 0 <= k < out.len() implies a + k < m.mem.len() && #[trigger] out[k]
        == m.mem[a + k] && m.mem[a + k] != 0 by {
        assert(out[k] == bs[k]);
    }
}

/// System call 3 reads a line: with a line of input queued, it writes the
/// line's UTF-8 bytes and a zero byte to memory from `a0` on, drops the line
/// from the queue and goes on (a fault if the bytes do not fit); with no
/// input queued it waits: it marks the console as reading and stops, with
/// nothing else changed.
pub proof fn lemma_read_line(m: Machine)
    ensures
        ({
            let a = registers::reg_value(m.x, 10) as int;
            let (m2, r) = syscall_effect(3, m);
            &&& m.input.len() == 0 ==> m2 == (Machine { reading: true, ..m }) && r == Ok::<
                bool,
                FalconError,
            >(false)
            &&& m.input.len() > 0 ==> {
                let bs = vstd::utf8::encode_utf8(m.input[0]);
                &&& m2.input == m.input.drop_first()
                &&& m2.mem.len() == m.mem.len()
                &&& (a + bs.len() + 1 <= m.mem.len() ==> {
                    &&& r == Ok::<bool, FalconError>(true)
                    &&& !m2.reading
                    &&& forall|k: int| 0 <= k < bs.len() ==> #[trigger] m2.mem[a + k] == bs[k]
                    &&& m2.mem[a + bs.len()] == 0
                    &&& forall|k: int|
                        0 <= k < m.mem.len() && !(a <= k <= a + bs.len()) ==> #[trigger] m2.mem[k]
                            == m.mem[k]
                })
                &&& (a + bs.len() + 1 > m.mem.len() ==> r is Err)
            }
            &&& m2.x == m.x && m2.pc == m.pc && m2.stdout == m.stdout && m2.lines == m.lines
        }),
{
}

proof fn lemma_scan_step(m: Seq<u8>, a: int)
    requires
        0 <= a < m.len(),
        m[a] != 0,
    ensures
        scan(m, a) == seq![m[a]] + scan(m, a + 1),
        terminated(m, a) == terminated(m, a + 1),
{
}

proof fn lemma_scan_len(m: Seq<u8>, a: int)
    requires
        0 <= a,
    ensures
        a < m.len() ==> a + scan(m, a).len() <= m.len(),
        a >= m.len() ==> scan(m, a).len() == 0,
    decreases m.len() - a,
{
    if a < m.len() && m[a] != 0 {
        lemma_scan_len(m, a + 1);
    }
}

/// Reads the zero-terminated string at `start`: its bytes, and a fault if
/// the string runs past the end of memory.
fn read_cstring<B: Bus>(mem: &B, start: u32) -> (r: (Vec<u8>, Result<(), FalconError>))
    ensures
        r.0@ == scan(mem.bytes(), start as int),
        terminated(mem.bytes(), start as int) ==> r.1 == Ok::<(), FalconError>(()),
        !terminated(mem.bytes(), start as int) ==> r.1 == Err::<(), FalconError>(
            memory::oob((start + scan(mem.bytes(), start as int).len()) as u32, 1),
        ),
{
    let size = mem.size();
    let ghost m = mem.bytes();
    let mut addr = start;
    let mut bytes: Vec<u8> = Vec::new();
    loop
        invariant
            start as int <= addr as int,
            size == m.len(),
            size <= u32::MAX,
            mem.bytes() == m,
            addr as int == start as int + bytes@.len(),
            scan(m, start as int) == bytes@ + scan(m, addr as int),
            terminated(m, start as int) == terminated(m, addr as int),
        decreases size - addr,
    {
        match mem.load8(addr) {
            Ok(b) => {
                if b == 0 {
                    assert(scan(m, addr as int) =~= seq![]);
                    assert(bytes@ =~= scan(m, start as int));
                    return (bytes, Ok(()));
                }
                proof {
                    lemma_scan_step(m, addr as int);
                }
                bytes.push(b);
                addr = addr + 1;
                assert(scan(m, start as int) =~= bytes@ + scan(m, addr as int));
            },
            Err(e) => {
                assert(scan(m, addr as int) =~= seq![]);
                assert(bytes@ =~= scan(m, start as int));
                return (bytes, Err(e));
            },
        }
    }
}

/// Writes `bs` followed by a zero byte at `start`; on a fault, the bytes
/// before the first address outside memory are written.
fn write_cstring<B: Bus>(mem: &mut B, start: u32, bs: &[u8]) -> (r: Result<(), FalconError>)
    ensures
        final(mem).bytes() == memory::write_at(old(mem).bytes(), start as int, bs@.push(0u8)),
        memory::in_bounds(old(mem).bytes().len(), start, bs@.len() + 1) ==> r == Ok::<
            (),
            FalconError,
        >(()),
        !memory::in_bounds(old(mem).bytes().len(), start, bs@.len() + 1) ==> r == Err::<
            (),
            FalconError,
        >(memory::oob(first_outside(old(mem).bytes().len(), start), 1)),
{
    let ghost m0 = mem.bytes();
    let ghost all = bs@.push(0u8);
    let size = mem.size();
    let mut addr = start;
    let mut i: usize = 0;
    while i <= bs.len()
        invariant
            i <= bs@.len() + 1,
            all == bs@.push(0u8),
            i <= bs@.len() ==> addr as int == start as int + i,
            size == mem.bytes().len(),
            size == m0.len(),
            m0 == old(mem).bytes(),
            size <= u32::MAX,
            i == 0 || start as int + i <= size,
            mem.bytes() == memory::write_at(m0, start as int, all.subrange(0, i as int)),
        decreases bs@.len() + 1 - i,
    {
        let b = if i < bs.len() {
            bs[i]
        } else {
            0u8
        };
        match mem.store8(addr, b) {
            Ok(()) => {},
            Err(e) => {
                assert(addr as int >= size);
                assert(mem.bytes() == memory::write_at(m0, start as int, all.subrange(0, i as int)));
                assert(memory::write_at(m0, start as int, all) =~= memory::write_at(
                    m0,
                    start as int,
                    all.subrange(0, i as int),
                ));
                return Err(e);
            },
        }
        assert(memory::write_at(m0, start as int, all.subrange(0, i as int)).update(start + i, b)
            =~= memory::write_at(m0, start as int, all.subrange(0, i + 1)));
        i += 1;
        if i <= bs.len() {
            addr = addr + 1;
        }
    }
    assert(all.subrange(0, i as int) =~= all);
    Ok(())
}

/// Executes system call `code`.
///
/// `1` prints `a0` as a signed decimal, `2` prints the zero-terminated string
/// at address `a0`, `3` reads a queued input line into memory at `a0` (zero
/// terminated) or, when none is queued, marks the console as waiting for
/// input and returns `Ok(false)`. Any other code shows an error and returns
/// `Ok(false)`.
pub fn handle_syscall<B: Bus>(code: u32, cpu: &mut Cpu, mem: &mut B, console: &mut Console) -> (r:
    Result<bool, FalconError>)
    requires
        old(cpu).x@.len() == 32,
    ensures
        syscall_effect(code, machine::machine(old(cpu), old(mem), old(console))) == (
            machine::machine(final(cpu), final(mem), final(console)),
            r,
        ),
        final(cpu).pc == old(cpu).pc,
        final(console).scroll == old(console).scroll,
        final(console).current == old(console).current,
{
    let ghost m0 = machine::machine(&*cpu, &*mem, &*console);
    if code == 1 {
        let v = cpu.read(10) as i32;
        let mut s: Vec<char> = Vec::new();
        push_decimal(&mut s, v as i64);
        proof {
            text::lemma_dec_int_ascii(v as int);
        }
        let mut i: usize = 0;
        while i < s.len()
            invariant
                i <= s@.len(),
                cpu.x@ == m0.x,
                cpu.pc == m0.pc,
                cpu.stdout@ == m0.stdout + machine::ascii_bytes(s@.subrange(0, i as int)),
                forall|j: int| 0 <= j < s@.len() ==> (#[trigger] s@[j]) as int <= 127,
            decreases s@.len() - i,
        {
            let c = s[i];
            cpu.stdout.push(c as u8);
            i += 1;
            assert(machine::ascii_bytes(s@.subrange(0, i as int)) =~= machine::ascii_bytes(
                s@.subrange(0, i - 1),
            ).push(c as u8));
        }
        assert(s@.subrange(0, i as int) =~= s@);
        console.push_line(string_of(s.as_slice()));
        Ok(true)
    } else if code == 2 {
        let start = cpu.read(10);
        let (bytes, res) = read_cstring(&*mem, start);
        let mut out = vstd::slice::slice_to_vec(bytes.as_slice());
        cpu.stdout.append(&mut out);
        match res {
            Ok(()) => {},
            Err(e) => {
                return Err(e);
            },
        }
        match string_from_utf8(bytes.as_slice()) {
            Some(s) => {
                console.push_line(s);
            },
            None => {},
        }
        Ok(true)
    } else if code == 3 {
        let start = cpu.read(10);
        match console.read_line() {
            Some(line) => {
                let lb = line.as_str().as_bytes();
                match write_cstring(mem, start, lb) {
                    Ok(()) => {},
                    Err(e) => {
                        return Err(e);
                    },
                }
                console.reading = false;
                Ok(true)
            },
            None => {
                console.reading = true;
                Ok(false)
            },
        }
    } else {
        let mut msg = chars_of("Unknown syscall code ");
        push_decimal(&mut msg, code as i64);
        console.push_error(string_of(msg.as_slice()));
        Ok(false)
    }
}

} // verus!
