//! The application state: editor, diagnostics, the emulated machine and the
//! view settings, with the actions that assemble, load and step a program.
//! Times are milliseconds since the application started; the caller reads
//! the clock and hands the reading in.
use vstd::prelude::*;
use crate::falcon::assembler::{self, assemble};
use crate::falcon::exec::{self, step};
use crate::falcon::machine;
use crate::falcon::program::{self, load_bytes, load_words};
use crate::falcon::registers::Cpu;
use crate::falcon::memory::Ram;
use crate::text::{self, chars_of, push_dec_nat, string_of};
use crate::ui::console::{self, Console};
use crate::ui::editor::{self, Editor};
use crate::falcon::assembler::chars::push_text;

verus! {

#[derive(Clone, Copy, Debug, PartialEq, Eq, Structural)]
pub enum Tab {
    Editor,
    Run,
    Docs,
}

#[derive(Clone, Copy, Debug, PartialEq, Eq, Structural)]
pub enum EditorMode {
    Insert,
    Command,
}

#[derive(Clone, Copy, Debug, PartialEq, Eq, Structural)]
pub enum MemRegion {
    Data,
    Stack,
    Custom,
}

#[derive(Clone, Copy, Debug, PartialEq, Eq, Structural)]
pub enum RunButton {
    View,
    Format,
    Sign,
    Bytes,
    Region,
    State,
}

/// Bytes of RAM a program runs in.
pub const MEM_SIZE: usize = 131072;

pub struct App {
    pub tab: Tab,
    pub mode: EditorMode,
    pub editor: Editor,
    pub editor_dirty: bool,
    pub last_edit_at: Option<u64>,
    pub auto_check_delay: u64,
    pub last_assemble_msg: Option<String>,
    pub last_compile_ok: Option<bool>,
    pub diag_line: Option<usize>,
    pub diag_msg: Option<String>,
    pub diag_line_text: Option<String>,
    pub cpu: Cpu,
    pub prev_x: [u32; 32],
    pub prev_pc: u32,
    pub mem: Ram,
    pub mem_size: usize,
    pub base_pc: u32,
    pub data_base: u32,
    pub mem_view_addr: u32,
    pub mem_view_bytes: u32,
    pub mem_region: MemRegion,
    pub show_registers: bool,
    pub show_hex: bool,
    pub show_signed: bool,
    pub imem_width: u16,
    pub hover_imem_bar: bool,
    pub imem_drag: bool,
    pub imem_drag_start_x: u16,
    pub imem_width_start: u16,
    pub console_height: u16,
    pub hover_console_bar: bool,
    pub console_drag: bool,
    pub console_drag_start_y: u16,
    pub console_height_start: u16,
    pub regs_scroll: usize,
    pub is_running: bool,
    pub last_step_time: u64,
    pub step_interval: u64,
    pub faulted: bool,
    pub show_exit_popup: bool,
    pub should_quit: bool,
    pub docs_scroll: usize,
    pub mouse_x: u16,
    pub mouse_y: u16,
    pub hover_tab: Option<Tab>,
    pub hover_run_button: Option<RunButton>,
    pub console: Console,
}

// ---------- views ----------

/// The text of an optional string.
pub open spec fn opt_text(o: Option<String>) -> Option<Seq<char>> {
    match o {
        Some(s) => Some(s@),
        None => None,
    }
}

/// Registers after a reset: all zero but the stack pointer, which points at
/// the last word of RAM.
pub open spec fn fresh_regs() -> Seq<u32> {
    Seq::new(32, |i: int| 0u32).update(2, (MEM_SIZE - 4) as u32)
}

/// `MEM_SIZE` zero bytes.
pub open spec fn zero_ram() -> Seq<u8> {
    Seq::new(MEM_SIZE as nat, |i: int| 0u8)
}

/// The source text in the editor.
pub open spec fn source_of(a: &App) -> Seq<char> {
    editor::joined(console::texts(a.editor.lines@))
}

/// The machine the CPU, RAM and console of `a` make.
pub open spec fn machine_of(a: &App) -> machine::Machine {
    machine::machine(&a.cpu, &a.mem, &a.console)
}

/// Whether the editor and every view, layout and input setting of `b` are those of `a`.
pub open spec fn same_view(a: &App, b: &App) -> bool {
    &&& b.tab == a.tab
    &&& b.mode == a.mode
    &&& console::texts(b.editor.lines@) == console::texts(a.editor.lines@)
    &&& b.editor.cursor_row == a.editor.cursor_row
    &&& b.editor.cursor_col == a.editor.cursor_col
    &&& b.editor.selection_anchor == a.editor.selection_anchor
    &&& editor::history_view(b.editor.history@) == editor::history_view(a.editor.history@)
    &&& b.last_edit_at == a.last_edit_at
    &&& b.auto_check_delay == a.auto_check_delay
    &&& b.mem_view_bytes == a.mem_view_bytes
    &&& b.show_registers == a.show_registers
    &&& b.show_hex == a.show_hex
    &&& b.show_signed == a.show_signed
    &&& b.imem_width == a.imem_width
    &&& b.hover_imem_bar == a.hover_imem_bar
    &&& b.imem_drag == a.imem_drag
    &&& b.imem_drag_start_x == a.imem_drag_start_x
    &&& b.imem_width_start == a.imem_width_start
    &&& b.console_height == a.console_height
    &&& b.hover_console_bar == a.hover_console_bar
    &&& b.console_drag == a.console_drag
    &&& b.console_drag_start_y == a.console_drag_start_y
    &&& b.console_height_start == a.console_height_start
    &&& b.regs_scroll == a.regs_scroll
    &&& b.step_interval == a.step_interval
    &&& b.show_exit_popup == a.show_exit_popup
    &&& b.should_quit == a.should_quit
    &&& b.docs_scroll == a.docs_scroll
    &&& b.mouse_x == a.mouse_x
    &&& b.mouse_y == a.mouse_y
    &&& b.hover_tab == a.hover_tab
    &&& b.hover_run_button == a.hover_run_button
}

/// Whether the assembler diagnostics of `b` are those of `a`.
pub open spec fn same_diagnostics(a: &App, b: &App) -> bool {
    &&& opt_text(b.last_assemble_msg) == opt_text(a.last_assemble_msg)
    &&& b.last_compile_ok == a.last_compile_ok
    &&& b.diag_line == a.diag_line
    &&& opt_text(b.diag_msg) == opt_text(a.diag_msg)
    &&& opt_text(b.diag_line_text) == opt_text(a.diag_line_text)
    &&& b.editor_dirty == a.editor_dirty
}

/// Whether the emulated machine of `b`, and where it was loaded, are those of `a`.
pub open spec fn same_machine(a: &App, b: &App) -> bool {
    &&& machine_of(b) == machine_of(a)
    &&& b.console.scroll == a.console.scroll
    &&& b.console.current@ == a.console.current@
    &&& b.prev_x@ == a.prev_x@
    &&& b.prev_pc == a.prev_pc
    &&& b.mem_size == a.mem_size
    &&& b.base_pc == a.base_pc
    &&& b.data_base == a.data_base
    &&& b.mem_view_addr == a.mem_view_addr
    &&& b.mem_region == a.mem_region
    &&& b.is_running == a.is_running
    &&& b.faulted == a.faulted
}

/// `Assembled N instructions, M data bytes.`
pub open spec fn loaded_msg(words: nat, bytes: nat) -> Seq<char> {
    "Assembled "@ + text::dec_nat(words) + " instructions, "@ + text::dec_nat(bytes) + " data bytes."@
}

/// `OK: N instructions, M data bytes`
pub open spec fn checked_msg(words: nat, bytes: nat) -> Seq<char> {
    "OK: "@ + text::dec_nat(words) + " instructions, "@ + text::dec_nat(bytes) + " data bytes"@
}

/// `Assemble error at line N: message`, with the line counted from 1.
pub open spec fn error_msg(line: int, msg: Seq<char>) -> Seq<char> {
    "Assemble error at line "@ + text::dec_nat((line + 1) as nat) + ": "@ + msg
}

/// Memory after loading a program's words at `base` and then its data at
/// `db` into zeroed RAM. Each load stops at its first store that faults, and
/// the data are loaded whether or not the words all fit.
pub open spec fn loaded_ram(base: u32, ws: Seq<u32>, db: u32, data: Seq<u8>) -> Seq<u8> {
    program::bytes_stored(program::words_stored(zero_ram(), base, ws), db, data)
}

/// The source line `n` of the editor, if there is one.
pub open spec fn line_text(a: &App, n: int) -> Option<Seq<char>> {
    let ls = console::texts(a.editor.lines@);
    if 0 <= n < ls.len() {
        Some(ls[n])
    } else {
        None
    }
}

/// Diagnostics of `b` after an assembly of `a`'s source failed at line `n`
/// with message `m`.
pub open spec fn shows_error(a: &App, b: &App, n: int, m: Seq<char>) -> bool {
    &&& b.diag_line == Some(n as usize)
    &&& opt_text(b.diag_msg) == Some(m)
    &&& opt_text(b.diag_line_text) == line_text(a, n)
    &&& b.last_compile_ok == Some(false)
}

/// Diagnostics of `b` cleared after a successful assembly.
pub open spec fn shows_success(b: &App) -> bool {
    &&& b.last_compile_ok == Some(true)
    &&& b.diag_line is None
    &&& b.diag_msg is None
    &&& b.diag_line_text is None
}

/// `n` minus `m`, or zero when `m` is larger.
pub open spec fn since(n: u64, m: u64) -> u64 {
    if n >= m {
        (n - m) as u64
    } else {
        0
    }
}

/// `b` is `a` after one emulation step: the machine as the step leaves it,
/// the registers and program counter from before remembered, running
/// stopped if the step stopped execution, and a fault recorded unless the
/// program waits for input.
pub open spec fn stepped(a: &App, b: &App) -> bool {
    let (m, alive) = exec::step_effect(machine_of(a));
    &&& machine_of(b) == m
    &&& b.is_running == (a.is_running && alive)
    &&& b.faulted == (a.faulted || (!alive && !m.reading))
    &&& b.prev_x@ == a.cpu.x@
    &&& b.prev_pc == a.cpu.pc
    &&& b.console.scroll == a.console.scroll
    &&& b.console.current@ == a.console.current@
    &&& b.mem_size == a.mem_size
    &&& b.base_pc == a.base_pc
    &&& b.data_base == a.data_base
    &&& b.mem_view_addr == a.mem_view_addr
    &&& b.mem_region == a.mem_region
}

/// The diagnostics of `b` after checking that `a`'s source assembles.
pub open spec fn checked(a: &App, b: &App) -> bool {
    &&& match assembler::assembly(source_of(a), a.base_pc) {
        Ok((ws, data, db)) => {
            &&& opt_text(b.last_assemble_msg) == Some(checked_msg(ws.len(), data.len()))
            &&& shows_success(b)
        },
        Err((n, m)) => {
            &&& opt_text(b.last_assemble_msg) == opt_text(a.last_assemble_msg)
            &&& shows_error(a, b, n, m)
        },
    }
    &&& !b.editor_dirty
}

/// `b` is `a` after a reset of the machine and an assembly of the editor's
/// source loaded into the fresh RAM (or the reason it could not be).
pub open spec fn assembled_and_loaded(a: &App, b: &App) -> bool {
    &&& b.prev_x@ == a.cpu.x@
    &&& b.mem_size == MEM_SIZE
    &&& b.cpu.x@ == fresh_regs()
    &&& b.cpu.pc == a.base_pc
    &&& b.cpu.stdout@ == Seq::<u8>::empty()
    &&& b.prev_pc == a.base_pc
    &&& b.base_pc == a.base_pc
    &&& b.console == a.console
    &&& b.is_running == a.is_running
    &&& b.editor_dirty == a.editor_dirty
    &&& b.last_step_time == a.last_step_time
    &&& same_view(a, b)
    &&& match assembler::assembly(source_of(a), a.base_pc) {
        Ok((ws, data, db)) => {
            &&& b.mem.contents() == loaded_ram(a.base_pc, ws, db, data)
            &&& !b.faulted
            &&& b.data_base == db
            &&& b.mem_view_addr == db
            &&& b.mem_region == MemRegion::Data
            &&& opt_text(b.last_assemble_msg) == Some(loaded_msg(ws.len(), data.len()))
            &&& shows_success(b)
        },
        Err((n, m)) => {
            &&& b.mem.contents() == zero_ram()
            &&& !b.faulted
            &&& b.data_base == a.data_base
            &&& b.mem_view_addr == a.mem_view_addr
            &&& b.mem_region == a.mem_region
            &&& opt_text(b.last_assemble_msg) == Some(error_msg(n, m))
            &&& shows_error(a, b, n, m)
        },
    }
}

/// `b` is `a` after one emulation step, with nothing else changed.
pub open spec fn single_stepped(a: &App, b: &App) -> bool {
    &&& stepped(a, b)
    &&& b.last_step_time == a.last_step_time
    &&& same_view(a, b)
    &&& same_diagnostics(a, b)
}

// ---------- message builders ----------

fn counts_message(prefix: &str, words: usize, middle: &str, bytes: usize, suffix: &str) -> (s: Option<
    String,
>)
    ensures
        opt_text(s) == Some(prefix@ + text::dec_nat(words as nat) + middle@ + text::dec_nat(
            bytes as nat,
        ) + suffix@),
{
    let mut out: Vec<char> = Vec::new();
    push_text(&mut out, prefix);
    push_dec_nat(&mut out, words as u128);
    push_text(&mut out, middle);
    push_dec_nat(&mut out, bytes as u128);
    push_text(&mut out, suffix);
    Some(string_of(out.as_slice()))
}

fn line_of(lines: &Vec<String>, n: usize) -> (r: Option<String>)
    ensures
        opt_text(r) == (if n < lines@.len() {
            Some(lines@[n as int]@)
        } else {
            None::<Seq<char>>
        }),
{
    if n < lines.len() {
        let cs = chars_of(lines[n].as_str());
        Some(string_of(cs.as_slice()))
    } else {
        None
    }
}

fn copy_string(s: &String) -> (r: String)
    ensures
        r@ == s@,
{
    let cs = chars_of(s.as_str());
    string_of(cs.as_slice())
}

fn copy_opt(o: &Option<String>) -> (r: Option<String>)
    ensures
        opt_text(r) == opt_text(*o),
{
    match o {
        Some(s) => Some(copy_string(s)),
        None => None,
    }
}

impl App {
    /// A fresh application: the sample program in the editor (not yet
    /// assembled), a reset machine with zeroed RAM, and the default view.
    pub fn new() -> (a: Self)
        ensures
            a.tab == Tab::Editor,
            a.mode == EditorMode::Insert,
            console::texts(a.editor.lines@) == editor::sample_lines(),
            a.editor.cursor_row == 0,
            a.editor.cursor_col == 0,
            a.editor.selection_anchor is None,
            a.editor_dirty,
            a.last_edit_at == Some(0u64),
            a.auto_check_delay == 400,
            a.last_assemble_msg is None,
            a.last_compile_ok is None,
            a.diag_line is None,
            a.diag_msg is None,
            a.diag_line_text is None,
            a.cpu.x@ == fresh_regs(),
            a.cpu.pc == 0,
            a.cpu.stdout@ == Seq::<u8>::empty(),
            a.prev_x@ == Seq::new(32, |i: int| 0u32),
            a.prev_pc == 0,
            a.mem.contents() == zero_ram(),
            a.mem_size == MEM_SIZE,
            a.base_pc == 0,
            a.data_base == 0x1000,
            a.mem_view_addr == 0x1000,
            a.mem_view_bytes == 4,
            a.mem_region == MemRegion::Data,
            a.show_registers,
            a.show_hex,
            !a.show_signed,
            a.imem_width == 38,
            !a.hover_imem_bar,
            !a.imem_drag,
            a.imem_drag_start_x == 0,
            a.imem_width_start == 38,
            a.console_height == 5,
            !a.hover_console_bar,
            !a.console_drag,
            a.console_drag_start_y == 0,
            a.console_height_start == 5,
            a.regs_scroll == 0,
            !a.is_running,
            a.last_step_time == 0,
            a.step_interval == 80,
            !a.faulted,
            !a.show_exit_popup,
            !a.should_quit,
            a.docs_scroll == 0,
            a.mouse_x == 0,
            a.mouse_y == 0,
            a.hover_tab is None,
            a.hover_run_button is None,
            console::texts(a.console.lines@) == Seq::<Seq<char>>::empty(),
            a.console.queued() == Seq::<Seq<char>>::empty(),
            !a.console.reading,
            a.console.scroll == 0,
    {
        let mut cpu = Cpu::default();
        let base_pc: u32 = 0;
        cpu.pc = base_pc;
        let mem_size = MEM_SIZE;
        cpu.write(2, mem_size as u32 - 4);
        let data_base = base_pc + 0x1000;
        let a = App {
            tab: Tab::Editor,
            mode: EditorMode::Insert,
            editor: Editor::with_sample(),
            editor_dirty: true,
            last_edit_at: Some(0),
            auto_check_delay: 400,
            last_assemble_msg: None,
            last_compile_ok: None,
            diag_line: None,
            diag_msg: None,
            diag_line_text: None,
            cpu,
            prev_x: [0; 32],
            prev_pc: base_pc,
            mem_size,
            mem: Ram::new(mem_size),
            base_pc,
            data_base,
            mem_view_addr: data_base,
            mem_view_bytes: 4,
            mem_region: MemRegion::Data,
            show_registers: true,
            show_hex: true,
            show_signed: false,
            imem_width: 38,
            hover_imem_bar: false,
            imem_drag: false,
            imem_drag_start_x: 0,
            imem_width_start: 38,
            console_height: 5,
            hover_console_bar: false,
            console_drag: false,
            console_drag_start_y: 0,
            console_height_start: 5,
            regs_scroll: 0,
            is_running: false,
            last_step_time: 0,
            step_interval: 80,
            faulted: false,
            show_exit_popup: false,
            should_quit: false,
            docs_scroll: 0,
            mouse_x: 0,
            mouse_y: 0,
            hover_tab: None,
            hover_run_button: None,
            console: Console::default(),
        };
        assert(a.cpu.x@ =~= fresh_regs());
        assert(a.prev_x@ =~= Seq::new(32, |i: int| 0u32));
        a
    }
}

impl App {
    /// Executes one instruction, remembering the registers and program
    /// counter from before. When the step stops execution the program stops
    /// running, and it has faulted unless it waits for input.
    #[verifier::spinoff_prover]
    #[verifier::rlimit(60)]
    pub fn single_step(&mut self)
        ensures
            single_stepped(old(self), final(self)),
    {
        self.prev_x = self.cpu.x;
        self.prev_pc = self.cpu.pc;
        let alive = step(&mut self.cpu, &mut self.mem, &mut self.console);
        if !alive {
            self.is_running = false;
            if !self.console.reading {
                self.faulted = true;
            }
        }
    }

    /// Resets the machine (registers, program counter, RAM), assembles the
    /// editor's source and, when it assembles, loads its words at the base
    /// address and its data at the data address, and points the memory view
    /// at the data. Failures show up in the diagnostics.
    #[verifier::spinoff_prover]
    #[verifier::rlimit(60)]
    pub fn assemble_and_load(&mut self)
        ensures
            assembled_and_loaded(old(self), final(self)),
    {
        let prev_x = self.cpu.x;
        let base = self.base_pc;
        let mut cpu = Cpu::default();
        cpu.pc = base;
        cpu.write(2, MEM_SIZE as u32 - 4);
        proof {
            assert(cpu.x@ =~= fresh_regs());
        }
        let mut mem = Ram::new(MEM_SIZE);
        let source = self.editor.text();
        let mut data_base = self.data_base;
        let mut view_addr = self.mem_view_addr;
        let mut region = self.mem_region;
        let msg: Option<String>;
        let ok: Option<bool>;
        let mut dline = self.diag_line;
        let mut dmsg = copy_opt(&self.diag_msg);
        let mut dtext = copy_opt(&self.diag_line_text);
        match assemble(source.as_str(), base) {
            Ok(prog) => {
                let _ = load_words(&mut mem, base, prog.text.as_slice());
                let _ = load_bytes(&mut mem, prog.data_base, prog.data.as_slice());
                data_base = prog.data_base;
                view_addr = prog.data_base;
                region = MemRegion::Data;
                msg = counts_message(
                    "Assembled ",
                    prog.text.len(),
                    " instructions, ",
                    prog.data.len(),
                    " data bytes.",
                );
                ok = Some(true);
                dline = None;
                dmsg = None;
                dtext = None;
            },
            Err(e) => {
                dline = Some(e.line);
                dmsg = Some(copy_string(&e.msg));
                dtext = line_of(&self.editor.lines, e.line);
                ok = Some(false);
                let mut m: Vec<char> = Vec::new();
                push_text(&mut m, "Assemble error at line ");
                push_dec_nat(&mut m, e.line as u128 + 1);
                push_text(&mut m, ": ");
                let mut t = chars_of(e.msg.as_str());
                m.append(&mut t);
                msg = Some(string_of(m.as_slice()));
            },
        }
        self.prev_x = prev_x;
        self.mem_size = MEM_SIZE;
        self.cpu = cpu;
        self.prev_pc = base;
        self.mem = mem;
        self.faulted = false;
        self.data_base = data_base;
        self.mem_view_addr = view_addr;
        self.mem_region = region;
        self.last_assemble_msg = msg;
        self.last_compile_ok = ok;
        self.diag_line = dline;
        self.diag_msg = dmsg;
        self.diag_line_text = dtext;
    }

    /// Assembles the editor's source without touching the machine, and
    /// records the outcome in the diagnostics.
    fn check_assemble(&mut self)
        ensures
            checked(old(self), final(self)),
            same_machine(old(self), final(self)),
            same_view(old(self), final(self)),
            final(self).last_step_time == old(self).last_step_time,
    {
        let source = self.editor.text();
        let mut msg = copy_opt(&self.last_assemble_msg);
        let ok: Option<bool>;
        let dline: Option<usize>;
        let dmsg: Option<String>;
        let dtext: Option<String>;
        match assemble(source.as_str(), self.base_pc) {
            Ok(prog) => {
                msg = counts_message(
                    "OK: ",
                    prog.text.len(),
                    " instructions, ",
                    prog.data.len(),
                    " data bytes",
                );
                ok = Some(true);
                dline = None;
                dmsg = None;
                dtext = None;
            },
            Err(e) => {
                dline = Some(e.line);
                dmsg = Some(copy_string(&e.msg));
                dtext = line_of(&self.editor.lines, e.line);
                ok = Some(false);
            },
        }
        self.last_assemble_msg = msg;
        self.last_compile_ok = ok;
        self.diag_line = dline;
        self.diag_msg = dmsg;
        self.diag_line_text = dtext;
        self.editor_dirty = false;
    }

    /// One turn of the main loop at time `now`: a step when the program
    /// runs and a step interval has passed since the last one, then a
    /// syntax check when the editor is shown, its text changed, and the
    /// check delay has passed since the last edit.
    #[verifier::spinoff_prover]
    #[verifier::rlimit(60)]
    pub fn tick(&mut self, now: u64)
        ensures
            ({
                let stepping = old(self).is_running && since(now, old(self).last_step_time)
                    >= old(self).step_interval;
                let checking = old(self).tab == Tab::Editor && old(self).editor_dirty && (old(
                    self,
                ).last_edit_at matches Some(t) && since(now, t) >= old(self).auto_check_delay);
                &&& stepping ==> stepped(old(self), final(self)) && final(self).last_step_time == now
                &&& !stepping ==> same_machine(old(self), final(self)) && final(self).last_step_time
                    == old(self).last_step_time
                &&& checking ==> checked(old(self), final(self))
                &&& !checking ==> same_diagnostics(old(self), final(self))
            }),
            same_view(old(self), final(self)),
    {
        if self.is_running && now.saturating_sub(self.last_step_time) >= self.step_interval {
            self.single_step();
            self.last_step_time = now;
        }
        if self.tab == Tab::Editor && self.editor_dirty {
            if let Some(t) = self.last_edit_at {
                if now.saturating_sub(t) >= self.auto_check_delay {
                    self.check_assemble();
                }
            }
        }
    }
}

} // verus!
