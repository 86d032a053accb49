//! What the screen shows besides the editor and run views: the docs page
//! and the status line.
use vstd::prelude::*;
use crate::ui::app::{App, EditorMode, MemRegion, Tab};
use crate::ui::editor::{self, join_lines, split_lines};
use crate::ui::layout;
use crate::falcon::assembler::chars::push_text;
use crate::text::string_of;

verus! {

/// The instruction reference shown on the docs tab.
pub const DOC_TEXT: &'static str = "Falcon ASM — Supported Instructions (RV32I MVP)

R-type (opcode 0x33):
  ADD, SUB, AND, OR, XOR, SLL, SRL, SRA, SLT, SLTU, MUL, MULH,
  MULHSU, MULHU, DIV, DIVU, REM, REMU

I-type (opcode 0x13):
  ADDI, ANDI, ORI, XORI, SLTI, SLTIU, SLLI, SRLI, SRAI

Loads (opcode 0x03):
  LB, LH, LW, LBU, LHU

Stores (opcode 0x23):
  SB, SH, SW

Branches (opcode 0x63):
  BEQ, BNE, BLT, BGE, BLTU, BGEU

Upper immediates:
  LUI (0x37), AUIPC (0x17)

Jumps:
  JAL (0x6F), JALR (0x67)

System:
  ECALL (0x00000073), EBREAK (0x00100073)

Notes:
• PC advances +4 each instruction. Branch/JAL immediates are byte offsets (must be even).
• Loads/Stores syntax: imm(rs1). Labels supported by 2-pass assembler.
• Pseudoinstructions: nop, mv, li(12-bit), j, call, jr, ret, subi, la, push, pop, print, printString, read.
";

/// The docs lines shown from line `scroll` on, in a view `height` rows
/// tall (two of them border), joined with newlines.
pub open spec fn docs_page_text(scroll: usize, height: u16) -> Seq<char> {
    let ls = editor::text_lines(DOC_TEXT@);
    let start = if scroll < ls.len() {
        scroll as int
    } else {
        ls.len() as int
    };
    let end = if start + layout::gap(height, 2) < ls.len() {
        start + layout::gap(height, 2)
    } else {
        ls.len() as int
    };
    editor::joined(ls.subrange(start, end))
}

/// The docs text shown from line `scroll` on, in a view `height` rows tall.
pub fn docs_page(scroll: usize, height: u16) -> (s: String)
    ensures
        s@ == docs_page_text(scroll, height),
{
    let lines = split_lines(DOC_TEXT);
    let h = height.saturating_sub(2) as usize;
    let n = lines.len();
    let start = if scroll < n {
        scroll
    } else {
        n
    };
    let end = if start.saturating_add(h) < n {
        start + h
    } else {
        n
    };
    join_lines(&lines, start, end)
}

/// The status line for `mode`.
pub open spec fn status_text(mode: EditorMode) -> Seq<char> {
    "Mode: "@ + (if mode == EditorMode::Insert {
        "INSERT"@
    } else {
        "COMMAND"@
    }) + "  |  Ctrl+R=Assemble  |  Ctrl+O=Import  |  Ctrl+S=Export  |  1/2/3 switch tabs (Command mode)"@
}

/// The status line: the mode and the main shortcuts.
pub fn status_line(mode: EditorMode) -> (s: String)
    ensures
        s@ == status_text(mode),
{
    let mut out: Vec<char> = Vec::new();
    push_text(&mut out, "Mode: ");
    if mode == EditorMode::Insert {
        push_text(&mut out, "INSERT");
    } else {
        push_text(&mut out, "COMMAND");
    }
    push_text(
        &mut out,
        "  |  Ctrl+R=Assemble  |  Ctrl+O=Import  |  Ctrl+S=Export  |  1/2/3 switch tabs (Command mode)",
    );
    string_of(out.as_slice())
}

/// Position of `tab` in the tab bar.
pub fn tab_index(tab: Tab) -> (i: usize)
    ensures
        i == (match tab {
            Tab::Editor => 0usize,
            Tab::Run => 1usize,
            Tab::Docs => 2usize,
        }),
{
    match tab {
        Tab::Editor => 0,
        Tab::Run => 1,
        Tab::Docs => 2,
    }
}

/// Whether the title of `tab` is shown hovered: the pointer is on it and it
/// is not the current tab.
pub fn tab_hovered(app: &App, tab: Tab) -> (b: bool)
    ensures
        b == (app.hover_tab == Some(tab) && tab != app.tab),
{
    match app.hover_tab {
        Some(t) => t == tab && tab != app.tab,
        None => false,
    }
}

/// The label of a memory view width.
pub open spec fn bytes_label(b: u32) -> Seq<char> {
    if b == 4 {
        "4B"@
    } else if b == 2 {
        "2B"@
    } else {
        "1B"@
    }
}

/// The run view's status line: `View [..]  Format [..]`, then (while
/// memory is shown) `  Bytes [..]  Region [..]`, then `  State [..]`.
pub open spec fn run_status_chars(a: &App) -> Seq<char> {
    let view = if a.show_registers {
        "REGS"@
    } else {
        "RAM"@
    };
    let fmt = if a.show_hex {
        "HEX"@
    } else {
        "DEC"@
    };
    let region = match a.mem_region {
        MemRegion::Data => "DATA"@,
        MemRegion::Stack => "STACK"@,
        MemRegion::Custom => "ADDR"@,
    };
    let state = if a.is_running {
        "RUN"@
    } else {
        "PAUSE"@
    };
    let memory = if a.show_registers {
        Seq::<char>::empty()
    } else {
        "  Bytes ["@ + bytes_label(a.mem_view_bytes) + "]  Region ["@ + region + "]"@
    };
    "View ["@ + view + "]  Format ["@ + fmt + "]"@ + memory + "  State ["@ + state + "]"@
}

/// The run view's status line for `app`.
pub fn run_status_text(app: &App) -> (s: String)
    ensures
        s@ == run_status_chars(app),
{
    let mut out: Vec<char> = Vec::new();
    push_text(&mut out, "View [");
    push_text(&mut out, if app.show_registers { "REGS" } else { "RAM" });
    push_text(&mut out, "]  Format [");
    push_text(&mut out, if app.show_hex { "HEX" } else { "DEC" });
    push_text(&mut out, "]");
    if !app.show_registers {
        push_text(&mut out, "  Bytes [");
        push_text(
            &mut out,
            if app.mem_view_bytes == 4 {
                "4B"
            } else if app.mem_view_bytes == 2 {
                "2B"
            } else {
                "1B"
            },
        );
        push_text(&mut out, "]  Region [");
        push_text(
            &mut out,
            match app.mem_region {
                MemRegion::Data => "DATA",
                MemRegion::Stack => "STACK",
                MemRegion::Custom => "ADDR",
            },
        );
        push_text(&mut out, "]");
    }
    push_text(&mut out, "  State [");
    push_text(&mut out, if app.is_running { "RUN" } else { "PAUSE" });
    push_text(&mut out, "]");
    string_of(out.as_slice())
}

} // verus!
