//! The two-pass assembler: source text to machine words and data bytes.
pub mod chars;
pub mod labels;
pub mod numbers;
pub mod operands;
pub mod instr;
pub mod pseudo;
pub mod source;
pub mod layout;
pub mod codegen;

use vstd::prelude::*;
use crate::falcon::assembler::codegen::run_second_pass;
use crate::falcon::assembler::layout::run_first_pass;
use crate::falcon::assembler::source::preprocess;
use crate::falcon::machine;
use crate::text::{self, chars_of, push_dec_nat, string_of};

verus! {

/// Why a program could not be assembled: the 0-based source line and a message.
#[derive(Debug, Clone)]
pub struct AsmError {
    pub line: usize,
    pub msg: String,
}

impl AsmError {
    /// `line N: message`, with the line counted from 1.
    pub fn to_text(&self) -> (s: String)
        ensures
            s@ == "line "@ + text::dec_nat(self.line as nat + 1) + ": "@ + self.msg@,
    {
        let mut out: Vec<char> = Vec::new();
        chars::push_text(&mut out, "line ");
        push_dec_nat(&mut out, self.line as u128 + 1);
        chars::push_text(&mut out, ": ");
        let mut m = chars_of(self.msg.as_str());
        out.append(&mut m);
        string_of(out.as_slice())
    }
}

/// An assembled program: the machine words of the text section, the bytes
/// of the data section, and the address the data section is loaded at.
pub struct Program {
    pub text: Vec<u32>,
    pub data: Vec<u8>,
    pub data_base: u32,
}

/// Where the data section starts for text at `base`: 4 KiB after it,
/// wrapping around at 2^32.
pub open spec fn data_base_of(base: u32) -> u32 {
    machine::wrap32(base + 0x1000)
}

/// The program `text` assembles to with its text section at `base`: its
/// machine words, data bytes and data address, or the 0-based line and
/// message of the first error.
#[verifier::opaque]
pub open spec fn assembly(text: Seq<char>, base: u32) -> Result<(Seq<u32>, Seq<u8>, u32), (int, Seq<char>)> {
    let db = data_base_of(base);
    match layout::first_pass(source::source_lines(text), db, base) {
        Err(e) => Err(e),
        Ok(st) => match codegen::second_pass(st.items, st.labels) {
            Err(e) => Err(e),
            Ok(ws) => Ok((ws, st.data, db)),
        },
    }
}

/// Assembles `text` with its text section at `base_pc`.
pub fn assemble(text: &str, base_pc: u32) -> (r: Result<Program, AsmError>)
    ensures
        match assembly(text@, base_pc) {
            Ok((ws, data, db)) => r matches Ok(p) && p.text@ == ws && p.data@ == data && p.data_base == db,
            Err((n, m)) => r matches Err(e) && e.line as int == n && e.msg@ == m,
        },
{
    proof {
        reveal(assembly);
    }
    let cs = chars_of(text);
    let lines = preprocess(cs.as_slice());
    let data_base = base_pc.wrapping_add(0x1000);
    let fp = match run_first_pass(&lines, data_base, base_pc) {
        Err((n, m)) => {
            return Err(AsmError { line: n, msg: string_of(m.as_slice()) });
        },
        Ok(fp) => fp,
    };
    let words = match run_second_pass(&fp.items, &fp.labels) {
        Err((n, m)) => {
            return Err(AsmError { line: n, msg: string_of(m.as_slice()) });
        },
        Ok(w) => w,
    };
    Ok(Program { text: words, data: fp.data, data_base })
}

/// Where a program's words and labels land. For source that assembles (and
/// whose `printString` lines both passes read the same way), every text
/// line, and so every label bound to it, has the address `base` plus four
/// bytes per machine word emitted before it; those words begin the
/// program's text; the text ends where the first pass's text address ends;
/// and the data address the first pass reached is the number of data bytes.
pub proof fn lemma_text_addresses(text: Seq<char>, base: u32)
    requires
        assembly(text, base) is Ok,
        codegen::print_strings_agree(
            layout::first_pass(source::source_lines(text), data_base_of(base), base)->Ok_0.items,
        ),
    ensures
        ({
            let st = layout::first_pass(source::source_lines(text), data_base_of(base), base)->Ok_0;
            let ws = assembly(text, base)->Ok_0.0;
            &&& forall|k: int|
                0 <= k < st.items.len() ==> {
                    let before = #[trigger] codegen::second_pass(st.items.subrange(0, k), st.labels);
                    &&& before is Ok
                    &&& ws.subrange(0, before->Ok_0.len() as int) == before->Ok_0
                    &&& st.items[k].0 == machine::wrap32(base + 4 * before->Ok_0.len())
                }
            &&& st.pc_text == machine::wrap32(base + 4 * ws.len())
            &&& st.pc_data == machine::wrap32(assembly(text, base)->Ok_0.1.len() as int)
        }),
{
    reveal(assembly);
    let lines = source::source_lines(text);
    let st = layout::first_pass(lines, data_base_of(base), base)->Ok_0;
    layout::lemma_first_pass_laid_out(lines, data_base_of(base), base);
    codegen::lemma_second_pass_addresses(st.items, st.labels, base);
}

} // verus!
