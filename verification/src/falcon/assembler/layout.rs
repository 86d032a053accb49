//! The assembler's first pass: sections, labels, the address of every text
//! line, and the bytes of the data section.
use vstd::prelude::*;
use crate::falcon::assembler::chars::{
    self, find_char, has_prefix, is_text, push_chars, push_text, slice_chars, split_chars,
    strip_all_chars, trim_chars, trim_start_chars,
};
use crate::falcon::assembler::labels::Labels;
use crate::falcon::assembler::source;
use crate::falcon::assembler::operands::{
    self, chars_of_text, parse_imm, parse_imm64, parse_reg, parse_str_lit, split_operands, views,
};
use crate::falcon::machine;
use crate::falcon::memory;
use crate::text::{self, push_decimal, string_of};

verus! {

/// How a text line is assembled in the second pass.
#[derive(Clone, Copy, Debug, PartialEq, Eq, Structural)]
pub enum LineKind {
    Instr,
    La,
    Push,
    Pop,
    Print,
    PrintString,
    Read,
}

/// A text line waiting for the second pass: its address, kind, text and line number.
pub struct Item {
    pub pc: u32,
    pub kind: LineKind,
    pub text: Vec<char>,
    pub line: usize,
}

/// The state of the first pass, as the specification sees it.
pub struct Layout {
    pub data_section: bool,
    pub pc_text: u32,
    pub pc_data: u32,
    pub items: Seq<(u32, LineKind, Seq<char>, int)>,
    pub data: Seq<u8>,
    pub labels: Seq<(Seq<char>, u32)>,
}

/// The state of the first pass.
pub struct FirstPass {
    pub data_section: bool,
    pub pc_text: u32,
    pub pc_data: u32,
    pub items: Vec<Item>,
    pub data: Vec<u8>,
    pub labels: Labels,
}

pub open spec fn items_view(v: Seq<Item>) -> Seq<(u32, LineKind, Seq<char>, int)> {
    v.map_values(|it: Item| (it.pc, it.kind, it.text@, it.line as int))
}

impl FirstPass {
    pub open spec fn view(&self) -> Layout {
        Layout {
            data_section: self.data_section,
            pc_text: self.pc_text,
            pc_data: self.pc_data,
            items: items_view(self.items@),
            data: self.data@,
            labels: self.labels@,
        }
    }
}

/// The state before the first line.
pub open spec fn start(base: u32) -> Layout {
    Layout { data_section: false, pc_text: base, pc_data: 0, items: seq![], data: seq![], labels: seq![] }
}

// ---------- text lines ----------

/// The operands the first pass sees on a `printString` line.
pub open spec fn print_string_operands(t: Seq<char>) -> Seq<Seq<char>> {
    operands::operands(chars::trim(chars::strip_all(t, "printString"@)))
}

/// Kind and size in bytes of the text line `t`.
pub open spec fn text_kind(t: Seq<char>) -> (LineKind, int) {
    if chars::starts_with(t, "la "@) {
        (LineKind::La, 8)
    } else if chars::starts_with(t, "push "@) {
        (LineKind::Push, 8)
    } else if chars::starts_with(t, "pop "@) {
        (LineKind::Pop, 8)
    } else if chars::starts_with(t, "print "@) {
        (LineKind::Print, 12)
    } else if chars::starts_with(t, "printString "@) {
        let ops = print_string_operands(t);
        (
            LineKind::PrintString,
            if ops.len() == 1 && operands::reg_number(ops[0]) is Some {
                12
            } else {
                16
            },
        )
    } else if chars::starts_with(t, "read "@) {
        (LineKind::Read, 12)
    } else {
        (LineKind::Instr, 4)
    }
}

/// Records text line `line` (number `n`) at the current text address.
pub open spec fn text_item(st: Layout, line: Seq<char>, n: int) -> Layout {
    let t = chars::trim_start(line);
    let (kind, size) = text_kind(t);
    Layout {
        items: st.items.push((st.pc_text, kind, t, n)),
        pc_text: machine::wrap32(st.pc_text + size),
        ..st
    }
}

impl FirstPass {
    /// The state before the first line, with text starting at `base`.
    pub fn new(base: u32) -> (fp: Self)
        ensures
            fp@ == start(base),
    {
        let fp = FirstPass {
            data_section: false,
            pc_text: base,
            pc_data: 0,
            items: Vec::new(),
            data: Vec::new(),
            labels: Labels::new(),
        };
        assert(fp@.items =~= Seq::<(u32, LineKind, Seq<char>, int)>::empty());
        fp
    }
}

/// Kind and size in bytes of the text line `t`.
fn kind_of_text(t: &[char]) -> (r: (LineKind, u32))
    ensures
        r.0 == text_kind(t@).0,
        r.1 as int == text_kind(t@).1,
{
    if has_prefix(t, "la ") {
        (LineKind::La, 8)
    } else if has_prefix(t, "push ") {
        (LineKind::Push, 8)
    } else if has_prefix(t, "pop ") {
        (LineKind::Pop, 8)
    } else if has_prefix(t, "print ") {
        (LineKind::Print, 12)
    } else if has_prefix(t, "printString ") {
        let stripped = strip_all_chars(t, "printString");
        let rest = trim_chars(stripped.as_slice());
        let ops = split_operands(rest.as_slice());
        let single_reg = ops.len() == 1 && parse_reg(ops[0].as_slice()).is_some();
        proof {
            if ops@.len() == 1 {
                assert(views(ops@)[0] == ops@[0]@);
            }
        }
        (LineKind::PrintString, if single_reg { 12 } else { 16 })
    } else if has_prefix(t, "read ") {
        (LineKind::Read, 12)
    } else {
        (LineKind::Instr, 4)
    }
}

/// Records text line `line` (number `n`) at the current text address.
fn add_text_item(fp: &mut FirstPass, line: &[char], n: usize)
    ensures
        final(fp)@ == text_item(old(fp)@, line@, n as int),
{
    let t = trim_start_chars(line);
    let (kind, size) = kind_of_text(t.as_slice());
    let pc = fp.pc_text;
    fp.items.push(Item { pc, kind, text: t, line: n });
    fp.pc_text = pc.wrapping_add(size);
    assert(fp@.items =~= old(fp)@.items.push((pc, kind, chars::trim_start(line@), n as int)));
}

// ---------- data lines ----------

/// Little-endian bytes of a double word.
pub open spec fn le_bytes64(v: u64) -> Seq<u8> {
    seq![
        (v & 0xff) as u8,
        ((v >> 8u64) & 0xff) as u8,
        ((v >> 16u64) & 0xff) as u8,
        ((v >> 24u64) & 0xff) as u8,
        ((v >> 32u64) & 0xff) as u8,
        ((v >> 40u64) & 0xff) as u8,
        ((v >> 48u64) & 0xff) as u8,
        (v >> 56u64) as u8,
    ]
}

/// The bytes one comma-separated value of a `.byte` (width 1), `.half` (2),
/// `.word` (4) or `.dword` (8) directive stands for.
pub open spec fn piece_bytes(width: int, p: Seq<char>) -> Result<Seq<u8>, Seq<char>> {
    if width == 1 {
        match operands::imm_value(p) {
            None => Err("invalid .byte: "@ + p),
            Some(v) => if 0 <= v <= 255 {
                Ok(seq![v as u8])
            } else {
                Err(".byte outside 0..255: "@ + text::dec_int(v as int))
            },
        }
    } else if width == 2 {
        match operands::imm_value(p) {
            None => Err("invalid .half: "@ + p),
            Some(v) => if 0 <= v <= 65535 {
                Ok(memory::le_bytes16(v as u16))
            } else {
                Err(".half outside 0..65535: "@ + text::dec_int(v as int))
            },
        }
    } else if width == 4 {
        match operands::imm_value(p) {
            None => Err("invalid .word: "@ + p),
            Some(v) => Ok(memory::le_bytes32(v as u32)),
        }
    } else {
        match operands::imm64_value(p) {
            None => Err("invalid .dword: "@ + p),
            Some(v) => Ok(le_bytes64(v as u64)),
        }
    }
}

/// A value of a `.byte`, `.half` or `.word` directive is laid down little
/// end first: a byte as itself, a half word (0..65535) as its low then high
/// byte, and a word as its four bytes from the least significant on, the
/// value taken modulo 2^32 (so negative words are stored in two's
/// complement).
pub proof fn lemma_data_values_little_endian(p: Seq<char>)
    requires
        operands::imm_value(p) is Some,
    ensures
        ({
            let v = operands::imm_value(p)->0 as int;
            let u = (v % 0x1_0000_0000) as int;
            &&& 0 <= v <= 255 ==> piece_bytes(1, p) == Ok::<Seq<u8>, Seq<char>>(seq![v as u8])
            &&& 0 <= v <= 65535 ==> (piece_bytes(2, p) matches Ok(bs) && bs.len() == 2 && bs[0] == v
                % 256 && bs[1] == v / 256)
            &&& piece_bytes(4, p) matches Ok(bs) && bs.len() == 4 && bs[0] == u % 256 && bs[1] == (u
                / 0x100) % 256 && bs[2] == (u / 0x1_0000) % 256 && bs[3] == u / 0x100_0000
        }),
{
    let v = operands::imm_value(p)->0;
    let h = v as u16;
    let w = v as u32;
    if 0 <= v <= 65535 {
        assert((h & 0xff) as u8 == h % 256 && (h >> 8u16) as u8 == h / 256) by (bit_vector);
        assert(h == v) by (bit_vector)
            requires
                0 <= v <= 65535,
                h == v as u16,
        ;
    }
    assert((w & 0xff) as u8 == w % 256 && ((w >> 8u32) & 0xff) as u8 == (w / 0x100) % 256 && ((w
        >> 16u32) & 0xff) as u8 == (w / 0x1_0000) % 256 && (w >> 24u32) as u8 == w / 0x100_0000)
        by (bit_vector);
    assert(w as int == (v as int) % 0x1_0000_0000) by {
        if v >= 0 {
            assert(w == v) by (bit_vector)
                requires
                    v >= 0i32,
                    w == v as u32,
            ;
        } else {
            assert(w as i64 == v as i64 + 0x1_0000_0000i64) by (bit_vector)
                requires
                    v < 0i32,
                    w == v as u32,
            ;
        }
    }
}

/// The bytes of all values `ps` of a directive, or the first error.
pub open spec fn pieces_bytes(width: int, ps: Seq<Seq<char>>) -> Result<Seq<u8>, Seq<char>>
    decreases ps.len(),
{
    if ps.len() == 0 {
        Ok(seq![])
    } else {
        match pieces_bytes(width, ps.drop_last()) {
            Err(e) => Err(e),
            Ok(bs) => match piece_bytes(width, ps.last()) {
                Err(e) => Err(e),
                Ok(b) => Ok(bs + b),
            },
        }
    }
}

/// `st` with `bs` appended to the data section.
pub open spec fn emit_data(st: Layout, bs: Seq<u8>) -> Layout {
    Layout { data: st.data + bs, pc_data: machine::wrap32(st.pc_data + bs.len()), ..st }
}

/// A line of the data section.
pub open spec fn data_line(st: Layout, line: Seq<char>) -> Result<Layout, Seq<char>> {
    let values = |w: int, k: int|
        match pieces_bytes(w, chars::split_on(line.subrange(k, line.len() as int), ',')) {
            Err(e) => Err(e),
            Ok(bs) => Ok(emit_data(st, bs)),
        };
    if chars::starts_with(line, ".byte"@) {
        values(1, 5)
    } else if chars::starts_with(line, ".half"@) {
        values(2, 5)
    } else if chars::starts_with(line, ".word"@) {
        values(4, 5)
    } else if chars::starts_with(line, ".dword"@) {
        values(8, 6)
    } else if chars::starts_with(line, ".asciz"@) || chars::starts_with(line, ".string"@) {
        let rest = line.subrange(if chars::starts_with(line, ".asciz"@) { 6 } else { 7 }, line.len() as int);
        match operands::str_lit(rest) {
            None => Err("invalid string: "@ + rest),
            Some(s) => Ok(emit_data(st, vstd::utf8::encode_utf8(s).push(0u8))),
        }
    } else if chars::starts_with(line, ".ascii"@) {
        let rest = line.subrange(6, line.len() as int);
        match operands::str_lit(rest) {
            None => Err("invalid .ascii: "@ + rest),
            Some(s) => Ok(emit_data(st, vstd::utf8::encode_utf8(s))),
        }
    } else if chars::starts_with(line, ".space"@) || chars::starts_with(line, ".zero"@) {
        let rest = line.subrange(if chars::starts_with(line, ".space"@) { 6 } else { 5 }, line.len() as int);
        match operands::imm_value(rest) {
            None => Err("invalid size: "@ + rest),
            Some(n) => if n < 0 {
                Err("size must be positive: "@ + text::dec_int(n as int))
            } else {
                Ok(emit_data(st, Seq::new(n as nat, |i: int| 0u8)))
            },
        }
    } else {
        Err("unknown data directive: "@ + line)
    }
}

/// Appends `bytes` to the data section.
fn emit(fp: &mut FirstPass, bytes: Vec<u8>)
    ensures
        final(fp)@ == emit_data(old(fp)@, bytes@),
{
    let mut b = bytes;
    let len = b.len();
    fp.data.append(&mut b);
    let add = (len as u64 % 0x1_0000_0000) as u32;
    proof {
        vstd::arithmetic::div_mod::lemma_add_mod_noop_right(
            fp.pc_data as int,
            len as int,
            0x1_0000_0000,
        );
    }
    fp.pc_data = fp.pc_data.wrapping_add(add);
}

/// The bytes of one value of a `.byte`, `.half`, `.word` or `.dword` directive.
fn piece_value(p: &[char], width: u32) -> (r: Result<Vec<u8>, Vec<char>>)
    requires
        width == 1 || width == 2 || width == 4 || width == 8,
    ensures
        match piece_bytes(width as int, p@) {
            Ok(b) => r matches Ok(v) && v@ == b,
            Err(e) => r matches Err(m) && m@ == e,
        },
{
    if width == 8 {
        return match parse_imm64(p) {
            None => {
                let mut m: Vec<char> = Vec::new();
                push_text(&mut m, "invalid .dword: ");
                push_chars(&mut m, p);
                Err(m)
            },
            Some(v) => {
                let u = v as u64;
                let b = vec![
                    (u & 0xff) as u8,
                    ((u >> 8u64) & 0xff) as u8,
                    ((u >> 16u64) & 0xff) as u8,
                    ((u >> 24u64) & 0xff) as u8,
                    ((u >> 32u64) & 0xff) as u8,
                    ((u >> 40u64) & 0xff) as u8,
                    ((u >> 48u64) & 0xff) as u8,
                    (u >> 56u64) as u8,
                ];
                assert(b@ =~= le_bytes64(u));
                Ok(b)
            },
        };
    }
    match parse_imm(p) {
        None => {
            let mut m: Vec<char> = Vec::new();
            if width == 1 {
                push_text(&mut m, "invalid .byte: ");
            } else if width == 2 {
                push_text(&mut m, "invalid .half: ");
            } else {
                push_text(&mut m, "invalid .word: ");
            }
            push_chars(&mut m, p);
            Err(m)
        },
        Some(v) => {
            if width == 1 {
                if 0 <= v && v <= 255 {
                    let b = vec![v as u8];
                    assert(b@ =~= seq![v as u8]);
                    Ok(b)
                } else {
                    let mut m: Vec<char> = Vec::new();
                    push_text(&mut m, ".byte outside 0..255: ");
                    push_decimal(&mut m, v as i64);
                    Err(m)
                }
            } else if width == 2 {
                if 0 <= v && v <= 65535 {
                    let h = v as u16;
                    let b = vec![(h & 0xff) as u8, (h >> 8u16) as u8];
                    assert(b@ =~= memory::le_bytes16(h));
                    Ok(b)
                } else {
                    let mut m: Vec<char> = Vec::new();
                    push_text(&mut m, ".half outside 0..65535: ");
                    push_decimal(&mut m, v as i64);
                    Err(m)
                }
            } else {
                let w = v as u32;
                let b = vec![
                    (w & 0xff) as u8,
                    ((w >> 8u32) & 0xff) as u8,
                    ((w >> 16u32) & 0xff) as u8,
                    (w >> 24u32) as u8,
                ];
                assert(b@ =~= memory::le_bytes32(w));
                Ok(b)
            }
        },
    }
}

/// Once a prefix of the values fails, the directive fails with that error.
proof fn lemma_pieces_err(w: int, ps: Seq<Seq<char>>, j: int)
    requires
        0 <= j <= ps.len(),
        pieces_bytes(w, ps.subrange(0, j)) is Err,
    ensures
        pieces_bytes(w, ps) == pieces_bytes(w, ps.subrange(0, j)),
    decreases ps.len() - j,
{
    if j < ps.len() {
        assert(ps.subrange(0, j + 1).drop_last() =~= ps.subrange(0, j));
        lemma_pieces_err(w, ps, j + 1);
    } else {
        assert(ps.subrange(0, j) =~= ps);
    }
}

/// The comma-separated values of a directive whose name ends at `k`.
fn data_values(fp: &mut FirstPass, line: &[char], width: u32, k: usize) -> (r: Result<(), Vec<char>>)
    requires
        k <= line@.len(),
        width == 1 || width == 2 || width == 4 || width == 8,
    ensures
        match pieces_bytes(width as int, chars::split_on(line@.subrange(k as int, line@.len() as int), ',')) {
            Ok(bs) => r is Ok && final(fp)@ == emit_data(old(fp)@, bs),
            Err(e) => r matches Err(m) && m@ == e,
        },
{
    let rest = slice_chars(line, k, line.len());
    let pieces = split_chars(rest.as_slice(), ',');
    let ghost ps = views(pieces@);
    let mut bytes: Vec<u8> = Vec::new();
    let mut i: usize = 0;
    assert(ps.subrange(0, 0) =~= Seq::<Seq<char>>::empty());
    while i < pieces.len()
        invariant
            i <= pieces@.len(),
            ps == views(pieces@),
            ps == chars::split_on(rest@, ','),
            k <= line@.len(),
            rest@ == line@.subrange(k as int, line@.len() as int),
            width == 1 || width == 2 || width == 4 || width == 8,
            pieces_bytes(width as int, ps.subrange(0, i as int)) == Ok::<Seq<u8>, Seq<char>>(bytes@),
        decreases pieces@.len() - i,
    {
        assert(ps.subrange(0, i + 1).drop_last() =~= ps.subrange(0, i as int));
        assert(ps.subrange(0, i + 1).last() == pieces@[i as int]@);
        match piece_value(pieces[i].as_slice(), width) {
            Err(e) => {
                proof {
                    let sub = ps.subrange(0, i + 1);
                    assert(piece_bytes(width as int, sub.last()) == Err::<Seq<u8>, Seq<char>>(e@));
                    assert(pieces_bytes(width as int, sub) == Err::<Seq<u8>, Seq<char>>(e@));
                    lemma_pieces_err(width as int, ps, i + 1);
                }
                return Err(e);
            },
            Ok(b) => {
                let mut b = b;
                bytes.append(&mut b);
            },
        }
        i += 1;
    }
    assert(ps.subrange(0, i as int) =~= ps);
    emit(fp, bytes);
    Ok(())
}

/// The UTF-8 bytes of the characters `cs`.
fn utf8_bytes(cs: &[char]) -> (b: Vec<u8>)
    ensures
        b@ == vstd::utf8::encode_utf8(cs@),
{
    let st = string_of(cs);
    vstd::slice::slice_to_vec(st.as_str().as_bytes())
}

/// The message `prefix` followed by `tail`.
fn message(prefix: &str, tail: &[char]) -> (m: Vec<char>)
    ensures
        m@ == prefix@ + tail@,
{
    let mut m: Vec<char> = Vec::new();
    push_text(&mut m, prefix);
    push_chars(&mut m, tail);
    m
}

/// A line of the data section.
fn add_data_line(fp: &mut FirstPass, line: &[char]) -> (r: Result<(), Vec<char>>)
    ensures
        match data_line(old(fp)@, line@) {
            Ok(st) => r is Ok && final(fp)@ == st,
            Err(e) => r matches Err(m) && m@ == e,
        },
{
    proof {
        reveal_strlit(".byte");
        reveal_strlit(".half");
        reveal_strlit(".word");
        reveal_strlit(".dword");
        reveal_strlit(".asciz");
        reveal_strlit(".string");
        reveal_strlit(".ascii");
        reveal_strlit(".space");
        reveal_strlit(".zero");
    }
    if has_prefix(line, ".byte") {
        return data_values(fp, line, 1, 5);
    }
    if has_prefix(line, ".half") {
        return data_values(fp, line, 2, 5);
    }
    if has_prefix(line, ".word") {
        return data_values(fp, line, 4, 5);
    }
    if has_prefix(line, ".dword") {
        return data_values(fp, line, 8, 6);
    }
    let asciz = has_prefix(line, ".asciz");
    if asciz || has_prefix(line, ".string") {
        let k: usize = if asciz { 6 } else { 7 };
        let rest = slice_chars(line, k, line.len());
        return match parse_str_lit(rest.as_slice()) {
            None => Err(message("invalid string: ", rest.as_slice())),
            Some(s) => {
                let mut b = utf8_bytes(s.as_slice());
                b.push(0u8);
                emit(fp, b);
                Ok(())
            },
        };
    }
    if has_prefix(line, ".ascii") {
        let rest = slice_chars(line, 6, line.len());
        return match parse_str_lit(rest.as_slice()) {
            None => Err(message("invalid .ascii: ", rest.as_slice())),
            Some(s) => {
                let b = utf8_bytes(s.as_slice());
                emit(fp, b);
                Ok(())
            },
        };
    }
    let space = has_prefix(line, ".space");
    if space || has_prefix(line, ".zero") {
        let k: usize = if space { 6 } else { 5 };
        let rest = slice_chars(line, k, line.len());
        return match parse_imm(rest.as_slice()) {
            None => Err(message("invalid size: ", rest.as_slice())),
            Some(n) => {
                if n < 0 {
                    let mut m: Vec<char> = Vec::new();
                    push_text(&mut m, "size must be positive: ");
                    push_decimal(&mut m, n as i64);
                    Err(m)
                } else {
                    let count = n as u32;
                    let mut z: Vec<u8> = Vec::new();
                    let mut i: u32 = 0;
                    while i < count
                        invariant
                            i <= count,
                            z@ == Seq::new(i as nat, |j: int| 0u8),
                        decreases count - i,
                    {
                        z.push(0u8);
                        i += 1;
                        assert(z@ =~= Seq::new(i as nat, |j: int| 0u8));
                    }
                    emit(fp, z);
                    Ok(())
                }
            },
        };
    }
    Err(message("unknown data directive: ", line))
}

// ---------- one line ----------

/// The rest of a line after its label, in the current section.
pub open spec fn body_step(st: Layout, line: Seq<char>, n: int) -> Result<Layout, Seq<char>> {
    if st.data_section {
        data_line(st, line)
    } else {
        Ok(text_item(st, line, n))
    }
}

/// The first pass over source line `raw` (number `n`): a section switch,
/// or an optional `label:` (bound to the current address of the section)
/// followed by a text line or a data directive.
pub open spec fn line_step(st: Layout, n: int, raw: Seq<char>, data_base: u32) -> Result<Layout, Seq<char>> {
    if raw == ".text"@ {
        Ok(Layout { data_section: false, ..st })
    } else if raw == ".data"@ {
        Ok(Layout { data_section: true, ..st })
    } else {
        let k = chars::find(raw, ':');
        if k < raw.len() {
            let lab = chars::trim(raw.subrange(0, k));
            let addr = if st.data_section {
                machine::wrap32(data_base + st.pc_data)
            } else {
                st.pc_text
            };
            let st2 = Layout { labels: st.labels.push((lab, addr)), ..st };
            let rest = chars::trim(raw.subrange(k + 1, raw.len() as int));
            if rest.len() == 0 {
                Ok(st2)
            } else {
                body_step(st2, rest, n)
            }
        } else {
            body_step(st, raw, n)
        }
    }
}

/// The first pass over the numbered source lines.
pub open spec fn first_pass(lines: Seq<(int, Seq<char>)>, data_base: u32, base: u32) -> Result<
    Layout,
    (int, Seq<char>),
>
    decreases lines.len(),
{
    if lines.len() == 0 {
        Ok(start(base))
    } else {
        match first_pass(lines.drop_last(), data_base, base) {
            Err(e) => Err(e),
            Ok(st) => match line_step(st, lines.last().0, lines.last().1, data_base) {
                Err(m) => Err((lines.last().0, m)),
                Ok(st2) => Ok(st2),
            },
        }
    }
}

/// The rest of a line after its label, in the current section.
fn add_body(fp: &mut FirstPass, line: &[char], n: usize) -> (r: Result<(), Vec<char>>)
    ensures
        match body_step(old(fp)@, line@, n as int) {
            Ok(st) => r is Ok && final(fp)@ == st,
            Err(e) => r matches Err(m) && m@ == e,
        },
{
    if fp.data_section {
        add_data_line(fp, line)
    } else {
        add_text_item(fp, line, n);
        Ok(())
    }
}

/// The first pass over source line `raw` (number `n`).
pub fn add_line(fp: &mut FirstPass, n: usize, raw: &[char], data_base: u32) -> (r: Result<(), Vec<char>>)
    ensures
        match line_step(old(fp)@, n as int, raw@, data_base) {
            Ok(st) => r is Ok && final(fp)@ == st,
            Err(e) => r matches Err(m) && m@ == e,
        },
{
    if is_text(raw, ".text") {
        fp.data_section = false;
        return Ok(());
    }
    if is_text(raw, ".data") {
        fp.data_section = true;
        return Ok(());
    }
    let k = find_char(raw, ':');
    if k < raw.len() {
        let head = slice_chars(raw, 0, k);
        let lab = trim_chars(head.as_slice());
        let addr = if fp.data_section {
            data_base.wrapping_add(fp.pc_data)
        } else {
            fp.pc_text
        };
        fp.labels.insert(lab, addr);
        let tail = slice_chars(raw, k + 1, raw.len());
        let rest = trim_chars(tail.as_slice());
        if rest.len() == 0 {
            return Ok(());
        }
        add_body(fp, rest.as_slice(), n)
    } else {
        add_body(fp, raw, n)
    }
}

/// The first pass over the numbered source lines: the layout, or the
/// number and message of the first line that fails.
pub fn run_first_pass(lines: &Vec<(usize, Vec<char>)>, data_base: u32, base: u32) -> (r: Result<
    FirstPass,
    (usize, Vec<char>),
>)
    ensures
        match first_pass(source::lines_view(lines@), data_base, base) {
            Ok(st) => r matches Ok(fp) && fp@ == st,
            Err(e) => r matches Err(f) && f.0 as int == e.0 && f.1@ == e.1,
        },
{
    let ghost ls = source::lines_view(lines@);
    let mut fp = FirstPass::new(base);
    let mut i: usize = 0;
    while i < lines.len()
        invariant
            i <= lines@.len(),
            ls == source::lines_view(lines@),
            first_pass(ls.subrange(0, i as int), data_base, base) == Ok::<Layout, (int, Seq<char>)>(fp@),
        decreases lines@.len() - i,
    {
        let ghost sub = ls.subrange(0, i + 1);
        assert(sub.drop_last() =~= ls.subrange(0, i as int));
        assert(sub.last() == (lines@[i as int].0 as int, lines@[i as int].1@));
        let n = lines[i].0;
        match add_line(&mut fp, n, lines[i].1.as_slice(), data_base) {
            Err(m) => {
                proof {
                    lemma_first_pass_err(ls, i + 1, data_base, base);
                }
                return Err((n, m));
            },
            Ok(()) => {},
        }
        i += 1;
    }
    assert(ls.subrange(0, i as int) =~= ls);
    Ok(fp)
}

/// Once a line fails, the first pass fails with that line's error.
proof fn lemma_first_pass_err(ls: Seq<(int, Seq<char>)>, j: int, data_base: u32, base: u32)
    requires
        0 <= j <= ls.len(),
        first_pass(ls.subrange(0, j), data_base, base) is Err,
    ensures
        first_pass(ls, data_base, base) == first_pass(ls.subrange(0, j), data_base, base),
    decreases ls.len() - j,
{
    if j < ls.len() {
        assert(ls.subrange(0, j + 1).drop_last() =~= ls.subrange(0, j));
        lemma_first_pass_err(ls, j + 1, data_base, base);
    } else {
        assert(ls.subrange(0, j) =~= ls);
    }
}

// ---------- what the first pass keeps true ----------

/// Bytes of text the items `its` take.
pub open spec fn text_size(its: Seq<(u32, LineKind, Seq<char>, int)>) -> int
    decreases its.len(),
{
    if its.len() == 0 {
        0
    } else {
        text_size(its.drop_last()) + text_kind(its.last().2).1
    }
}

/// The layout of state `st` for text starting at `base`: each item has the
/// kind of its text and lies right after the items before it, the text
/// address follows the last item, and the data address is the number of
/// data bytes (all addresses wrapping at 2^32).
pub open spec fn laid_out(st: Layout, base: u32) -> bool {
    &&& forall|k: int|
        #![trigger st.items[k]]
        0 <= k < st.items.len() ==> st.items[k].1 == text_kind(st.items[k].2).0 && st.items[k].0
            == machine::wrap32(base + text_size(st.items.subrange(0, k)))
    &&& st.pc_text == machine::wrap32(base + text_size(st.items))
    &&& st.pc_data == machine::wrap32(st.data.len() as int)
}

#[verifier::spinoff_prover]
#[verifier::rlimit(60)]
proof fn lemma_line_step_laid_out(st: Layout, n: int, raw: Seq<char>, data_base: u32, base: u32)
    requires
        laid_out(st, base),
        line_step(st, n, raw, data_base) is Ok,
    ensures
        laid_out(line_step(st, n, raw, data_base)->Ok_0, base),
{
    let st2 = line_step(st, n, raw, data_base)->Ok_0;
    let k = chars::find(raw, ':');
    let base_st = if raw == ".text"@ || raw == ".data"@ {
        st
    } else if k < raw.len() {
        let lab = chars::trim(raw.subrange(0, k));
        let addr = if st.data_section {
            machine::wrap32(data_base + st.pc_data)
        } else {
            st.pc_text
        };
        Layout { labels: st.labels.push((lab, addr)), ..st }
    } else {
        st
    };
    let line = if k < raw.len() {
        chars::trim(raw.subrange(k + 1, raw.len() as int))
    } else {
        raw
    };
    if raw == ".text"@ || raw == ".data"@ || (k < raw.len() && line.len() == 0) {
        assert(st2.items == st.items);
    } else if base_st.data_section {
        let bs = st2.data.subrange(st.data.len() as int, st2.data.len() as int);
        assert(st2 == emit_data(base_st, bs)) by {
            assert(st2.data =~= st.data + bs);
        }
        machine::lemma_wrap32_add(st.data.len() as int, bs.len() as int);
    } else {
        let t = chars::trim_start(line);
        let it = (st.pc_text, text_kind(t).0, t, n);
        assert(st2.items == st.items.push(it));
        assert(st2.items.drop_last() =~= st.items);
        assert forall|j: int| 0 <= j < st2.items.len() implies #[trigger] st2.items[j].1 == text_kind(
            st2.items[j].2,
        ).0 && st2.items[j].0 == machine::wrap32(base + text_size(st2.items.subrange(0, j))) by {
            if j < st.items.len() {
                assert(st2.items.subrange(0, j) =~= st.items.subrange(0, j));
                assert(st2.items[j] == st.items[j]);
            } else {
                assert(st2.items.subrange(0, j) =~= st.items);
            }
        }
        machine::lemma_wrap32_add(base + text_size(st.items), text_kind(t).1);
    }
}

/// Every state the first pass reaches is laid out.
pub proof fn lemma_first_pass_laid_out(lines: Seq<(int, Seq<char>)>, data_base: u32, base: u32)
    requires
        first_pass(lines, data_base, base) is Ok,
    ensures
        laid_out(first_pass(lines, data_base, base)->Ok_0, base),
    decreases lines.len(),
{
    if lines.len() == 0 {
        assert(laid_out(start(base), base)) by {
            assert(base + 0int == base);
        }
    } else {
        lemma_first_pass_laid_out(lines.drop_last(), data_base, base);
        let st = first_pass(lines.drop_last(), data_base, base)->Ok_0;
        lemma_line_step_laid_out(st, lines.last().0, lines.last().1, data_base, base);
    }
}

} // verus!
