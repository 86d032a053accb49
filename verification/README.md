# falcon_asm

An RV32IM assembler and emulator with a small editor front end, written in
Verus: the library's functions carry `requires`/`ensures` contracts that
Verus proves.

## Layout

- `src/falcon/` — the machine.
  - `instruction`, `bits`, `encoder`, `decoder`: instructions, their
    machine words, and the proofs that decoding inverts encoding.
  - `memory`: the little-endian `Ram` behind the `Bus` trait and the
    fixed-size big-endian `Memory`; store/load read-back lemmas.
  - `registers`, `machine`, `exec`, `syscall`: the CPU, the abstract
    machine state the contracts speak of, one emulation step, bounded runs,
    and the console syscalls (print integer, print string, read line).
  - `program`: loading assembled words and data into memory.
  - `assembler/`: the two-pass assembler — source lines, operands,
    instructions and pseudo-instructions, the first pass (`layout`) and the
    second (`codegen`), and the lemma that every text line's address is
    four bytes per word emitted before it.
- `src/ui/` — the application state and its input handling: `app` (assemble,
  load, step, tick), `editor` (text editing with undo and selection),
  `keyboard`, `mouse`, `layout` (screen geometry; splits go through
  ratatui's layout solver), `view` (docs page and status line), `console`.
- `src/text.rs` — character/string conversions and decimal/hex rendering.
- `app/` — the terminal interface (event loop, drawing, file dialogs and
  clipboard) around the library's key, mouse and tick handling.
- `tests/` — runtime tests of the library.
