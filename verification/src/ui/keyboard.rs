//! Keyboard input: which action a key press asks for in the current mode
//! and tab, and what that action does to the application. Work outside the
//! application (file dialogs, files, the clipboard) is handed back to the
//! caller as a [`KeyOutcome`].
use vstd::prelude::*;
use crate::ui::app::{self, App, EditorMode, MemRegion, Tab};
use crate::ui::editor::{self, Edit, Editor, Motion};

verus! {

/// The key of a key event.
#[derive(Clone, Copy, Debug, PartialEq, Eq, Structural)]
pub enum KeyCode {
    Char(char),
    Esc,
    Enter,
    Backspace,
    Delete,
    Tab,
    Left,
    Right,
    Up,
    Down,
    Home,
    End,
    PageUp,
    PageDown,
    Other,
}

/// A key event: the key, whether it is a press (not a release or repeat),
/// and whether Control and Shift are held.
#[derive(Clone, Copy, Debug, PartialEq, Eq, Structural)]
pub struct KeyEvent {
    pub code: KeyCode,
    pub press: bool,
    pub ctrl: bool,
    pub shift: bool,
}

/// What a key asks for.
#[derive(Clone, Copy, Debug, PartialEq, Eq, Structural)]
pub enum KeyAction {
    Ignore,
    ClosePopup,
    OpenPopup,
    ToCommand,
    ToInsert,
    Assemble,
    Open,
    Save,
    Copy,
    Undo,
    SelectAll,
    Move(Motion, bool),
    Type(Edit),
    Touch,
    SwitchTab(Tab),
    Step,
    Run,
    Pause,
    RegsUp(usize),
    RegsDown(usize),
    MemUp,
    MemDown,
    MemPageUp,
    MemPageDown,
    DocsUp(usize),
    DocsDown(usize),
    EditorUp,
    EditorDown,
}

/// Work a key leaves to the caller.
pub enum KeyOutcome {
    /// Nothing left to do.
    Handled,
    /// Ask for a file and load its text into the editor.
    OpenFile,
    /// Ask where to save, and save this text there.
    SaveText(String),
    /// Put this text on the clipboard.
    CopyText(String),
}

/// The cursor move a navigation key stands for.
pub open spec fn motion_of(code: KeyCode) -> Option<Motion> {
    match code {
        KeyCode::Left => Some(Motion::Left),
        KeyCode::Right => Some(Motion::Right),
        KeyCode::Up => Some(Motion::Up),
        KeyCode::Down => Some(Motion::Down),
        KeyCode::Home => Some(Motion::Home),
        KeyCode::End => Some(Motion::End),
        KeyCode::PageUp => Some(Motion::PageUp),
        KeyCode::PageDown => Some(Motion::PageDown),
        _ => None,
    }
}

/// A key typed into the editor in insert mode.
pub open spec fn insert_action(code: KeyCode, shift: bool) -> KeyAction {
    match code {
        KeyCode::Backspace => KeyAction::Type(Edit::Backspace),
        KeyCode::Delete => KeyAction::Type(Edit::Delete),
        KeyCode::Enter => KeyAction::Type(Edit::Enter),
        KeyCode::Tab => KeyAction::Type(Edit::Tab),
        KeyCode::Char(c) => KeyAction::Type(Edit::Insert(c)),
        _ => match motion_of(code) {
            Some(m) => KeyAction::Move(m, shift),
            None => KeyAction::Touch,
        },
    }
}

/// A key in command mode on the run tab.
pub open spec fn run_action(code: KeyCode, registers: bool) -> KeyAction {
    match code {
        KeyCode::Char('s') => KeyAction::Step,
        KeyCode::Char('r') => KeyAction::Run,
        KeyCode::Char('p') => KeyAction::Pause,
        KeyCode::Up => if registers {
            KeyAction::RegsUp(1)
        } else {
            KeyAction::MemUp
        },
        KeyCode::Down => if registers {
            KeyAction::RegsDown(1)
        } else {
            KeyAction::MemDown
        },
        KeyCode::PageUp => if registers {
            KeyAction::RegsUp(10)
        } else {
            KeyAction::MemPageUp
        },
        KeyCode::PageDown => if registers {
            KeyAction::RegsDown(10)
        } else {
            KeyAction::MemPageDown
        },
        _ => KeyAction::Ignore,
    }
}

/// A key in command mode on the docs tab.
pub open spec fn docs_action(code: KeyCode) -> KeyAction {
    match code {
        KeyCode::Up => KeyAction::DocsUp(1),
        KeyCode::Down => KeyAction::DocsDown(1),
        KeyCode::PageUp => KeyAction::DocsUp(10),
        KeyCode::PageDown => KeyAction::DocsDown(10),
        _ => KeyAction::Ignore,
    }
}

/// What key event `key` asks of application `a`. Only presses count; the
/// exit popup only listens for Esc; insert mode types into the editor (and
/// takes Ctrl shortcuts); command mode switches tabs and drives the run
/// and docs views.
pub open spec fn key_action(a: &App, key: KeyEvent) -> KeyAction {
    let code = key.code;
    let on_editor = a.tab == Tab::Editor;
    if !key.press {
        KeyAction::Ignore
    } else if a.show_exit_popup {
        if code == KeyCode::Esc {
            KeyAction::ClosePopup
        } else {
            KeyAction::Ignore
        }
    } else if a.mode == EditorMode::Insert {
        if code == KeyCode::Esc {
            KeyAction::ToCommand
        } else if key.ctrl && code == KeyCode::Char('r') {
            KeyAction::Assemble
        } else if key.ctrl && code == KeyCode::Char('o') {
            KeyAction::Open
        } else if key.ctrl && code == KeyCode::Char('s') {
            KeyAction::Save
        } else if key.ctrl && code == KeyCode::Char('c') && on_editor {
            KeyAction::Copy
        } else if key.ctrl && code == KeyCode::Char('z') && on_editor {
            KeyAction::Undo
        } else if key.ctrl && code == KeyCode::Char('a') && on_editor {
            KeyAction::SelectAll
        } else if !on_editor {
            KeyAction::Touch
        } else {
            insert_action(code, key.shift)
        }
    } else {
        if code == KeyCode::Esc || code == KeyCode::Char('q') {
            KeyAction::OpenPopup
        } else if key.ctrl && code == KeyCode::Char('r') {
            KeyAction::Assemble
        } else if key.ctrl && code == KeyCode::Char('c') && on_editor {
            KeyAction::Copy
        } else if key.ctrl && code == KeyCode::Char('z') && on_editor {
            KeyAction::Undo
        } else if key.ctrl && code == KeyCode::Char('o') {
            KeyAction::Open
        } else if key.ctrl && code == KeyCode::Char('s') {
            KeyAction::Save
        } else if (code == KeyCode::Char('i') || code == KeyCode::Enter) && on_editor {
            KeyAction::ToInsert
        } else if code == KeyCode::Char('1') {
            KeyAction::SwitchTab(Tab::Editor)
        } else if code == KeyCode::Char('2') {
            KeyAction::SwitchTab(Tab::Run)
        } else if code == KeyCode::Char('3') {
            KeyAction::SwitchTab(Tab::Docs)
        } else if a.tab == Tab::Run {
            run_action(code, a.show_registers)
        } else if a.tab == Tab::Docs {
            docs_action(code)
        } else if code == KeyCode::Up {
            KeyAction::EditorUp
        } else if code == KeyCode::Down {
            KeyAction::EditorDown
        } else {
            KeyAction::Ignore
        }
    }
}

/// Whether the action `key` asks of `a` stays within the integer ranges
/// (a page of memory is 16 views; the docs scroll has room).
pub open spec fn key_in_range(a: &App, key: KeyEvent) -> bool {
    action_in_range(a, key_action(a, key))
}

/// Whether action `act` on `a` stays within the integer ranges.
pub open spec fn action_in_range(a: &App, act: KeyAction) -> bool {
    match act {
        KeyAction::MemPageUp | KeyAction::MemPageDown => a.mem_view_bytes * 16 <= u32::MAX,
        KeyAction::DocsDown(n) => a.docs_scroll + n <= usize::MAX,
        _ => true,
    }
}

/// `a` minus `b`, stopping at zero.
pub open spec fn sat_sub(a: int, b: int) -> int {
    if a >= b {
        a - b
    } else {
        0
    }
}

/// `a` plus `b`, stopping at `top`.
pub open spec fn sat_add(a: int, b: int, top: int) -> int {
    if a + b <= top {
        a + b
    } else {
        top
    }
}

/// Last address the memory view may start at.
pub open spec fn view_limit(a: &App) -> u32 {
    (sat_sub(a.mem_size as int, a.mem_view_bytes as int)) as u32
}

/// `a` with editor `e` after an edit at time `now`: the text is marked
/// changed and the diagnostics are cleared.
pub open spec fn edited_app(a: &App, e: Editor, now: u64) -> App {
    App {
        editor: e,
        editor_dirty: true,
        last_edit_at: Some(now),
        diag_line: None,
        diag_msg: None,
        diag_line_text: None,
        last_compile_ok: None,
        last_assemble_msg: None,
        ..*a
    }
}

/// `b` and `out` are what key event `key` at time `now` makes of `a`.
pub open spec fn key_effect(a: &App, b: &App, key: KeyEvent, now: u64, out: KeyOutcome) -> bool {
    action_effect(a, b, key_action(a, key), now, out)
}

/// `b` and `out` are what action `act` at time `now` makes of `a`.
pub open spec fn action_effect(a: &App, b: &App, act: KeyAction, now: u64, out: KeyOutcome) -> bool {
    let unchanged = *b == *a && out is Handled;
    match act {
        KeyAction::Ignore => unchanged,
        KeyAction::ClosePopup => *b == App { show_exit_popup: false, ..*a } && out is Handled,
        KeyAction::OpenPopup => *b == App { show_exit_popup: true, ..*a } && out is Handled,
        KeyAction::ToCommand => *b == App { mode: EditorMode::Command, ..*a } && out is Handled,
        KeyAction::ToInsert => *b == App { mode: EditorMode::Insert, ..*a } && out is Handled,
        KeyAction::Assemble => app::assembled_and_loaded(a, b) && out is Handled,
        KeyAction::Open => *b == *a && out is OpenFile,
        KeyAction::Save => *b == *a && (out matches KeyOutcome::SaveText(t) && t@ == app::source_of(a)),
        KeyAction::Copy => *b == *a && match editor::selection(&a.editor) {
            Some(t) => out matches KeyOutcome::CopyText(s) && s@ == t,
            None => out is Handled,
        },
        KeyAction::Undo => editor::undone(&a.editor, &b.editor) && *b == edited_app(a, b.editor, now)
            && out is Handled,
        KeyAction::SelectAll => editor::all_selected(&a.editor, &b.editor) && *b == App { editor: b.editor, ..*a }
            && out is Handled,
        KeyAction::Move(m, select) => editor::moved_selecting(&a.editor, &b.editor, m, select) && *b
            == edited_app(a, b.editor, now) && out is Handled,
        KeyAction::Type(e) => editor::text_edited(&a.editor, &b.editor, e) && *b == edited_app(
            a,
            b.editor,
            now,
        ) && out is Handled,
        KeyAction::Touch => *b == edited_app(a, a.editor, now) && out is Handled,
        KeyAction::SwitchTab(t) => *b == App { tab: t, ..*a } && out is Handled,
        KeyAction::Step => app::single_stepped(a, b) && out is Handled,
        KeyAction::Run => *b == App { is_running: a.is_running || !a.faulted, ..*a } && out is Handled,
        KeyAction::Pause => *b == App { is_running: false, ..*a } && out is Handled,
        KeyAction::RegsUp(n) => *b == App { regs_scroll: sat_sub(a.regs_scroll as int, n as int) as usize, ..*a }
            && out is Handled,
        KeyAction::RegsDown(n) => *b == App {
            regs_scroll: sat_add(a.regs_scroll as int, n as int, usize::MAX as int) as usize,
            ..*a
        } && out is Handled,
        KeyAction::MemUp => *b == App {
            mem_view_addr: sat_sub(a.mem_view_addr as int, a.mem_view_bytes as int) as u32,
            mem_region: MemRegion::Custom,
            ..*a
        } && out is Handled,
        KeyAction::MemDown => {
            let max = view_limit(a);
            let next = sat_add(a.mem_view_addr as int, a.mem_view_bytes as int, u32::MAX as int);
            &&& *b == App {
                mem_view_addr: if a.mem_view_addr < max {
                    (if next <= max { next } else { max as int }) as u32
                } else {
                    a.mem_view_addr
                },
                mem_region: MemRegion::Custom,
                ..*a
            }
            &&& out is Handled
        },
        KeyAction::MemPageUp => *b == App {
            mem_view_addr: sat_sub(a.mem_view_addr as int, a.mem_view_bytes * 16) as u32,
            mem_region: MemRegion::Custom,
            ..*a
        } && out is Handled,
        KeyAction::MemPageDown => {
            let max = view_limit(a);
            let next = sat_add(a.mem_view_addr as int, a.mem_view_bytes * 16, u32::MAX as int);
            &&& *b == App {
                mem_view_addr: (if next <= max { next } else { max as int }) as u32,
                mem_region: MemRegion::Custom,
                ..*a
            }
            &&& out is Handled
        },
        KeyAction::DocsUp(n) => *b == App { docs_scroll: sat_sub(a.docs_scroll as int, n as int) as usize, ..*a }
            && out is Handled,
        KeyAction::DocsDown(n) => *b == App { docs_scroll: (a.docs_scroll + n) as usize, ..*a } && out is Handled,
        KeyAction::EditorUp => editor::cursor_moved(&a.editor, &b.editor, Motion::Up) && *b == App {
            editor: b.editor,
            ..*a
        } && out is Handled,
        KeyAction::EditorDown => editor::cursor_moved(&a.editor, &b.editor, Motion::Down) && *b == App {
            editor: b.editor,
            ..*a
        } && out is Handled,
    }
}

fn motion_for(code: KeyCode) -> (r: Option<Motion>)
    ensures
        r == motion_of(code),
{
    match code {
        KeyCode::Left => Some(Motion::Left),
        KeyCode::Right => Some(Motion::Right),
        KeyCode::Up => Some(Motion::Up),
        KeyCode::Down => Some(Motion::Down),
        KeyCode::Home => Some(Motion::Home),
        KeyCode::End => Some(Motion::End),
        KeyCode::PageUp => Some(Motion::PageUp),
        KeyCode::PageDown => Some(Motion::PageDown),
        _ => None,
    }
}

/// The action key event `key` asks of `a`.
pub fn action_for(a: &App, key: KeyEvent) -> (r: KeyAction)
    ensures
        r == key_action(a, key),
{
    let code = key.code;
    let on_editor = a.tab == Tab::Editor;
    if !key.press {
        return KeyAction::Ignore;
    }
    if a.show_exit_popup {
        return if code == KeyCode::Esc {
            KeyAction::ClosePopup
        } else {
            KeyAction::Ignore
        };
    }
    if a.mode == EditorMode::Insert {
        if code == KeyCode::Esc {
            KeyAction::ToCommand
        } else if key.ctrl && code == KeyCode::Char('r') {
            KeyAction::Assemble
        } else if key.ctrl && code == KeyCode::Char('o') {
            KeyAction::Open
        } else if key.ctrl && code == KeyCode::Char('s') {
            KeyAction::Save
        } else if key.ctrl && code == KeyCode::Char('c') && on_editor {
            KeyAction::Copy
        } else if key.ctrl && code == KeyCode::Char('z') && on_editor {
            KeyAction::Undo
        } else if key.ctrl && code == KeyCode::Char('a') && on_editor {
            KeyAction::SelectAll
        } else if !on_editor {
            KeyAction::Touch
        } else {
            match code {
                KeyCode::Backspace => KeyAction::Type(Edit::Backspace),
                KeyCode::Delete => KeyAction::Type(Edit::Delete),
                KeyCode::Enter => KeyAction::Type(Edit::Enter),
                KeyCode::Tab => KeyAction::Type(Edit::Tab),
                KeyCode::Char(c) => KeyAction::Type(Edit::Insert(c)),
                _ => match motion_for(code) {
                    Some(m) => KeyAction::Move(m, key.shift),
                    None => KeyAction::Touch,
                },
            }
        }
    } else if code == KeyCode::Esc || code == KeyCode::Char('q') {
        KeyAction::OpenPopup
    } else if key.ctrl && code == KeyCode::Char('r') {
        KeyAction::Assemble
    } else if key.ctrl && code == KeyCode::Char('c') && on_editor {
        KeyAction::Copy
    } else if key.ctrl && code == KeyCode::Char('z') && on_editor {
        KeyAction::Undo
    } else if key.ctrl && code == KeyCode::Char('o') {
        KeyAction::Open
    } else if key.ctrl && code == KeyCode::Char('s') {
        KeyAction::Save
    } else if (code == KeyCode::Char('i') || code == KeyCode::Enter) && on_editor {
        KeyAction::ToInsert
    } else if code == KeyCode::Char('1') {
        KeyAction::SwitchTab(Tab::Editor)
    } else if code == KeyCode::Char('2') {
        KeyAction::SwitchTab(Tab::Run)
    } else if code == KeyCode::Char('3') {
        KeyAction::SwitchTab(Tab::Docs)
    } else if a.tab == Tab::Run {
        let registers = a.show_registers;
        match code {
            KeyCode::Char('s') => KeyAction::Step,
            KeyCode::Char('r') => KeyAction::Run,
            KeyCode::Char('p') => KeyAction::Pause,
            KeyCode::Up => if registers {
                KeyAction::RegsUp(1)
            } else {
                KeyAction::MemUp
            },
            KeyCode::Down => if registers {
                KeyAction::RegsDown(1)
            } else {
                KeyAction::MemDown
            },
            KeyCode::PageUp => if registers {
                KeyAction::RegsUp(10)
            } else {
                KeyAction::MemPageUp
            },
            KeyCode::PageDown => if registers {
                KeyAction::RegsDown(10)
            } else {
                KeyAction::MemPageDown
            },
            _ => KeyAction::Ignore,
        }
    } else if a.tab == Tab::Docs {
        match code {
            KeyCode::Up => KeyAction::DocsUp(1),
            KeyCode::Down => KeyAction::DocsDown(1),
            KeyCode::PageUp => KeyAction::DocsUp(10),
            KeyCode::PageDown => KeyAction::DocsDown(10),
            _ => KeyAction::Ignore,
        }
    } else if code == KeyCode::Up {
        KeyAction::EditorUp
    } else if code == KeyCode::Down {
        KeyAction::EditorDown
    } else {
        KeyAction::Ignore
    }
}

/// Marks the text changed at time `now` and clears the diagnostics.
fn mark_edited(app: &mut App, now: u64)
    ensures
        *final(app) == edited_app(old(app), old(app).editor, now),
{
    app.editor_dirty = true;
    app.last_edit_at = Some(now);
    app.diag_line = None;
    app.diag_msg = None;
    app.diag_line_text = None;
    app.last_compile_ok = None;
    app.last_assemble_msg = None;
}

/// Mode, tab, popup, run and outside-work actions.
fn perform_mode(app: &mut App, act: KeyAction, now: u64) -> (out: KeyOutcome)
    requires
        act matches KeyAction::Ignore || act matches KeyAction::ClosePopup || act matches KeyAction::OpenPopup || act matches KeyAction::ToCommand || act matches KeyAction::ToInsert || act matches KeyAction::Assemble || act matches KeyAction::Open || act matches KeyAction::Save || act matches KeyAction::Copy || act matches KeyAction::SwitchTab(..) || act matches KeyAction::Step || act matches KeyAction::Run || act matches KeyAction::Pause,
    ensures
        action_effect(old(app), final(app), act, now, out),
{
    match act {
        KeyAction::Ignore => KeyOutcome::Handled,
        KeyAction::ClosePopup => {
            app.show_exit_popup = false;
            KeyOutcome::Handled
        },
        KeyAction::OpenPopup => {
            app.show_exit_popup = true;
            KeyOutcome::Handled
        },
        KeyAction::ToCommand => {
            app.mode = EditorMode::Command;
            KeyOutcome::Handled
        },
        KeyAction::ToInsert => {
            app.mode = EditorMode::Insert;
            KeyOutcome::Handled
        },
        KeyAction::Assemble => {
            app.assemble_and_load();
            KeyOutcome::Handled
        },
        KeyAction::Open => KeyOutcome::OpenFile,
        KeyAction::Save => KeyOutcome::SaveText(app.editor.text()),
        KeyAction::Copy => match app.editor.selected_text() {
            Some(t) => KeyOutcome::CopyText(t),
            None => KeyOutcome::Handled,
        },
        KeyAction::SwitchTab(t) => {
            app.tab = t;
            KeyOutcome::Handled
        },
        KeyAction::Step => {
            app.single_step();
            KeyOutcome::Handled
        },
        KeyAction::Run => {
            if !app.faulted {
                app.is_running = true;
            }
            KeyOutcome::Handled
        },
        KeyAction::Pause => {
            app.is_running = false;
            KeyOutcome::Handled
        },
        _ => KeyOutcome::Handled,
    }
}

/// Actions on the editor.
fn perform_edit(app: &mut App, act: KeyAction, now: u64) -> (out: KeyOutcome)
    requires
        act matches KeyAction::Undo || act matches KeyAction::SelectAll || act matches KeyAction::Move(..) || act matches KeyAction::Type(..) || act matches KeyAction::Touch || act matches KeyAction::EditorUp || act matches KeyAction::EditorDown,
    ensures
        action_effect(old(app), final(app), act, now, out),
{
    match act {
        KeyAction::Undo => {
            app.editor.undo();
            mark_edited(app, now);
            KeyOutcome::Handled
        },
        KeyAction::SelectAll => {
            app.editor.select_all();
            KeyOutcome::Handled
        },
        KeyAction::Move(m, select) => {
            app.editor.move_selecting(m, select);
            mark_edited(app, now);
            KeyOutcome::Handled
        },
        KeyAction::Type(e) => {
            app.editor.apply_edit(e);
            mark_edited(app, now);
            KeyOutcome::Handled
        },
        KeyAction::Touch => {
            mark_edited(app, now);
            KeyOutcome::Handled
        },
        KeyAction::EditorUp => {
            app.editor.move_up();
            KeyOutcome::Handled
        },
        KeyAction::EditorDown => {
            app.editor.move_down();
            KeyOutcome::Handled
        },

        _ => KeyOutcome::Handled,
    }
}

/// Scrolling the register, memory and docs views.
#[verifier::spinoff_prover]
#[verifier::rlimit(60)]
fn perform_scroll(app: &mut App, act: KeyAction, now: u64) -> (out: KeyOutcome)
    requires
        act matches KeyAction::RegsUp(..) || act matches KeyAction::RegsDown(..) || act matches KeyAction::MemUp || act matches KeyAction::MemDown || act matches KeyAction::MemPageUp || act matches KeyAction::MemPageDown || act matches KeyAction::DocsUp(..) || act matches KeyAction::DocsDown(..),
        action_in_range(old(app), act),
    ensures
        action_effect(old(app), final(app), act, now, out),
{
    match act {
        KeyAction::RegsUp(n) => {
            app.regs_scroll = app.regs_scroll.saturating_sub(n);
            KeyOutcome::Handled
        },
        KeyAction::RegsDown(n) => {
            app.regs_scroll = app.regs_scroll.saturating_add(n);
            KeyOutcome::Handled
        },
        KeyAction::MemUp => {
            app.mem_view_addr = app.mem_view_addr.saturating_sub(app.mem_view_bytes);
            app.mem_region = MemRegion::Custom;
            KeyOutcome::Handled
        },
        KeyAction::MemDown => {
            let max = app.mem_size.saturating_sub(app.mem_view_bytes as usize) as u32;
            if app.mem_view_addr < max {
                let next = app.mem_view_addr.saturating_add(app.mem_view_bytes);
                app.mem_view_addr = if next <= max {
                    next
                } else {
                    max
                };
            }
            app.mem_region = MemRegion::Custom;
            KeyOutcome::Handled
        },
        KeyAction::MemPageUp => {
            let delta: u32 = app.mem_view_bytes * 16;
            app.mem_view_addr = app.mem_view_addr.saturating_sub(delta);
            app.mem_region = MemRegion::Custom;
            KeyOutcome::Handled
        },
        KeyAction::MemPageDown => {
            let delta: u32 = app.mem_view_bytes * 16;
            let max = app.mem_size.saturating_sub(app.mem_view_bytes as usize) as u32;
            let next = app.mem_view_addr.saturating_add(delta);
            app.mem_view_addr = if next <= max {
                next
            } else {
                max
            };
            app.mem_region = MemRegion::Custom;
            KeyOutcome::Handled
        },
        KeyAction::DocsUp(n) => {
            app.docs_scroll = app.docs_scroll.saturating_sub(n);
            KeyOutcome::Handled
        },
        KeyAction::DocsDown(n) => {
            app.docs_scroll = app.docs_scroll + n;
            KeyOutcome::Handled
        },
        _ => KeyOutcome::Handled,
    }
}

/// Whether `a` types into the editor: insert mode on the editor tab, no
/// popup, the cursor on a character of its line or at its end.
pub open spec fn typing_at(a: &App) -> bool {
    let ls = crate::ui::console::texts(a.editor.lines@);
    &&& !a.show_exit_popup
    &&& a.mode == EditorMode::Insert
    &&& a.tab == Tab::Editor
    &&& a.editor.cursor_row < ls.len()
    &&& a.editor.cursor_col <= ls[a.editor.cursor_row as int].len()
}

/// In insert mode on the editor tab, a press of Delete removes the character
/// at the cursor (the one after it on screen): the line loses exactly that
/// character, every other line stays, and the cursor does not move. It
/// never removes the character before the cursor.
pub proof fn lemma_delete_removes_char_at_cursor(
    a: App,
    b: App,
    key: KeyEvent,
    now: u64,
    out: KeyOutcome,
)
    requires
        key_effect(&a, &b, key, now, out),
        key.press,
        !key.ctrl,
        key.code == KeyCode::Delete,
        typing_at(&a),
        a.editor.cursor_col < crate::ui::console::texts(a.editor.lines@)[a.editor.cursor_row as int].len(),
    ensures
        ({
            let ls = crate::ui::console::texts(a.editor.lines@);
            let nl = crate::ui::console::texts(b.editor.lines@);
            let r = a.editor.cursor_row as int;
            let c = a.editor.cursor_col as int;
            &&& nl.len() == ls.len()
            &&& forall|k: int| 0 <= k < ls.len() && k != r ==> #[trigger] nl[k] == ls[k]
            &&& nl[r].len() == ls[r].len() - 1
            &&& forall|j: int| 0 <= j < c ==> #[trigger] nl[r][j] == ls[r][j]
            &&& forall|j: int| c <= j < nl[r].len() ==> #[trigger] nl[r][j] == ls[r][j + 1]
            &&& b.editor.cursor_row == a.editor.cursor_row
            &&& b.editor.cursor_col == a.editor.cursor_col
            &&& out is Handled
        }),
{
}

/// In insert mode on the editor tab, a press of Backspace with the cursor
/// after the start of its line removes the character before the cursor: the
/// line loses exactly that character, every other line stays, and the cursor
/// moves back by one.
pub proof fn lemma_backspace_removes_char_before_cursor(
    a: App,
    b: App,
    key: KeyEvent,
    now: u64,
    out: KeyOutcome,
)
    requires
        key_effect(&a, &b, key, now, out),
        key.press,
        !key.ctrl,
        key.code == KeyCode::Backspace,
        typing_at(&a),
        a.editor.cursor_col > 0,
    ensures
        ({
            let ls = crate::ui::console::texts(a.editor.lines@);
            let nl = crate::ui::console::texts(b.editor.lines@);
            let r = a.editor.cursor_row as int;
            let c = a.editor.cursor_col as int;
            &&& nl.len() == ls.len()
            &&& forall|k: int| 0 <= k < ls.len() && k != r ==> #[trigger] nl[k] == ls[k]
            &&& nl[r].len() == ls[r].len() - 1
            &&& forall|j: int| 0 <= j < c - 1 ==> #[trigger] nl[r][j] == ls[r][j]
            &&& forall|j: int| c - 1 <= j < nl[r].len() ==> #[trigger] nl[r][j] == ls[r][j + 1]
            &&& b.editor.cursor_row == a.editor.cursor_row
            &&& b.editor.cursor_col == a.editor.cursor_col - 1
            &&& out is Handled
        }),
{
}

/// In insert mode on the editor tab, typing a character (Control not held)
/// puts it at the cursor: the line gains exactly that character there,
/// every other line stays, and the cursor moves past it.
pub proof fn lemma_typed_char_lands_at_cursor(
    a: App,
    b: App,
    key: KeyEvent,
    now: u64,
    out: KeyOutcome,
    ch: char,
)
    requires
        key_effect(&a, &b, key, now, out),
        key.press,
        !key.ctrl,
        key.code == KeyCode::Char(ch),
        typing_at(&a),
    ensures
        ({
            let ls = crate::ui::console::texts(a.editor.lines@);
            let nl = crate::ui::console::texts(b.editor.lines@);
            let r = a.editor.cursor_row as int;
            let c = a.editor.cursor_col as int;
            &&& nl.len() == ls.len()
            &&& forall|k: int| 0 <= k < ls.len() && k != r ==> #[trigger] nl[k] == ls[k]
            &&& nl[r].len() == ls[r].len() + 1
            &&& forall|j: int| 0 <= j < c ==> #[trigger] nl[r][j] == ls[r][j]
            &&& nl[r][c] == ch
            &&& forall|j: int| c < j < nl[r].len() ==> #[trigger] nl[r][j] == ls[r][j - 1]
            &&& b.editor.cursor_row == a.editor.cursor_row
            &&& b.editor.cursor_col == c + 1
            &&& out is Handled
        }),
{
}

/// In insert mode on the editor tab, Enter splits the line at the cursor:
/// the text before the cursor stays on its line, the text from the cursor
/// on becomes a new line below it, and the cursor goes to the start of that
/// new line.
pub proof fn lemma_enter_splits_line_at_cursor(
    a: App,
    b: App,
    key: KeyEvent,
    now: u64,
    out: KeyOutcome,
)
    requires
        key_effect(&a, &b, key, now, out),
        key.press,
        !key.ctrl,
        key.code == KeyCode::Enter,
        typing_at(&a),
    ensures
        ({
            let ls = crate::ui::console::texts(a.editor.lines@);
            let nl = crate::ui::console::texts(b.editor.lines@);
            let r = a.editor.cursor_row as int;
            let c = a.editor.cursor_col as int;
            &&& nl.len() == ls.len() + 1
            &&& forall|k: int| 0 <= k < r ==> #[trigger] nl[k] == ls[k]
            &&& forall|k: int| r + 1 < k < nl.len() ==> #[trigger] nl[k] == ls[k - 1]
            &&& nl[r] + nl[r + 1] == ls[r]
            &&& nl[r].len() == c
            &&& b.editor.cursor_row == r + 1
            &&& b.editor.cursor_col == 0
            &&& out is Handled
        }),
{
    let ls = crate::ui::console::texts(a.editor.lines@);
    let r = a.editor.cursor_row as int;
    let c = a.editor.cursor_col as int;
    assert(ls[r].subrange(0, c) + ls[r].subrange(c, ls[r].len() as int) =~= ls[r]);
}

/// In command mode, with no popup, the keys `1`, `2` and `3` switch to the
/// editor, run and docs tabs, and change nothing else.
pub proof fn lemma_number_keys_switch_tabs(
    a: App,
    b: App,
    key: KeyEvent,
    now: u64,
    out: KeyOutcome,
)
    requires
        key_effect(&a, &b, key, now, out),
        key.press,
        !key.ctrl,
        !a.show_exit_popup,
        a.mode == EditorMode::Command,
        key.code == KeyCode::Char('1') || key.code == KeyCode::Char('2') || key.code
            == KeyCode::Char('3'),
    ensures
        b == (App {
            tab: if key.code == KeyCode::Char('1') {
                Tab::Editor
            } else if key.code == KeyCode::Char('2') {
                Tab::Run
            } else {
                Tab::Docs
            },
            ..a
        }),
        out is Handled,
{
}

/// Esc leaves insert mode for command mode and changes nothing else; in
/// command mode Esc or `q` opens the exit popup instead; while the popup
/// shows, Esc closes it.
pub proof fn lemma_escape_keys(a: App, b: App, key: KeyEvent, now: u64, out: KeyOutcome)
    requires
        key_effect(&a, &b, key, now, out),
        key.press,
        key.code == KeyCode::Esc,
    ensures
        a.show_exit_popup ==> b == (App { show_exit_popup: false, ..a }),
        !a.show_exit_popup && a.mode == EditorMode::Insert ==> b == (App {
            mode: EditorMode::Command,
            ..a
        }),
        !a.show_exit_popup && a.mode == EditorMode::Command ==> b == (App {
            show_exit_popup: true,
            ..a
        }),
        out is Handled,
{
}

/// In command mode on the run tab, `s` runs one step, `r` starts running
/// (unless the program faulted) and `p` pauses.
pub proof fn lemma_run_tab_keys(a: App, b: App, key: KeyEvent, now: u64, out: KeyOutcome)
    requires
        key_effect(&a, &b, key, now, out),
        key.press,
        !key.ctrl,
        !a.show_exit_popup,
        a.mode == EditorMode::Command,
        a.tab == Tab::Run,
    ensures
        key.code == KeyCode::Char('s') ==> app::single_stepped(&a, &b),
        key.code == KeyCode::Char('r') ==> b == (App {
            is_running: a.is_running || !a.faulted,
            ..a
        }),
        key.code == KeyCode::Char('p') ==> b == (App { is_running: false, ..a }),
        out is Handled || !(key.code == KeyCode::Char('s') || key.code == KeyCode::Char('r')
            || key.code == KeyCode::Char('p')),
{
}

/// Handles key event `key` at time `now` (milliseconds since start), and
/// returns the work it leaves to the caller.
pub fn handle_key(app: &mut App, key: KeyEvent, now: u64) -> (out: KeyOutcome)
    requires
        key_in_range(old(app), key),
    ensures
        key_effect(old(app), final(app), key, now, out),
{
    let act = action_for(app, key);
    match act {
        KeyAction::Undo | KeyAction::SelectAll | KeyAction::Move(..) | KeyAction::Type(..)
        | KeyAction::Touch | KeyAction::EditorUp | KeyAction::EditorDown => perform_edit(app, act, now),
        KeyAction::RegsUp(..) | KeyAction::RegsDown(..) | KeyAction::MemUp | KeyAction::MemDown
        | KeyAction::MemPageUp | KeyAction::MemPageDown | KeyAction::DocsUp(..) | KeyAction::DocsDown(
            ..,
        ) => perform_scroll(app, act, now),
        _ => perform_mode(app, act, now),
    }
}

} // verus!
