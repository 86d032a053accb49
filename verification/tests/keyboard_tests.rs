use falcon_asm::ui::app::{App, EditorMode, MemRegion, Tab, MEM_SIZE};
use falcon_asm::ui::keyboard::{handle_key, KeyCode, KeyEvent, KeyOutcome};

fn press(code: KeyCode) -> KeyEvent {
    KeyEvent { code, press: true, ctrl: false, shift: false }
}

fn ctrl(c: char) -> KeyEvent {
    KeyEvent { code: KeyCode::Char(c), press: true, ctrl: true, shift: false }
}

#[test]
fn typing_in_insert_mode_edits_and_marks_the_text() {
    let mut app = App::new();
    app.last_compile_ok = Some(true);
    let out = handle_key(&mut app, press(KeyCode::Char('#')), 1234);
    assert!(matches!(out, KeyOutcome::Handled));
    assert_eq!(app.editor.lines[0], "#.data");
    assert!(app.editor_dirty);
    assert_eq!(app.last_edit_at, Some(1234));
    assert_eq!(app.last_compile_ok, None);
}

#[test]
fn releases_are_ignored() {
    let mut app = App::new();
    let key = KeyEvent { code: KeyCode::Char('x'), press: false, ctrl: false, shift: false };
    handle_key(&mut app, key, 5);
    assert_eq!(app.editor.lines[0], ".data");
}

#[test]
fn escape_switches_modes_and_quits_through_the_popup() {
    let mut app = App::new();
    handle_key(&mut app, press(KeyCode::Esc), 0);
    assert!(app.mode == EditorMode::Command);
    handle_key(&mut app, press(KeyCode::Char('q')), 0);
    assert!(app.show_exit_popup);
    handle_key(&mut app, press(KeyCode::Char('2')), 0);
    assert!(app.tab == Tab::Editor);
    handle_key(&mut app, press(KeyCode::Esc), 0);
    assert!(!app.show_exit_popup);
    handle_key(&mut app, press(KeyCode::Char('i')), 0);
    assert!(app.mode == EditorMode::Insert);
}

#[test]
fn run_tab_keys_drive_the_program() {
    let mut app = App::new();
    handle_key(&mut app, ctrl('r'), 0);
    assert_eq!(app.last_compile_ok, Some(true));
    handle_key(&mut app, press(KeyCode::Esc), 0);
    handle_key(&mut app, press(KeyCode::Char('2')), 0);
    assert!(app.tab == Tab::Run);
    handle_key(&mut app, press(KeyCode::Char('s')), 0);
    assert_eq!(app.cpu.pc, 4);
    handle_key(&mut app, press(KeyCode::Char('r')), 0);
    assert!(app.is_running);
    handle_key(&mut app, press(KeyCode::Char('p')), 0);
    assert!(!app.is_running);
    app.faulted = true;
    handle_key(&mut app, press(KeyCode::Char('r')), 0);
    assert!(!app.is_running);
}

#[test]
fn memory_view_scrolls_within_memory() {
    let mut app = App::new();
    handle_key(&mut app, press(KeyCode::Esc), 0);
    handle_key(&mut app, press(KeyCode::Char('2')), 0);
    app.show_registers = false;
    app.mem_view_addr = MEM_SIZE as u32 - 8;
    handle_key(&mut app, press(KeyCode::PageDown), 0);
    assert_eq!(app.mem_view_addr, MEM_SIZE as u32 - 4);
    assert!(app.mem_region == MemRegion::Custom);
    handle_key(&mut app, press(KeyCode::Up), 0);
    assert_eq!(app.mem_view_addr, MEM_SIZE as u32 - 8);
    app.mem_view_addr = 10;
    handle_key(&mut app, press(KeyCode::PageUp), 0);
    assert_eq!(app.mem_view_addr, 0);
    app.show_registers = true;
    handle_key(&mut app, press(KeyCode::PageDown), 0);
    assert_eq!(app.regs_scroll, 10);
    handle_key(&mut app, press(KeyCode::Up), 0);
    assert_eq!(app.regs_scroll, 9);
}

#[test]
fn docs_tab_scrolls() {
    let mut app = App::new();
    handle_key(&mut app, press(KeyCode::Esc), 0);
    handle_key(&mut app, press(KeyCode::Char('3')), 0);
    handle_key(&mut app, press(KeyCode::PageDown), 0);
    handle_key(&mut app, press(KeyCode::Down), 0);
    assert_eq!(app.docs_scroll, 11);
    handle_key(&mut app, press(KeyCode::PageUp), 0);
    assert_eq!(app.docs_scroll, 1);
}

#[test]
fn outside_work_is_handed_back() {
    let mut app = App::new();
    assert!(matches!(handle_key(&mut app, ctrl('o'), 0), KeyOutcome::OpenFile));
    match handle_key(&mut app, ctrl('s'), 0) {
        KeyOutcome::SaveText(t) => assert!(t.starts_with(".data\n")),
        _ => panic!("expected text to save"),
    }
    assert!(matches!(handle_key(&mut app, ctrl('c'), 0), KeyOutcome::Handled));
    handle_key(&mut app, ctrl('a'), 0);
    match handle_key(&mut app, ctrl('c'), 0) {
        KeyOutcome::CopyText(t) => assert_eq!(t, app.editor.text()),
        _ => panic!("expected text to copy"),
    }
}

#[test]
fn undo_key_reverts_the_last_edit() {
    let mut app = App::new();
    handle_key(&mut app, press(KeyCode::Enter), 7);
    assert_eq!(app.editor.lines[0], "");
    handle_key(&mut app, ctrl('z'), 8);
    assert_eq!(app.editor.lines[0], ".data");
    assert_eq!(app.last_edit_at, Some(8));
}
