use falcon_asm::ui::app::EditorMode;
use falcon_asm::ui::editor::{Editor, Motion};
use falcon_asm::ui::view::{docs_page, status_line};

fn editor_with(lines: &[&str]) -> Editor {
    let mut e = Editor::with_sample();
    e.lines = lines.iter().map(|s| s.to_string()).collect();
    e.cursor_row = 0;
    e.cursor_col = 0;
    e.selection_anchor = None;
    e
}

#[test]
fn typing_and_deleting_edit_the_line() {
    let mut e = editor_with(&["ac"]);
    e.move_right();
    e.insert_char('b');
    assert_eq!(e.lines, vec!["abc".to_string()]);
    assert_eq!(e.cursor_col, 2);
    e.backspace();
    assert_eq!(e.lines, vec!["ac".to_string()]);
    e.delete_char();
    assert_eq!(e.lines, vec!["a".to_string()]);
    e.tab();
    assert_eq!(e.lines, vec!["a    ".to_string()]);
    assert_eq!(e.cursor_col, 5);
}

#[test]
fn enter_splits_and_backspace_joins() {
    let mut e = editor_with(&["hello"]);
    e.move_right();
    e.move_right();
    e.enter();
    assert_eq!(e.lines, vec!["he".to_string(), "llo".to_string()]);
    assert_eq!((e.cursor_row, e.cursor_col), (1, 0));
    e.backspace();
    assert_eq!(e.lines, vec!["hello".to_string()]);
    assert_eq!((e.cursor_row, e.cursor_col), (0, 2));
    e.move_end();
    e.delete_char();
    assert_eq!(e.lines, vec!["hello".to_string()]);
}

#[test]
fn undo_restores_the_text_before_each_edit() {
    let mut e = editor_with(&["x"]);
    e.insert_char('a');
    e.insert_char('b');
    assert_eq!(e.lines, vec!["abx".to_string()]);
    e.undo();
    assert_eq!(e.lines, vec!["ax".to_string()]);
    assert_eq!(e.cursor_col, 1);
    e.undo();
    assert_eq!(e.lines, vec!["x".to_string()]);
    e.undo();
    assert_eq!(e.lines, vec!["x".to_string()]);
}

#[test]
fn cursor_moves_across_lines() {
    let mut e = editor_with(&["abc", "d"]);
    e.move_end();
    e.move_right();
    assert_eq!((e.cursor_row, e.cursor_col), (1, 0));
    e.move_left();
    assert_eq!((e.cursor_row, e.cursor_col), (0, 3));
    e.move_down();
    assert_eq!((e.cursor_row, e.cursor_col), (1, 1));
    e.move_up();
    assert_eq!((e.cursor_row, e.cursor_col), (0, 1));
    e.page_down();
    assert_eq!(e.cursor_row, 1);
    e.page_up();
    assert_eq!(e.cursor_row, 0);
    e.move_home();
    assert_eq!(e.cursor_col, 0);
}

#[test]
fn selection_covers_text_between_anchor_and_cursor() {
    let mut e = editor_with(&["abc", "de"]);
    e.move_right();
    e.move_selecting(Motion::Right, true);
    e.move_selecting(Motion::Down, true);
    assert_eq!(e.selected_text().as_deref(), Some("bc\nde"));
    e.clear_selection();
    assert_eq!(e.selected_text(), None);
    e.select_all();
    assert_eq!(e.selected_text().as_deref(), Some("abc\nde"));
}

#[test]
fn loading_text_splits_lines_like_str_lines() {
    let mut e = editor_with(&["old"]);
    e.load_text("a\r\nb\n");
    assert_eq!(e.lines, vec!["a".to_string(), "b".to_string()]);
    e.load_text("x\r");
    assert_eq!(e.lines, vec!["x\r".to_string()]);
    e.load_text("");
    assert!(e.lines.is_empty());
    e.insert_char('z');
    assert_eq!(e.lines, vec!["z".to_string()]);
}

#[test]
fn char_count_counts_characters() {
    assert_eq!(Editor::char_count("héllo"), 5);
}

#[test]
fn docs_page_shows_a_window_of_the_reference() {
    assert_eq!(
        docs_page(0, 5),
        "Falcon ASM — Supported Instructions (RV32I MVP)\n\nR-type (opcode 0x33):"
    );
    assert_eq!(docs_page(2, 3), "R-type (opcode 0x33):");
    assert_eq!(docs_page(10_000, 30), "");
    assert_eq!(docs_page(0, 1), "");
}

#[test]
fn status_line_names_the_mode() {
    assert!(status_line(EditorMode::Insert).starts_with("Mode: INSERT  |  Ctrl+R=Assemble"));
    assert!(status_line(EditorMode::Command).starts_with("Mode: COMMAND  |"));
}
