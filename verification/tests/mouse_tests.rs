use falcon_asm::ui::app::{App, EditorMode, Tab};
use falcon_asm::ui::layout::{body, centered_rect, editor_area, rect_new, status_area, Rect};
use falcon_asm::ui::mouse::{
    handle_mouse, handle_mouse_in, handle_status_click_in, MouseButton, MouseEvent, MouseKind,
};

fn screen() -> Rect {
    Rect { x: 0, y: 0, width: 100, height: 40 }
}

fn click(column: u16, row: u16) -> MouseEvent {
    MouseEvent { kind: MouseKind::Down(MouseButton::Left), column, row }
}

#[test]
fn clicking_a_tab_title_switches_to_it() {
    let mut app = App::new();
    handle_mouse(&mut app, click(13, 1), screen());
    assert!(app.tab == Tab::Run);
    assert!(app.mode == EditorMode::Command);
    assert!(app.hover_tab == Some(Tab::Run));
    assert_eq!((app.mouse_x, app.mouse_y), (13, 1));
    let moved = MouseEvent { kind: MouseKind::Moved, column: 30, row: 1 };
    handle_mouse(&mut app, moved, screen());
    assert!(app.hover_tab.is_none());
}

#[test]
fn clicking_in_the_editor_places_the_cursor() {
    let mut app = App::new();
    app.mode = EditorMode::Command;
    handle_mouse(&mut app, click(3, 9), screen());
    assert_eq!((app.editor.cursor_row, app.editor.cursor_col), (0, 2));
    assert_eq!(app.editor.selection_anchor, Some((0, 2)));
    assert!(app.mode == EditorMode::Insert);
    let release = MouseEvent { kind: MouseKind::Up(MouseButton::Left), column: 3, row: 9 };
    handle_mouse(&mut app, release, screen());
    assert_eq!(app.editor.selection_anchor, None);
}

#[test]
fn wheel_scrolls_the_docs() {
    let mut app = App::new();
    app.tab = Tab::Docs;
    let down = MouseEvent { kind: MouseKind::ScrollDown, column: 5, row: 20 };
    handle_mouse(&mut app, down, screen());
    handle_mouse(&mut app, down, screen());
    assert_eq!(app.docs_scroll, 2);
}

#[test]
fn status_line_toggles_the_register_view() {
    let mut app = App::new();
    app.tab = Tab::Run;
    assert!(app.show_registers);
    handle_mouse(&mut app, click(7, 7), screen());
    assert!(!app.show_registers);
}

#[test]
fn exit_popup_buttons() {
    let area = Rect { x: 0, y: 0, width: 90, height: 40 };
    let mut app = App::new();
    app.show_exit_popup = true;
    handle_mouse(&mut app, click(45, 19), area);
    assert!(!app.show_exit_popup);
    assert!(!app.should_quit);
    app.show_exit_popup = true;
    handle_mouse(&mut app, click(36, 19), area);
    assert!(app.should_quit);
    app.show_exit_popup = true;
    handle_mouse(&mut app, click(0, 0), area);
    assert!(!app.show_exit_popup);
}

#[test]
fn centered_rect_is_centred_and_clamped() {
    let r = centered_rect(30, 10, Rect { x: 0, y: 0, width: 90, height: 40 });
    assert_eq!(r, Rect { x: 30, y: 15, width: 30, height: 10 });
    assert_eq!(rect_new(65530, 0, 10, 3), Rect { x: 65530, y: 0, width: 5, height: 3 });
}

#[test]
fn status_clicks_act_on_the_given_status_line() {
    let st = Rect { x: 0, y: 6, width: 100, height: 4 };
    let mut app = App::new();
    app.tab = Tab::Run;
    handle_status_click_in(&mut app, click(7, 8), st);
    assert!(app.show_registers);
    handle_status_click_in(&mut app, click(7, 7), st);
    assert!(!app.show_registers);
    let fmt_col = 1 + 5 + 3 + 2 + 9;
    let hex = app.show_hex;
    handle_status_click_in(&mut app, click(fmt_col, 7), st);
    assert_eq!(app.show_hex, !hex);
}

#[test]
fn mouse_events_act_on_the_given_editor_area() {
    let area = screen();
    let ea = Rect { x: 0, y: 8, width: 100, height: 31 };
    let st = Rect { x: 0, y: 6, width: 100, height: 4 };
    let mut app = App::new();
    app.mode = EditorMode::Command;
    handle_mouse_in(&mut app, click(3, 9), area, ea, st);
    assert_eq!((app.editor.cursor_row, app.editor.cursor_col), (0, 2));
    assert!(app.mode == EditorMode::Insert);
}

#[test]
fn screen_regions_follow_the_layout_rules() {
    let area = screen();
    assert_eq!(body(area), Rect { x: 0, y: 3, width: 100, height: 36 });
    assert_eq!(status_area(area), Rect { x: 0, y: 6, width: 100, height: 4 });
    assert_eq!(editor_area(area), Rect { x: 0, y: 8, width: 100, height: 31 });
    let shifted = Rect { x: 2, y: 5, width: 30, height: 12 };
    assert_eq!(status_area(shifted), Rect { x: 2, y: 11, width: 30, height: 4 });
    assert_eq!(editor_area(shifted), Rect { x: 2, y: 13, width: 30, height: 3 });
}
