//! Mouse input: hovering and clicking the tab bar, scrolling the views,
//! placing the editor cursor, the run view's status toggles, and the exit
//! popup. Positions are compared as unbounded integers.
use vstd::prelude::*;
use crate::ui::app::{App, EditorMode, MemRegion, Tab};
use crate::ui::console::texts;
use crate::ui::editor::{self, Editor, Motion};
use crate::ui::keyboard::{sat_add, sat_sub, view_limit};
use crate::ui::layout::{self, centered_rect, editor_area, status_area, Rect};

verus! {

#[derive(Clone, Copy, Debug, PartialEq, Eq, Structural)]
pub enum MouseButton {
    Left,
    Right,
    Middle,
}

#[derive(Clone, Copy, Debug, PartialEq, Eq, Structural)]
pub enum MouseKind {
    Down(MouseButton),
    Up(MouseButton),
    Drag(MouseButton),
    Moved,
    ScrollDown,
    ScrollUp,
    ScrollLeft,
    ScrollRight,
}

/// A mouse event at a cell of the screen.
#[derive(Clone, Copy, Debug, PartialEq, Eq, Structural)]
pub struct MouseEvent {
    pub kind: MouseKind,
    pub column: u16,
    pub row: u16,
}

pub open spec fn int_min(a: int, b: int) -> int {
    if a <= b {
        a
    } else {
        b
    }
}

// ---------- exit popup ----------

/// Width of `[Exit]`, the gap, and `[Cancel]` on the popup's button line.
pub open spec fn exit_width() -> int {
    6
}

pub open spec fn button_gap() -> int {
    3
}

pub open spec fn cancel_width() -> int {
    8
}

/// The exit popup on the screen `area`.
pub open spec fn popup_of(area: Rect) -> Rect {
    layout::centred(area.width / 3, area.height / 4, area)
}

/// What a click does while the exit popup shows.
#[derive(Clone, Copy, Debug, PartialEq, Eq, Structural)]
pub enum PopupChoice {
    Stay,
    Close,
    Quit,
}

/// What event `me` on the screen `area` does to the exit popup: a left
/// click outside the popup's inside closes it; on `[Exit]` the application
/// quits; on `[Cancel]` the popup closes.
pub open spec fn popup_choice(me: MouseEvent, area: Rect) -> PopupChoice {
    let p = popup_of(area);
    if me.kind != MouseKind::Down(MouseButton::Left) {
        PopupChoice::Stay
    } else if me.column < p.x + 1 || me.column >= p.x + p.width - 1 || me.row < p.y + 1 || me.row
        >= p.y + p.height - 1 {
        PopupChoice::Close
    } else {
        let ix = me.column - (p.x + 1);
        let iy = me.row - (p.y + 1);
        let start = sat_sub(p.width - 2, exit_width() + button_gap() + cancel_width()) / 2;
        if iy != 3 {
            PopupChoice::Stay
        } else if start <= ix < start + exit_width() {
            PopupChoice::Quit
        } else if start + exit_width() + button_gap() <= ix < start + exit_width() + button_gap()
            + cancel_width() {
            PopupChoice::Close
        } else {
            PopupChoice::Stay
        }
    }
}

/// `a` after event `me` while the exit popup shows.
pub open spec fn popup_after(a: App, me: MouseEvent, area: Rect) -> App {
    match popup_choice(me, area) {
        PopupChoice::Stay => a,
        PopupChoice::Close => App { show_exit_popup: false, ..a },
        PopupChoice::Quit => App { should_quit: true, ..a },
    }
}

fn choose_in_popup(me: MouseEvent, area: Rect) -> (c: PopupChoice)
    requires
        layout::centre_fits(area.width / 3, area.height / 4, area),
    ensures
        c == popup_choice(me, area),
{
    let popup = centered_rect(area.width / 3, area.height / 4, area);
    if me.kind != MouseKind::Down(MouseButton::Left) {
        return PopupChoice::Stay;
    }
    let col = me.column as u32;
    let row = me.row as u32;
    let (px, py, pw, ph) = (popup.x as u32, popup.y as u32, popup.width as u32, popup.height as u32);
    if col < px + 1 || col + 1 >= px + pw || row < py + 1 || row + 1 >= py + ph {
        return PopupChoice::Close;
    }
    let inner_x = col - (px + 1);
    let inner_y = row - (py + 1);
    if inner_y != 3 {
        return PopupChoice::Stay;
    }
    let line_width: u32 = 6 + 3 + 8;
    let start = (pw - 2).saturating_sub(line_width) / 2;
    if inner_x >= start && inner_x < start + 6 {
        PopupChoice::Quit
    } else if inner_x >= start + 6 + 3 && inner_x < start + 6 + 3 + 8 {
        PopupChoice::Close
    } else {
        PopupChoice::Stay
    }
}

/// Handles event `me` on the screen `area` while the exit popup shows.
pub fn handle_exit_popup_mouse(app: &mut App, me: MouseEvent, area: Rect)
    requires
        layout::centre_fits(area.width / 3, area.height / 4, area),
    ensures
        *final(app) == popup_after(*old(app), me, area),
{
    match choose_in_popup(me, area) {
        PopupChoice::Stay => {},
        PopupChoice::Close => {
            app.show_exit_popup = false;
        },
        PopupChoice::Quit => {
            app.should_quit = true;
        },
    }
}

// ---------- tab bar ----------

/// The tab whose title lies at column `x` of the tab bar
/// (`Editor │ Run │ Docs`).
pub open spec fn tab_at(x: int) -> Option<Tab> {
    if 0 <= x < 6 {
        Some(Tab::Editor)
    } else if 11 <= x < 14 {
        Some(Tab::Run)
    } else if 19 <= x < 23 {
        Some(Tab::Docs)
    } else {
        None
    }
}

/// The tab title under event `me` on the screen `area`, if any.
pub open spec fn hover_target(me: MouseEvent, area: Rect) -> Option<Tab> {
    if me.row == area.y + 1 {
        tab_at(sat_sub(me.column as int, area.x + 1))
    } else {
        None
    }
}

/// `a` with the pointer position recorded and the tab under the pointer
/// hovered; a left click on a tab title switches to it in command mode.
pub open spec fn hovered(a: &App, me: MouseEvent, area: Rect) -> App {
    let t = hover_target(me, area);
    let base = App { mouse_x: me.column, mouse_y: me.row, hover_tab: t, ..*a };
    match t {
        Some(tab) => if me.kind == MouseKind::Down(MouseButton::Left) {
            App { tab, mode: EditorMode::Command, ..base }
        } else {
            base
        },
        None => base,
    }
}

/// The title shown for `tab` in the tab bar.
pub open spec fn tab_title(tab: Tab) -> Seq<char> {
    match tab {
        Tab::Editor => "Editor"@,
        Tab::Run => "Run"@,
        Tab::Docs => "Docs"@,
    }
}

/// The width the tab bar counts for the divider between two titles: the
/// length in bytes of ` │ `.
pub open spec fn divider_width() -> int {
    vstd::utf8::encode_utf8(" │ "@).len() as int
}

/// Where the title of `tab` starts in the tab bar: the titles before it,
/// each followed by a divider.
pub open spec fn title_start(tab: Tab) -> int {
    match tab {
        Tab::Editor => 0,
        Tab::Run => tab_title(Tab::Editor).len() + divider_width(),
        Tab::Docs => tab_title(Tab::Editor).len() + divider_width() + tab_title(Tab::Run).len()
            + divider_width(),
    }
}

/// The tab bar maps each offset on a title to that title's tab, and every
/// other offset to none: the three titles `Editor`, `Run` and `Docs` lie in
/// that order, divided by ` │ `.
pub proof fn lemma_tab_at_follows_titles(x: int, tab: Tab)
    ensures
        tab_at(x) == Some(tab) <==> title_start(tab) <= x < title_start(tab) + tab_title(tab).len(),
{
    reveal_strlit("Editor");
    reveal_strlit("Run");
    reveal_strlit("Docs");
    reveal_strlit(" │ ");
    let d = " │ "@;
    assert(d.len() == 3 && d[0] == ' ' && d[1] == '│' && d[2] == ' ');
    reveal_with_fuel(vstd::utf8::encode_utf8, 4);
    assert(d.drop_first().drop_first().drop_first().len() == 0);
    assert(vstd::utf8::encode_scalar(d[0] as u32).len() == 1);
    assert(('│' as u32) == 0x2502);
    assert(vstd::utf8::encode_scalar(d[1] as u32).len() == 3);
    assert(vstd::utf8::encode_scalar(d[2] as u32).len() == 1);
    assert(divider_width() == 5);
}

/// A left click on a title in the tab bar (the row below the screen's top
/// border) hovers that title's tab and switches to it, whatever tab was
/// shown: each of the three titles opens its own tab (the run and docs tabs
/// in command mode).
pub proof fn lemma_click_on_title_opens_its_tab(
    a: App,
    b: App,
    me: MouseEvent,
    area: Rect,
    ea: Rect,
    st: Rect,
    tab: Tab,
)
    requires
        mouse_effect(&a, &b, me, area, ea, st),
        !a.show_exit_popup,
        me.kind == MouseKind::Down(MouseButton::Left),
        me.row == area.y + 1,
        me.column >= area.x + 1,
        title_start(tab) <= me.column - (area.x + 1) < title_start(tab) + tab_title(tab).len(),
    ensures
        b.tab == tab,
        b.hover_tab == Some(tab),
        tab != Tab::Editor ==> b.mode == EditorMode::Command,
{
    lemma_tab_at_follows_titles(me.column - (area.x + 1), tab);
    let h = hovered(&a, me, area);
    assert(hover_target(me, area) == Some(tab));
    assert(h.tab == tab && h.hover_tab == Some(tab));
    reveal(status_choice_in);
}

/// Turning the wheel on the docs tab scrolls the page one line: down adds
/// one to the scroll, up takes one away unless it is already at the top.
/// Nothing else but the pointer position and hover changes.
pub proof fn lemma_wheel_scrolls_docs(
    a: App,
    b: App,
    me: MouseEvent,
    area: Rect,
    ea: Rect,
    st: Rect,
)
    requires
        mouse_effect(&a, &b, me, area, ea, st),
        !a.show_exit_popup,
        a.tab == Tab::Docs,
        me.kind == MouseKind::ScrollDown || me.kind == MouseKind::ScrollUp,
        a.docs_scroll < usize::MAX,
    ensures
        me.kind == MouseKind::ScrollDown ==> b.docs_scroll == a.docs_scroll + 1,
        me.kind == MouseKind::ScrollUp ==> b.docs_scroll == if a.docs_scroll == 0 {
            0
        } else {
            a.docs_scroll - 1
        },
        b.tab == a.tab,
        b.editor == a.editor,
        b.regs_scroll == a.regs_scroll,
        b.mem_view_addr == a.mem_view_addr,
{
}

/// Turning the wheel on the run tab while it shows the registers scrolls
/// them one line: down adds one (stopping at the largest count), up takes
/// one away unless already at the top. The memory view does not move.
pub proof fn lemma_wheel_scrolls_registers(
    a: App,
    b: App,
    me: MouseEvent,
    area: Rect,
    ea: Rect,
    st: Rect,
)
    requires
        mouse_effect(&a, &b, me, area, ea, st),
        !a.show_exit_popup,
        a.tab == Tab::Run,
        a.show_registers,
        me.kind == MouseKind::ScrollDown || me.kind == MouseKind::ScrollUp,
    ensures
        me.kind == MouseKind::ScrollDown ==> b.regs_scroll == if a.regs_scroll == usize::MAX {
            usize::MAX
        } else {
            (a.regs_scroll + 1) as usize
        },
        me.kind == MouseKind::ScrollUp ==> b.regs_scroll == if a.regs_scroll == 0 {
            0
        } else {
            (a.regs_scroll - 1) as usize
        },
        b.mem_view_addr == a.mem_view_addr,
        b.docs_scroll == a.docs_scroll,
{
}

/// A left click inside the border of the editor's text area `ea`, while all
/// lines fit in it, puts the cursor on the line and column clicked, counted
/// from the area's inner top-left corner (past the last line it goes to the
/// last line, past the end of a line to its end), anchors the selection
/// there, and enters insert mode.
pub proof fn lemma_click_places_cursor(
    a: App,
    b: App,
    me: MouseEvent,
    area: Rect,
    ea: Rect,
    st: Rect,
)
    requires
        mouse_effect(&a, &b, me, area, ea, st),
        !a.show_exit_popup,
        a.tab == Tab::Editor,
        me.kind == MouseKind::Down(MouseButton::Left),
        me.row != area.y + 1,
        a.editor.lines@.len() >= 1,
        a.editor.lines@.len() + 2 <= ea.height,
        ea.x + 1 <= me.column < ea.x + ea.width - 1,
        ea.y + 1 <= me.row < ea.y + ea.height - 1,
    ensures
        ({
            let ls = texts(a.editor.lines@);
            let row = me.row - (ea.y + 1);
            let r = if row < ls.len() {
                row
            } else {
                ls.len() - 1
            };
            let col = me.column - (ea.x + 1);
            let c = if col <= ls[r].len() {
                col
            } else {
                ls[r].len() as int
            };
            &&& b.editor.cursor_row == r
            &&& b.editor.cursor_col == c
            &&& b.editor.selection_anchor == Some((r as usize, c as usize))
            &&& b.editor.lines == a.editor.lines
            &&& b.mode == EditorMode::Insert
            &&& b.tab == Tab::Editor
        }),
{
    reveal(target_in);
}

/// While the exit popup shows, a mouse event only records the pointer and
/// may close the popup or ask to quit, never both: only a left click does
/// either, a left click outside the popup's border closes it, and anything
/// else about the application stays as it was.
pub proof fn lemma_popup_mouse(a: App, b: App, me: MouseEvent, area: Rect, ea: Rect, st: Rect)
    requires
        mouse_effect(&a, &b, me, area, ea, st),
        a.show_exit_popup,
    ensures
        b == (App {
            mouse_x: me.column,
            mouse_y: me.row,
            show_exit_popup: b.show_exit_popup,
            should_quit: b.should_quit,
            ..a
        }),
        !b.show_exit_popup ==> b.should_quit == a.should_quit,
        b.should_quit != a.should_quit ==> b.show_exit_popup,
        me.kind != MouseKind::Down(MouseButton::Left) ==> b.show_exit_popup && b.should_quit
            == a.should_quit,
        ({
            let p = popup_of(area);
            (me.kind == MouseKind::Down(MouseButton::Left) && !(p.x + 1 <= me.column < p.x + p.width
                - 1 && p.y + 1 <= me.row < p.y + p.height - 1)) ==> !b.show_exit_popup
        }),
{
}

fn tab_hit(x: u32) -> (t: Option<Tab>)
    ensures
        t == tab_at(x as int),
{
    if x < 6 {
        Some(Tab::Editor)
    } else if 11 <= x && x < 14 {
        Some(Tab::Run)
    } else if 19 <= x && x < 23 {
        Some(Tab::Docs)
    } else {
        None
    }
}

fn hover_target_of(me: MouseEvent, area: Rect) -> (t: Option<Tab>)
    ensures
        t == hover_target(me, area),
{
    if me.row as u32 == area.y as u32 + 1 {
        tab_hit((me.column as u32).saturating_sub(area.x as u32 + 1))
    } else {
        None
    }
}

fn hover(app: &mut App, me: MouseEvent, area: Rect)
    ensures
        *final(app) == hovered(old(app), me, area),
{
    let t = hover_target_of(me, area);
    app.mouse_x = me.column;
    app.mouse_y = me.row;
    app.hover_tab = t;
    match t {
        Some(tab) => {
            if me.kind == MouseKind::Down(MouseButton::Left) {
                app.tab = tab;
                app.mode = EditorMode::Command;
            }
        },
        None => {},
    }
}

// ---------- scrolling ----------

/// `a` after the wheel turns on the run view: the registers scroll, or the
/// memory view moves by one view, within the memory.
pub open spec fn run_scrolled(a: &App, up: bool) -> App {
    if a.show_registers {
        App {
            regs_scroll: if up {
                sat_sub(a.regs_scroll as int, 1) as usize
            } else {
                sat_add(a.regs_scroll as int, 1, usize::MAX as int) as usize
            },
            ..*a
        }
    } else if up {
        App {
            mem_view_addr: sat_sub(a.mem_view_addr as int, a.mem_view_bytes as int) as u32,
            mem_region: MemRegion::Custom,
            ..*a
        }
    } else {
        let max = view_limit(a);
        let next = sat_add(a.mem_view_addr as int, a.mem_view_bytes as int, u32::MAX as int);
        App {
            mem_view_addr: if a.mem_view_addr < max {
                int_min(next, max as int) as u32
            } else {
                a.mem_view_addr
            },
            mem_region: MemRegion::Custom,
            ..*a
        }
    }
}

/// `b` is `a` after the wheel turns up or down.
pub open spec fn scrolled(a: &App, b: &App, up: bool) -> bool {
    match a.tab {
        Tab::Editor => editor::cursor_moved(&a.editor, &b.editor, wheel_motion(up)) && *b == App {
            editor: b.editor,
            ..*a
        },
        Tab::Run => *b == run_scrolled(a, up),
        Tab::Docs => *b == App { docs_scroll: docs_after_wheel(a.docs_scroll, up), ..*a },
    }
}

#[verifier::spinoff_prover]
#[verifier::rlimit(60)]
fn scroll_run(app: &mut App, up: bool)
    ensures
        *final(app) == run_scrolled(old(app), up),
{
    if app.show_registers {
        app.regs_scroll = if up {
            app.regs_scroll.saturating_sub(1)
        } else {
            app.regs_scroll.saturating_add(1)
        };
    } else if up {
        app.mem_view_addr = app.mem_view_addr.saturating_sub(app.mem_view_bytes);
        app.mem_region = MemRegion::Custom;
    } else {
        let max = app.mem_size.saturating_sub(app.mem_view_bytes as usize) as u32;
        let addr = if app.mem_view_addr < max {
            let next = app.mem_view_addr.saturating_add(app.mem_view_bytes);
            if next <= max {
                next
            } else {
                max
            }
        } else {
            app.mem_view_addr
        };
        app.mem_view_addr = addr;
        app.mem_region = MemRegion::Custom;
    }
}

/// The cursor move a turn of the wheel makes in the editor.
pub open spec fn wheel_motion(up: bool) -> Motion {
    if up {
        Motion::Up
    } else {
        Motion::Down
    }
}

/// The docs scroll after a turn of the wheel.
pub open spec fn docs_after_wheel(scroll: usize, up: bool) -> usize {
    if up {
        sat_sub(scroll as int, 1) as usize
    } else {
        (scroll + 1) as usize
    }
}

fn scroll_editor(app: &mut App, up: bool)
    ensures
        editor::cursor_moved(&old(app).editor, &final(app).editor, wheel_motion(up)),
        *final(app) == (App { editor: final(app).editor, ..*old(app) }),
{
    if up {
        app.editor.move_up();
    } else {
        app.editor.move_down();
    }
}

fn scroll_docs(app: &mut App, up: bool)
    requires
        !up ==> old(app).docs_scroll < usize::MAX,
    ensures
        *final(app) == (App { docs_scroll: docs_after_wheel(old(app).docs_scroll, up), ..*old(app) }),
{
    app.docs_scroll = if up {
        app.docs_scroll.saturating_sub(1)
    } else {
        app.docs_scroll + 1
    };
}

fn scroll(app: &mut App, up: bool)
    requires
        !up && old(app).tab == Tab::Docs ==> old(app).docs_scroll < usize::MAX,
    ensures
        scrolled(old(app), final(app), up),
{
    match app.tab {
        Tab::Editor => scroll_editor(app, up),
        Tab::Run => scroll_run(app, up),
        Tab::Docs => scroll_docs(app, up),
    }
}

// ---------- the editor ----------

/// The first line shown in an editor view `visible` lines tall: the view
/// follows the cursor, keeping it in the middle where it can.
pub open spec fn first_row(e: &Editor, visible: int) -> int {
    let len = e.lines@.len() as int;
    if len > visible {
        if e.cursor_row <= visible / 2 {
            0
        } else if e.cursor_row >= sat_sub(len, visible / 2) {
            sat_sub(len, visible)
        } else {
            e.cursor_row - visible / 2
        }
    } else {
        0
    }
}

/// Whether the cell `(x, y)` lies inside the border of `r`.
pub open spec fn inside(r: Rect, x: int, y: int) -> bool {
    x >= r.x + 1 && x < r.x + r.width - 1 && y >= r.y + 1 && y < r.y + r.height - 1
}

/// The line and column a pointer inside the editor area `ea` points at.
pub open spec fn pointed(e: &Editor, ea: Rect, me: MouseEvent) -> (int, int) {
    let visible = layout::gap(ea.height, 2);
    let start = first_row(e, visible);
    let row = int_min(start + (me.row - (ea.y + 1)), sat_sub(e.lines@.len() as int, 1));
    let col = int_min(sat_sub(me.column as int, ea.x + 1), editor::line_len(texts(e.lines@), row));
    (row, col)
}

/// Where a left click or drag lands in the editor text area `ea`.
#[verifier::opaque]
pub open spec fn target_in(e: &Editor, ea: Rect, me: MouseEvent) -> Option<(int, int)> {
    if inside(ea, me.column as int, me.row as int) {
        Some(pointed(e, ea, me))
    } else {
        None
    }
}

/// `a` after a left click in the editor tab landing on `target`.
pub open spec fn editor_pressed(a: &App, target: Option<(int, int)>) -> App {
    match target {
        Some((row, col)) => App {
            editor: Editor {
                cursor_row: row as usize,
                cursor_col: col as usize,
                selection_anchor: Some((row as usize, col as usize)),
                ..a.editor
            },
            mode: EditorMode::Insert,
            ..*a
        },
        None => if a.mode == EditorMode::Insert {
            App { mode: EditorMode::Command, ..*a }
        } else {
            *a
        },
    }
}

/// `a` after a left drag in the editor tab landing on `target`.
pub open spec fn editor_dragged(a: &App, target: Option<(int, int)>) -> App {
    match target {
        Some((row, col)) => App {
            editor: Editor { cursor_row: row as usize, cursor_col: col as usize, ..a.editor },
            ..*a
        },
        None => *a,
    }
}

/// `a` after the left button is released in the editor tab.
pub open spec fn editor_released(a: &App) -> App {
    if a.editor.selection_anchor == Some((a.editor.cursor_row, a.editor.cursor_col)) {
        App { editor: Editor { selection_anchor: None, ..a.editor }, ..*a }
    } else {
        *a
    }
}

/// `a` after a left click, drag or release in the editor tab whose text
/// area is `ea`: a click inside the text puts the cursor and the selection
/// anchor there and switches to insert mode (outside it, insert mode ends);
/// a drag moves the cursor; a release where the selection started drops it.
pub open spec fn editor_clicked(a: &App, me: MouseEvent, ea: Rect) -> App {
    match me.kind {
        MouseKind::Down(MouseButton::Left) => editor_pressed(a, target_in(&a.editor, ea, me)),
        MouseKind::Drag(MouseButton::Left) => editor_dragged(a, target_in(&a.editor, ea, me)),
        MouseKind::Up(MouseButton::Left) => editor_released(a),
        _ => *a,
    }
}

/// The first line shown in an editor view `visible` lines tall.
pub fn first_visible_row(e: &Editor, visible: usize) -> (s: usize)
    ensures
        s as int == first_row(e, visible as int),
{
    let len = e.lines.len();
    if len > visible {
        if e.cursor_row <= visible / 2 {
            0
        } else if e.cursor_row >= len.saturating_sub(visible / 2) {
            len.saturating_sub(visible)
        } else {
            e.cursor_row - visible / 2
        }
    } else {
        0
    }
}

/// Where a left click or drag at `me` lands in the editor text area `ea`.
pub fn target_in_area(e: &Editor, ea: Rect, me: MouseEvent) -> (t: Option<(usize, usize)>)
    ensures
        match t {
            Some((r, c)) => target_in(e, ea, me) == Some((r as int, c as int)),
            None => target_in(e, ea, me) is None,
        },
{
    proof {
        reveal(target_in);
    }
    let (ex, ey, ew, eh) = (ea.x as u32, ea.y as u32, ea.width as u32, ea.height as u32);
    let (col, row) = (me.column as u32, me.row as u32);
    if !(col >= ex + 1 && col + 1 < ex + ew && row >= ey + 1 && row + 1 < ey + eh) {
        return None;
    }
    let visible = ea.height.saturating_sub(2) as usize;
    let start = first_visible_row(e, visible);
    let y = (row - (ey + 1)) as usize;
    let last = e.lines.len().saturating_sub(1);
    let r = if start.saturating_add(y) <= last {
        start + y
    } else {
        last
    };
    let x = col.saturating_sub(ex + 1) as usize;
    let len = if r < e.lines.len() {
        Editor::char_count(e.lines[r].as_str())
    } else {
        0
    };
    let c = if x <= len {
        x
    } else {
        len
    };
    Some((r, c))
}

fn same_spot(anchor: Option<(usize, usize)>, row: usize, col: usize) -> (b: bool)
    ensures
        b == (anchor == Some((row, col))),
{
    match anchor {
        Some((r, c)) => r == row && c == col,
        None => false,
    }
}

fn put_anchored_cursor(e: &mut Editor, r: usize, c: usize)
    ensures
        *final(e) == (Editor {
            cursor_row: r,
            cursor_col: c,
            selection_anchor: Some((r, c)),
            ..*old(e)
        }),
{
    e.cursor_row = r;
    e.cursor_col = c;
    e.selection_anchor = Some((r, c));
}

#[verifier::spinoff_prover]
#[verifier::rlimit(60)]
fn press_editor(app: &mut App, me: MouseEvent, ea: Rect)
    ensures
        *final(app) == editor_pressed(old(app), target_in(&old(app).editor, ea, me)),
{
    match target_in_area(&app.editor, ea, me) {
        Some((r, c)) => {
            put_anchored_cursor(&mut app.editor, r, c);
            app.mode = EditorMode::Insert;
        },
        None => {
            if app.mode == EditorMode::Insert {
                app.mode = EditorMode::Command;
            }
        },
    }
}

fn drag_editor(app: &mut App, me: MouseEvent, ea: Rect)
    ensures
        *final(app) == editor_dragged(old(app), target_in(&old(app).editor, ea, me)),
{
    match target_in_area(&app.editor, ea, me) {
        Some((r, c)) => {
            app.editor.cursor_row = r;
            app.editor.cursor_col = c;
        },
        None => {},
    }
}

fn release_editor(app: &mut App)
    ensures
        *final(app) == editor_released(old(app)),
{
    if same_spot(app.editor.selection_anchor, app.editor.cursor_row, app.editor.cursor_col) {
        app.editor.selection_anchor = None;
    }
}

fn editor_mouse(app: &mut App, me: MouseEvent, ea: Rect)
    ensures
        *final(app) == editor_clicked(old(app), me, ea),
{
    match me.kind {
        MouseKind::Down(MouseButton::Left) => press_editor(app, me, ea),
        MouseKind::Drag(MouseButton::Left) => drag_editor(app, me, ea),
        MouseKind::Up(MouseButton::Left) => release_editor(app),
        _ => {},
    }
}

// ---------- the run view's status line ----------

/// A toggle on the run view's status line.
#[derive(Clone, Copy, Debug, PartialEq, Eq, Structural)]
pub enum StatusToggle {
    Nothing,
    View,
    Format,
    Bytes,
    Region,
    State,
}

/// Width of the view label (`REGS` or `RAM`).
pub open spec fn view_width(a: &App) -> int {
    if a.show_registers {
        4
    } else {
        3
    }
}

/// Width of the region label (`DATA`, `STACK` or `ADDR`).
pub open spec fn region_width(a: &App) -> int {
    match a.mem_region {
        MemRegion::Data => 4,
        MemRegion::Stack => 5,
        MemRegion::Custom => 4,
    }
}

/// Width of the state label (`RUN` or `PAUSE`).
pub open spec fn state_width(a: &App) -> int {
    if a.is_running {
        3
    } else {
        5
    }
}

/// The toggle under event `me` on the status line of the run view, `st`.
/// The line reads `View [..]  Format [..]  Bytes [..]  Region [..]  State
/// [..]`, each label in brackets, the bytes and region toggles only while
/// memory is shown; only the row below the line's top border reacts.
#[verifier::opaque]
pub open spec fn status_choice_in(a: &App, st: Rect, me: MouseEvent) -> StatusToggle {
    let col = me.column as int;
    let view_start = st.x + 1 + 5;
    let view_end = view_start + view_width(a) + 2;
    let fmt_start = view_end + 9;
    let fmt_end = fmt_start + 3 + 2;
    let bytes_start = fmt_end + 8;
    let bytes_end = bytes_start + 2 + 2;
    let region_start = bytes_end + 9;
    let region_end = region_start + region_width(a) + 2;
    let state_start = if a.show_registers {
        fmt_end + 8
    } else {
        region_end + 8
    };
    let state_end = state_start + state_width(a) + 2;
    if me.row != st.y + 1 {
        StatusToggle::Nothing
    } else if view_start <= col < view_end {
        StatusToggle::View
    } else if fmt_start <= col < fmt_end {
        StatusToggle::Format
    } else if !a.show_registers && bytes_start <= col < bytes_end {
        StatusToggle::Bytes
    } else if !a.show_registers && region_start <= col < region_end {
        StatusToggle::Region
    } else if state_start <= col < state_end {
        StatusToggle::State
    } else {
        StatusToggle::Nothing
    }
}

/// `a` after a left click on the run view's status line: the view switches
/// between registers and memory, the number format between hex and
/// decimal, the memory view width cycles 4, 2, 1 bytes, the region cycles
/// data, stack (at the stack pointer), custom, data (at the data
/// address), and the state between running and paused (a faulted program
/// does not run). `st` is the status line.
pub open spec fn status_clicked(a: &App, me: MouseEvent, st: Rect) -> App {
    match status_choice_in(a, st, me) {
        StatusToggle::Nothing => *a,
        StatusToggle::View => App { show_registers: !a.show_registers, ..*a },
        StatusToggle::Format => App { show_hex: !a.show_hex, ..*a },
        StatusToggle::Bytes => App {
            mem_view_bytes: if a.mem_view_bytes == 4 {
                2
            } else if a.mem_view_bytes == 2 {
                1
            } else {
                4
            },
            ..*a
        },
        StatusToggle::Region => match a.mem_region {
            MemRegion::Data => App { mem_view_addr: a.cpu.x@[2], mem_region: MemRegion::Stack, ..*a },
            MemRegion::Stack => App { mem_region: MemRegion::Custom, ..*a },
            MemRegion::Custom => App { mem_view_addr: a.data_base, mem_region: MemRegion::Data, ..*a },
        },
        StatusToggle::State => App { is_running: !a.is_running && !a.faulted, ..*a },
    }
}

/// The toggle under event `me` on the status line `st`.
pub fn status_toggle_in(app: &App, st: Rect, me: MouseEvent) -> (t: StatusToggle)
    ensures
        t == status_choice_in(app, st, me),
{
    proof {
        reveal(status_choice_in);
    }
    if me.row as u32 != st.y as u32 + 1 {
        return StatusToggle::Nothing;
    }
    let col = me.column as u32;
    let view_w: u32 = if app.show_registers {
        4
    } else {
        3
    };
    let region_w: u32 = match app.mem_region {
        MemRegion::Data => 4,
        MemRegion::Stack => 5,
        MemRegion::Custom => 4,
    };
    let state_w: u32 = if app.is_running {
        3
    } else {
        5
    };
    let view_start = st.x as u32 + 1 + 5;
    let view_end = view_start + view_w + 2;
    let fmt_start = view_end + 9;
    let fmt_end = fmt_start + 3 + 2;
    let bytes_start = fmt_end + 8;
    let bytes_end = bytes_start + 2 + 2;
    let region_start = bytes_end + 9;
    let region_end = region_start + region_w + 2;
    let state_start = if app.show_registers {
        fmt_end + 8
    } else {
        region_end + 8
    };
    let state_end = state_start + state_w + 2;
    if view_start <= col && col < view_end {
        StatusToggle::View
    } else if fmt_start <= col && col < fmt_end {
        StatusToggle::Format
    } else if !app.show_registers && bytes_start <= col && col < bytes_end {
        StatusToggle::Bytes
    } else if !app.show_registers && region_start <= col && col < region_end {
        StatusToggle::Region
    } else if state_start <= col && col < state_end {
        StatusToggle::State
    } else {
        StatusToggle::Nothing
    }
}

/// Handles a left click at `me` on the run view whose status line is `st`.
#[verifier::spinoff_prover]
#[verifier::rlimit(60)]
pub fn handle_status_click_in(app: &mut App, me: MouseEvent, st: Rect)
    ensures
        *final(app) == status_clicked(old(app), me, st),
{
    match status_toggle_in(app, st, me) {
        StatusToggle::Nothing => {},
        StatusToggle::View => {
            app.show_registers = !app.show_registers;
        },
        StatusToggle::Format => {
            app.show_hex = !app.show_hex;
        },
        StatusToggle::Bytes => {
            app.mem_view_bytes = if app.mem_view_bytes == 4 {
                2
            } else if app.mem_view_bytes == 2 {
                1
            } else {
                4
            };
        },
        StatusToggle::Region => {
            cycle_region(app);
        },
        StatusToggle::State => {
            app.is_running = !app.is_running && !app.faulted;
        },
    }
}

/// Handles a left click at `me` on the run view of the screen `area`. The
/// status line is the second part of the run body's split, the body the
/// middle part of the screen's split (see [`layout::status_area_of`]); the
/// click acts as on that line.
pub fn handle_run_status_click(app: &mut App, me: MouseEvent, area: Rect)
    ensures
        exists|st: Rect|
            #[trigger] layout::status_area_of(area, st) && *final(app) == status_clicked(
                old(app),
                me,
                st,
            ),
{
    let st = status_area(area);
    handle_status_click_in(app, me, st);
    assert(layout::status_area_of(area, st));
}

fn cycle_region(app: &mut App)
    ensures
        *final(app) == match old(app).mem_region {
            MemRegion::Data => (App {
                mem_view_addr: old(app).cpu.x@[2],
                mem_region: MemRegion::Stack,
                ..*old(app)
            }),
            MemRegion::Stack => (App { mem_region: MemRegion::Custom, ..*old(app) }),
            MemRegion::Custom => (App {
                mem_view_addr: old(app).data_base,
                mem_region: MemRegion::Data,
                ..*old(app)
            }),
        },
{
    match app.mem_region {
        MemRegion::Data => {
            app.mem_view_addr = app.cpu.x[2];
            app.mem_region = MemRegion::Stack;
        },
        MemRegion::Stack => {
            app.mem_region = MemRegion::Custom;
        },
        MemRegion::Custom => {
            app.mem_view_addr = app.data_base;
            app.mem_region = MemRegion::Data;
        },
    }
}

// ---------- any mouse event ----------

/// `a` after a non-wheel event once the tab bar has seen it: editor clicks
/// on the editor tab (text area `ea`), status toggles on the run tab
/// (status line `st`).
pub open spec fn after_click(a: &App, me: MouseEvent, ea: Rect, st: Rect) -> App {
    if a.tab == Tab::Editor {
        editor_clicked(a, me, ea)
    } else if a.tab == Tab::Run && me.kind == MouseKind::Down(MouseButton::Left) {
        status_clicked(a, me, st)
    } else {
        *a
    }
}

/// `b` is what mouse event `me` on the screen `area`, with editor text area
/// `ea` and run status line `st`, makes of `a`. While the exit popup shows,
/// only the popup reacts; otherwise the tab bar, then the wheel or the click
/// in the current tab.
pub open spec fn mouse_effect(a: &App, b: &App, me: MouseEvent, area: Rect, ea: Rect, st: Rect) -> bool {
    if a.show_exit_popup {
        *b == popup_after(App { mouse_x: me.column, mouse_y: me.row, ..*a }, me, area)
    } else {
        let h = hovered(a, me, area);
        match me.kind {
            MouseKind::ScrollUp => scrolled(&h, b, true),
            MouseKind::ScrollDown => scrolled(&h, b, false),
            _ => *b == after_click(&h, me, ea, st),
        }
    }
}

/// Whether event `me` on the screen `area` stays within the integer ranges
/// for `a` (the popup fits on the screen; the docs scroll has room).
pub open spec fn mouse_in_range(a: &App, me: MouseEvent, area: Rect) -> bool {
    &&& a.show_exit_popup ==> layout::centre_fits(area.width / 3, area.height / 4, area)
    &&& (!a.show_exit_popup && me.kind == MouseKind::ScrollDown && a.tab == Tab::Docs) ==> a.docs_scroll
        < usize::MAX
}

/// Handles mouse event `me` on the screen `area`, whose editor text area is
/// `ea` and whose run status line is `st`.
pub fn handle_mouse_in(app: &mut App, me: MouseEvent, area: Rect, ea: Rect, st: Rect)
    requires
        mouse_in_range(old(app), me, area),
    ensures
        mouse_effect(old(app), final(app), me, area, ea, st),
{
    if app.show_exit_popup {
        app.mouse_x = me.column;
        app.mouse_y = me.row;
        handle_exit_popup_mouse(app, me, area);
        return;
    }
    hover(app, me, area);
    match me.kind {
        MouseKind::ScrollUp => scroll(app, true),
        MouseKind::ScrollDown => scroll(app, false),
        _ => {
            if app.tab == Tab::Editor {
                editor_mouse(app, me, ea);
            } else if app.tab == Tab::Run && me.kind == MouseKind::Down(MouseButton::Left) {
                handle_status_click_in(app, me, st);
            }
        },
    }
}

/// Handles mouse event `me` on the screen `area`. The editor text area and
/// the run status line are the parts of the screen layout that
/// [`layout::editor_area_of`] and [`layout::status_area_of`] describe; the
/// event acts as on those.
pub fn handle_mouse(app: &mut App, me: MouseEvent, area: Rect)
    requires
        mouse_in_range(old(app), me, area),
    ensures
        exists|ea: Rect, st: Rect|
            #![trigger layout::editor_area_of(area, ea), layout::status_area_of(area, st)]
            layout::editor_area_of(area, ea) && layout::status_area_of(area, st) && mouse_effect(
                old(app),
                final(app),
                me,
                area,
                ea,
                st,
            ),
{
    let ea = editor_area(area);
    let st = status_area(area);
    handle_mouse_in(app, me, area, ea, st);
    assert(layout::editor_area_of(area, ea) && layout::status_area_of(area, st));
}

} // verus!
