//! Screen geometry: rectangles of terminal cells, the centred popup, and the
//! vertical splits the screen is laid out with.
use vstd::prelude::*;
use ratatui::layout::{Constraint as SplitRule, Direction, Layout, Rect as CellRect};

verus! {

/// A rectangle of terminal cells: its top-left corner and its size.
#[derive(Clone, Copy, Debug, PartialEq, Eq, Structural)]
pub struct Rect {
    pub x: u16,
    pub y: u16,
    pub width: u16,
    pub height: u16,
}

/// How tall one part of a vertical split should be.
#[derive(Clone, Copy, Debug, PartialEq, Eq, Structural)]
pub enum Constraint {
    /// Exactly this many rows.
    Length(u16),
    /// At least this many rows.
    Min(u16),
}

/// The rectangle at `(x, y)` of the given size, shrunk so that it ends
/// within the `u16` coordinate range.
pub open spec fn rect_at(x: u16, y: u16, width: u16, height: u16) -> Rect {
    Rect {
        x,
        y,
        width: if width > u16::MAX - x {
            (u16::MAX - x) as u16
        } else {
            width
        },
        height: if height > u16::MAX - y {
            (u16::MAX - y) as u16
        } else {
            height
        },
    }
}

/// The rectangle at `(x, y)` of the given size, shrunk so that it ends
/// within the `u16` coordinate range.
pub fn rect_new(x: u16, y: u16, width: u16, height: u16) -> (r: Rect)
    ensures
        r == rect_at(x, y, width, height),
{
    let max_width = u16::MAX - x;
    let max_height = u16::MAX - y;
    Rect {
        x,
        y,
        width: if width > max_width {
            max_width
        } else {
            width
        },
        height: if height > max_height {
            max_height
        } else {
            height
        },
    }
}

/// `a - b`, or 0 when `b` is larger.
pub open spec fn gap(a: u16, b: u16) -> int {
    if a >= b {
        a - b
    } else {
        0
    }
}

/// Whether a rectangle of the given size can be centred in `r` without
/// leaving the coordinate range.
pub open spec fn centre_fits(width: u16, height: u16, r: Rect) -> bool {
    r.x + gap(r.width, width) / 2 <= u16::MAX && r.y + gap(r.height, height) / 2 <= u16::MAX
}

/// The rectangle of the given size centred in `r`.
pub open spec fn centred(width: u16, height: u16, r: Rect) -> Rect {
    rect_at(
        (r.x + gap(r.width, width) / 2) as u16,
        (r.y + gap(r.height, height) / 2) as u16,
        width,
        height,
    )
}

/// The rectangle of the given size centred in `r`.
pub fn centered_rect(width: u16, height: u16, r: Rect) -> (c: Rect)
    requires
        centre_fits(width, height, r),
    ensures
        c == centred(width, height, r),
{
    rect_new(
        r.x + (r.width.saturating_sub(width)) / 2,
        r.y + (r.height.saturating_sub(height)) / 2,
        width,
        height,
    )
}

/// The last row below `r`, as the terminal counts it: `y + height`, capped
/// at the largest coordinate.
pub open spec fn bottom_of(r: Rect) -> int {
    if r.y + r.height > u16::MAX {
        u16::MAX as int
    } else {
        r.y + r.height
    }
}

/// `inner` spans the full width of `outer` and lies between its top and
/// bottom rows.
pub open spec fn within(inner: Rect, outer: Rect) -> bool {
    &&& inner.x == outer.x
    &&& inner.width == outer.width
    &&& outer.y <= inner.y
    &&& inner.y + inner.height <= bottom_of(outer)
}

/// How many rows a rule asks for: the exact length, or the least one.
pub open spec fn rule_size(c: Constraint) -> int {
    match c {
        Constraint::Length(n) => n as int,
        Constraint::Min(n) => n as int,
    }
}

/// The rows all the rules ask for together.
pub open spec fn rules_total(rules: Seq<Constraint>) -> int
    decreases rules.len(),
{
    if rules.len() == 0 {
        0
    } else {
        rules_total(rules.drop_last()) + rule_size(rules.last())
    }
}

/// How many of the rules are `Min` rules.
pub open spec fn min_count(rules: Seq<Constraint>) -> nat
    decreases rules.len(),
{
    if rules.len() == 0 {
        0
    } else {
        min_count(rules.drop_last()) + if rules.last() is Min {
            1nat
        } else {
            0nat
        }
    }
}

/// The parts lie within `area` and are stacked without gaps from its top:
/// the first starts at the area's top row and each next one where the one
/// before ends.
pub open spec fn stacked(area: Rect, parts: Seq<Rect>) -> bool {
    &&& forall|i: int| 0 <= i < parts.len() ==> within(#[trigger] parts[i], area)
    &&& parts.len() > 0 ==> parts[0].y == area.y
    &&& forall|i: int, j: int|
        0 <= i && j == i + 1 && j < parts.len() ==> #[trigger] parts[j].y == #[trigger] parts[i].y
            + parts[i].height
}

/// `parts` is how a vertical split of `area` by `rules` can come out: one
/// part per rule, stacked from the area's top; with a `Min` rule among them
/// the last part reaches the area's bottom; and with exactly one `Min` rule
/// and room for all the rows the rules ask for, every `Length` part has its
/// length exactly (the `Min` part then takes the rest).
pub open spec fn split_ok(area: Rect, rules: Seq<Constraint>, parts: Seq<Rect>) -> bool {
    &&& parts.len() == rules.len()
    &&& stacked(area, parts)
    &&& (min_count(rules) > 0 && parts.len() > 0) ==> parts.last().y + parts.last().height
        == bottom_of(area)
    &&& (min_count(rules) == 1 && rules_total(rules) <= bottom_of(area) - area.y) ==> forall|i: int|
        0 <= i < rules.len() && (#[trigger] rules[i]) is Length ==> parts[i].height == rule_size(
            rules[i],
        )
}

/// `r` is part `i` of some split of `area` by `rules` (see [`split_ok`]).
pub open spec fn split_part(area: Rect, rules: Seq<Constraint>, i: int, r: Rect) -> bool {
    exists|parts: Seq<Rect>| #[trigger] split_ok(area, rules, parts) && parts[i] == r
}

/// Splits `area` top to bottom by `rules`.
///
/// Trusted: wraps ratatui's `Layout::split` (vertical direction, no margin,
/// default flex `Start`, no spacing). It claims what holds of every optimum
/// the constraint solver can return:
/// - required constraints: one part per rule, each as wide as the area and
///   lying between its top and bottom;
/// - the first spacer is pinned empty at strength `REQUIRED - 1` and the
///   inner spacers at `REQUIRED / 10`, stronger than anything a rule can
///   gain (`Min` at `STRONG * 100`, `Length` at `STRONG * 10`), so the parts
///   are stacked from the top without gaps or overlaps;
/// - a `Min` part grows toward the whole area at `MEDIUM`, above the last
///   spacer's `MEDIUM / 10`, so with a `Min` rule the last part reaches the
///   bottom;
/// - with one `Min` rule and room for all rows asked for, every `Length`
///   rule is met exactly (breaking one costs `STRONG * 10` a row, more than
///   the `MEDIUM`-level growth it could buy).
/// Where the area is too small, which rules give way is a tie the solver
/// breaks in the iteration order of its hash maps; that is left unsaid, and
/// two calls with the same arguments may then differ.
#[verifier::external_body]
pub(crate) fn split_vertical(area: Rect, rules: &[Constraint]) -> (parts: Vec<Rect>)
    ensures
        split_ok(area, rules@, parts@),
{
    let rules: Vec<SplitRule> = rules.iter().map(|c| match c {
        Constraint::Length(n) => SplitRule::Length(*n),
        Constraint::Min(n) => SplitRule::Min(*n),
    }).collect();
    let cells = CellRect { x: area.x, y: area.y, width: area.width, height: area.height };
    let parts = Layout::default().direction(Direction::Vertical).constraints(rules).split(cells);
    parts.iter().map(|p| Rect { x: p.x, y: p.y, width: p.width, height: p.height }).collect()
}

/// The rules the screen is split by: tab bar, body, status bar.
pub open spec fn screen_rules() -> Seq<Constraint> {
    seq![Constraint::Length(3), Constraint::Min(5), Constraint::Length(1)]
}

/// The rules the editor tab's body is split by: header, text area.
pub open spec fn editor_rules() -> Seq<Constraint> {
    seq![Constraint::Length(5), Constraint::Min(3)]
}

/// The rules the run tab's body is split by: header, status line, views.
pub open spec fn run_rules() -> Seq<Constraint> {
    seq![Constraint::Length(3), Constraint::Length(4), Constraint::Min(0)]
}

/// `r` is the body of the screen `area`: the middle part of its split.
pub open spec fn body_of(area: Rect, r: Rect) -> bool {
    split_part(area, screen_rules(), 1, r)
}

/// `r` is the editor's text area on the screen `area`: the second part of
/// the split of the body.
pub open spec fn editor_area_of(area: Rect, r: Rect) -> bool {
    exists|b: Rect| #[trigger] body_of(area, b) && split_part(b, editor_rules(), 1, r)
}

/// `r` is the run view's status line on the screen `area`: the second part
/// of the split of the body.
pub open spec fn status_area_of(area: Rect, r: Rect) -> bool {
    exists|b: Rect| #[trigger] body_of(area, b) && split_part(b, run_rules(), 1, r)
}

/// On a screen at least nine rows tall the body is everything between the
/// three-row tab bar and the one-row status bar.
pub proof fn lemma_body_position(area: Rect, b: Rect)
    requires
        body_of(area, b),
        area.height >= 9,
        area.y + area.height <= u16::MAX,
    ensures
        b == (Rect {
            x: area.x,
            y: (area.y + 3) as u16,
            width: area.width,
            height: (area.height - 4) as u16,
        }),
{
    let rules = screen_rules();
    let ps = choose|ps: Seq<Rect>| #[trigger] split_ok(area, rules, ps) && ps[1] == b;
    reveal_with_fuel(rules_total, 4);
    reveal_with_fuel(min_count, 4);
    assert(rules.drop_last().drop_last().drop_last() =~= Seq::<Constraint>::empty());
    assert(rules_total(rules) == 9);
    assert(min_count(rules) == 1);
    assert(rules[0] is Length && rules[2] is Length);
    assert(ps[0].height == 3 && ps[2].height == 1);
    assert(ps[1].y == ps[0].y + ps[0].height);
    assert(ps[2].y == ps[1].y + ps[1].height);
    assert(within(ps[1], area));
}

/// On a screen at least eleven rows tall the run view's status line is the
/// four rows below the body's three-row header.
pub proof fn lemma_status_line_position(area: Rect, st: Rect)
    requires
        status_area_of(area, st),
        area.height >= 11,
        area.y + area.height <= u16::MAX,
    ensures
        st == (Rect { x: area.x, y: (area.y + 6) as u16, width: area.width, height: 4 }),
{
    let b = choose|b: Rect| #[trigger] body_of(area, b) && split_part(b, run_rules(), 1, st);
    lemma_body_position(area, b);
    let rules = run_rules();
    let ps = choose|ps: Seq<Rect>| #[trigger] split_ok(b, rules, ps) && ps[1] == st;
    reveal_with_fuel(rules_total, 4);
    reveal_with_fuel(min_count, 4);
    assert(rules.drop_last().drop_last().drop_last() =~= Seq::<Constraint>::empty());
    assert(rules_total(rules) == 7);
    assert(min_count(rules) == 1);
    assert(rules[0] is Length && rules[1] is Length);
    assert(ps[0].height == 3 && ps[1].height == 4);
    assert(ps[1].y == ps[0].y + ps[0].height);
    assert(within(ps[1], b));
}

/// On a screen at least twelve rows tall the editor's text area is the body
/// below its five-row header.
pub proof fn lemma_editor_area_position(area: Rect, ea: Rect)
    requires
        editor_area_of(area, ea),
        area.height >= 12,
        area.y + area.height <= u16::MAX,
    ensures
        ea == (Rect {
            x: area.x,
            y: (area.y + 8) as u16,
            width: area.width,
            height: (area.height - 9) as u16,
        }),
{
    let b = choose|b: Rect| #[trigger] body_of(area, b) && split_part(b, editor_rules(), 1, ea);
    lemma_body_position(area, b);
    let rules = editor_rules();
    let ps = choose|ps: Seq<Rect>| #[trigger] split_ok(b, rules, ps) && ps[1] == ea;
    reveal_with_fuel(rules_total, 3);
    reveal_with_fuel(min_count, 3);
    assert(rules.drop_last().drop_last() =~= Seq::<Constraint>::empty());
    assert(rules_total(rules) == 8);
    assert(min_count(rules) == 1);
    assert(rules[0] is Length);
    assert(ps[0].height == 5);
    assert(ps[1].y == ps[0].y + ps[0].height);
    assert(within(ps[1], b));
}

/// The body of the screen `area`: the middle of tab bar, body and status
/// bar.
pub fn body(area: Rect) -> (r: Rect)
    ensures
        body_of(area, r),
{
    let parts = split_vertical(
        area,
        &[Constraint::Length(3), Constraint::Min(5), Constraint::Length(1)],
    );
    assert(seq![Constraint::Length(3), Constraint::Min(5), Constraint::Length(1)] =~= screen_rules());
    assert(split_ok(area, screen_rules(), parts@));
    parts[1]
}

/// The editor's text area on the screen `area`: the body below the
/// five-row header.
pub fn editor_area(area: Rect) -> (r: Rect)
    ensures
        editor_area_of(area, r),
{
    let b = body(area);
    let parts = split_vertical(b, &[Constraint::Length(5), Constraint::Min(3)]);
    assert(seq![Constraint::Length(5), Constraint::Min(3)] =~= editor_rules());
    assert(split_ok(b, editor_rules(), parts@));
    assert(body_of(area, b));
    parts[1]
}

/// The run view's status line on the screen `area`: the four rows below
/// the three-row header of the body.
pub fn status_area(area: Rect) -> (r: Rect)
    ensures
        status_area_of(area, r),
{
    let b = body(area);
    let parts = split_vertical(b, &[Constraint::Length(3), Constraint::Length(4), Constraint::Min(0)]);
    assert(seq![Constraint::Length(3), Constraint::Length(4), Constraint::Min(0)] =~= run_rules());
    assert(split_ok(b, run_rules(), parts@));
    assert(body_of(area, b));
    parts[1]
}

} // verus!
