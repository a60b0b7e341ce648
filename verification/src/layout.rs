//! Placement of the panes and of the confirmation popup on screen. The split
//! of an area by percentages is ratatui's layout solver; this module decides
//! which splits to ask for and which parts to keep.
use vstd::prelude::*;
use ratatui::layout::{Constraint, Direction, Layout, Rect};

verus! {

/// A rectangle of terminal cells.
#[derive(Debug, Clone, Copy, PartialEq, Eq, Structural)]
pub struct Area {
    pub x: u16,
    pub y: u16,
    pub width: u16,
    pub height: u16,
}

/// The direction in which an area is split.
#[derive(Debug, Clone, Copy, PartialEq, Eq, Structural)]
pub enum Axis {
    Vertical,
    Horizontal,
}

/// Where `a` starts along `axis`.
pub open spec fn axis_start(a: Area, axis: Axis) -> int {
    match axis {
        Axis::Vertical => a.y as int,
        Axis::Horizontal => a.x as int,
    }
}

/// The length of `a` along `axis`.
pub open spec fn axis_len(a: Area, axis: Axis) -> int {
    match axis {
        Axis::Vertical => a.height as int,
        Axis::Horizontal => a.width as int,
    }
}

/// The length of `a` along `axis` that lies on the screen: its end is
/// clamped to the last cell coordinate, as ratatui's `Rect::right` and
/// `Rect::bottom` clamp it.
pub open spec fn axis_extent(a: Area, axis: Axis) -> int {
    let end = axis_start(a, axis) + axis_len(a, axis);
    (if end > u16::MAX as int {
        u16::MAX as int
    } else {
        end
    }) - axis_start(a, axis)
}

/// `b` keeps the position and size of `a` across `axis`.
pub open spec fn same_across(a: Area, b: Area, axis: Axis) -> bool {
    match axis {
        Axis::Vertical => b.x == a.x && b.width == a.width,
        Axis::Horizontal => b.y == a.y && b.height == a.height,
    }
}

/// The sum of the percentages.
pub open spec fn percent_total(p: Seq<u16>) -> int
    decreases p.len(),
{
    if p.len() == 0 {
        0
    } else {
        percent_total(p.drop_last()) + p.last()
    }
}

/// `a` and `b` differ by at most `d`.
pub open spec fn within(a: int, b: int, d: int) -> bool {
    a - d <= b <= a + d
}

/// The parts that ratatui's layout solver cuts `area` into along `axis`,
/// one per percentage constraint.
pub uninterp spec fn percentage_layout(area: Area, axis: Axis, percents: Seq<u16>) -> Seq<Area>;

/// Splits `area` along `axis` into one part per percentage.
///
/// Trusted: calls ratatui's `Layout::split` on a default layout (no margin,
/// no spacing, `Flex::Start`) with one `Constraint::Percentage` per entry,
/// the percentages adding up to at most 100. Then every percentage can be met
/// exactly and the solver's optimum is unique, so the parts are a function of
/// the arguments, named by `percentage_layout`. The contract claims what the
/// source of `Layout::split` shows for such a layout:
/// - one part per percentage, each keeping the area's position and size
///   across the axis;
/// - along the axis, the first part starts where the area does (the first
///   spacer is held empty) and each next part starts where the one before
///   ends (the spacers between parts are held empty);
/// - each part's length is its percentage of the area's on-screen length to
///   within one cell (each boundary is rounded to the nearest cell), and no
///   part reaches past the area's on-screen end.
///
/// The exact cell at which each boundary is rounded is left to the solver
/// and not stated.
#[verifier::external_body]
fn split_by_percentages(area: Area, axis: Axis, percents: &Vec<u16>) -> (parts: Vec<Area>)
    requires
        percent_total(percents@) <= 100,
    ensures
        parts@ == percentage_layout(area, axis, percents@),
        parts@.len() == percents@.len(),
        forall|i: int| 0 <= i < parts@.len() ==> same_across(area, #[trigger] parts@[i], axis),
        forall|i: int|
            0 <= i < parts@.len() ==> axis_start(area, axis) <= axis_start(#[trigger] parts@[i], axis)
                && axis_start(parts@[i], axis) + axis_len(parts@[i], axis) <= axis_start(area, axis)
                + axis_extent(area, axis),
        parts@.len() > 0 ==> axis_start(parts@[0], axis) == axis_start(area, axis),
        forall|i: int, j: int|
            0 <= i && j == i + 1 && j < parts@.len() ==> axis_start(#[trigger] parts@[j], axis)
                == axis_start(#[trigger] parts@[i], axis) + axis_len(parts@[i], axis),
        forall|i: int|
            0 <= i < parts@.len() ==> within(
                100 * axis_len(#[trigger] parts@[i], axis),
                axis_extent(area, axis) * percents@[i],
                100,
            ),
{
    let direction = match axis {
        Axis::Vertical => Direction::Vertical,
        Axis::Horizontal => Direction::Horizontal,
    };
    let constraints = percents.iter().map(|p| Constraint::Percentage(*p));
    let rect = Rect { x: area.x, y: area.y, width: area.width, height: area.height };
    let parts = Layout::default().direction(direction).constraints(constraints).split(rect);
    parts.iter().map(|r| Area { x: r.x, y: r.y, width: r.width, height: r.height }).collect()
}

/// The percentage of each side strip when the middle one takes `percent`.
pub open spec fn side_percent(percent: u16) -> u16 {
    ((100 - percent) / 2) as u16
}

/// The middle row of `r` when it is cut into rows of `side_percent`,
/// `percent_y` and `side_percent` percent.
pub open spec fn middle_row(percent_y: u16, r: Area) -> Area {
    let side = side_percent(percent_y);
    percentage_layout(r, Axis::Vertical, seq![side, percent_y, side])[1]
}

/// The area of `percent_x` by `percent_y` percent of `r` in its middle: the
/// middle column of the middle row.
pub open spec fn centered_rect_of(percent_x: u16, percent_y: u16, r: Area) -> Area {
    let side = side_percent(percent_x);
    percentage_layout(middle_row(percent_y, r), Axis::Horizontal, seq![side, percent_x, side])[1]
}

/// The three percentages of a centred split.
fn centred_percents(percent: u16) -> (p: Vec<u16>)
    requires
        percent <= 100,
    ensures
        p@ == seq![side_percent(percent), percent, side_percent(percent)],
        percent_total(p@) <= 100,
{
    let side = (100 - percent) / 2;
    let p = vec![side, percent, side];
    assert(p@ =~= seq![side, percent, side]);
    assert(percent_total(p@) == side + percent + side) by {
        reveal_with_fuel(percent_total, 4);
        assert(p@.drop_last() =~= seq![side, percent]);
        assert(p@.drop_last().drop_last() =~= seq![side]);
        assert(p@.drop_last().drop_last().drop_last() =~= Seq::<u16>::empty());
    }
    p
}

/// The area of `percent_x` by `percent_y` percent of `r` in its middle, where
/// the confirmation popup is drawn. It lies within `r`; its size is its
/// percentage of `r`'s on-screen size to within one cell, and it is set off
/// from `r`'s top and left edges by the side strips, each their percentage of
/// `r` to within one cell.
pub fn centered_rect(percent_x: u16, percent_y: u16, r: Area) -> (c: Area)
    requires
        percent_x <= 100,
        percent_y <= 100,
    ensures
        c == centered_rect_of(percent_x, percent_y, r),
        r.x <= c.x,
        c.x + c.width <= r.x + axis_extent(r, Axis::Horizontal),
        r.y <= c.y,
        c.y + c.height <= r.y + axis_extent(r, Axis::Vertical),
        within(100 * c.width, axis_extent(r, Axis::Horizontal) * percent_x, 100),
        within(100 * c.height, axis_extent(r, Axis::Vertical) * percent_y, 100),
        within(100 * (c.x - r.x), axis_extent(r, Axis::Horizontal) * side_percent(percent_x), 100),
        within(100 * (c.y - r.y), axis_extent(r, Axis::Vertical) * side_percent(percent_y), 100),
{
    let rows_percents = centred_percents(percent_y);
    let rows = split_by_percentages(r, Axis::Vertical, &rows_percents);
    let row = rows[1];
    assert(same_across(r, rows@[1], Axis::Vertical));
    assert(axis_start(rows@[1], Axis::Vertical) == axis_start(rows@[0], Axis::Vertical)
        + axis_len(rows@[0], Axis::Vertical));
    assert(within(100 * axis_len(rows@[0], Axis::Vertical), axis_extent(r, Axis::Vertical) * rows_percents@[0], 100));
    assert(within(100 * axis_len(rows@[1], Axis::Vertical), axis_extent(r, Axis::Vertical) * rows_percents@[1], 100));
    assert(axis_start(r, Axis::Vertical) <= axis_start(rows@[1], Axis::Vertical));
    let cols_percents = centred_percents(percent_x);
    let cols = split_by_percentages(row, Axis::Horizontal, &cols_percents);
    assert(same_across(row, cols@[1], Axis::Horizontal));
    assert(axis_extent(row, Axis::Horizontal) == axis_extent(r, Axis::Horizontal));
    assert(axis_start(cols@[1], Axis::Horizontal) == axis_start(cols@[0], Axis::Horizontal)
        + axis_len(cols@[0], Axis::Horizontal));
    assert(within(100 * axis_len(cols@[0], Axis::Horizontal), axis_extent(row, Axis::Horizontal) * cols_percents@[0], 100));
    assert(within(100 * axis_len(cols@[1], Axis::Horizontal), axis_extent(row, Axis::Horizontal) * cols_percents@[1], 100));
    assert(axis_start(row, Axis::Horizontal) <= axis_start(cols@[1], Axis::Horizontal));
    assert(rows_percents@ == seq![side_percent(percent_y), percent_y, side_percent(percent_y)]);
    assert(cols_percents@ == seq![side_percent(percent_x), percent_x, side_percent(percent_x)]);
    cols[1]
}

/// The shares of the screen's width given to the list of environments and
/// to the details pane, in percent.
pub open spec fn pane_percents() -> Seq<u16> {
    seq![30u16, 70u16]
}

/// The list pane and the details pane: `main` cut across into 30 and 70
/// percent.
pub open spec fn panes_of(main: Area) -> Seq<Area> {
    percentage_layout(main, Axis::Horizontal, pane_percents())
}

/// The list pane and the details pane side by side in `main`: the list takes
/// 30 percent of the width from the left edge and the details pane the 70
/// percent after it, each to within one cell, both the full height of
/// `main`.
pub fn panes(main: Area) -> (p: (Area, Area))
    ensures
        seq![p.0, p.1] == panes_of(main),
        p.0.x == main.x,
        p.1.x == p.0.x + p.0.width,
        p.0.y == main.y && p.0.height == main.height,
        p.1.y == main.y && p.1.height == main.height,
        p.1.x + p.1.width <= main.x + axis_extent(main, Axis::Horizontal),
        within(100 * p.0.width, axis_extent(main, Axis::Horizontal) * 30, 100),
        within(100 * p.1.width, axis_extent(main, Axis::Horizontal) * 70, 100),
{
    let percents = vec![30u16, 70u16];
    assert(percents@ =~= pane_percents());
    assert(percent_total(percents@) == 100) by {
        reveal_with_fuel(percent_total, 3);
        assert(percents@.drop_last() =~= seq![30u16]);
        assert(percents@.drop_last().drop_last() =~= Seq::<u16>::empty());
    }
    let parts = split_by_percentages(main, Axis::Horizontal, &percents);
    assert(same_across(main, parts@[0], Axis::Horizontal));
    assert(same_across(main, parts@[1], Axis::Horizontal));
    assert(axis_start(parts@[1], Axis::Horizontal) == axis_start(parts@[0], Axis::Horizontal)
        + axis_len(parts@[0], Axis::Horizontal));
    assert(within(100 * axis_len(parts@[0], Axis::Horizontal), axis_extent(main, Axis::Horizontal) * percents@[0], 100));
    assert(within(100 * axis_len(parts@[1], Axis::Horizontal), axis_extent(main, Axis::Horizontal) * percents@[1], 100));
    assert(axis_start(main, Axis::Horizontal) <= axis_start(parts@[1], Axis::Horizontal));
    let p = (parts[0], parts[1]);
    assert(seq![p.0, p.1] =~= parts@);
    p
}

} // verus!
