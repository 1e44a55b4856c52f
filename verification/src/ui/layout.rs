//! Screen layout: the sidebar, the chat area with its tab bar, message list,
//! input box and status bar, and the command palette over them.

use vstd::prelude::*;
use ratatui::layout as rl;

verus! {

/// A rectangle of terminal cells.
#[derive(Debug, Clone, Copy, PartialEq, Eq, Structural)]
pub struct Rect {
    pub x: u16,
    pub y: u16,
    pub width: u16,
    pub height: u16,
}

/// A size constraint of one part of a split.
#[derive(Debug, Clone, Copy, PartialEq, Eq, Structural)]
pub enum Constraint {
    /// Exactly this many cells.
    Length(u16),
    /// At least this many cells.
    Min(u16),
}

/// Splits `area` with ratatui's `Layout` (`Layout::default`, `direction`,
/// `constraints`, `split`). Trusted, as ratatui's source shows for every
/// outcome of its constraint solver: one rectangle per constraint; a
/// vertical split keeps the area's column and width, a horizontal split its
/// row and height; and a horizontal part ends within the area. Where the
/// solver puts each boundary is left unstated: it picks among optimal
/// solutions by walking hash maps whose order changes between processes.
#[verifier::external_body]
fn split_area(area: Rect, vertical: bool, constraints: &Vec<Constraint>) -> (r: Vec<Rect>)
    requires
        area.x + area.width <= u16::MAX,
        area.y + area.height <= u16::MAX,
    ensures
        r@.len() == constraints@.len(),
        vertical ==> forall|i: int| 0 <= i < r@.len() ==> (#[trigger] r@[i]).x == area.x && r@[i].width == area.width,
        !vertical ==> forall|i: int| 0 <= i < r@.len() ==> (#[trigger] r@[i]).y == area.y && r@[i].height == area.height
            && r@[i].x + r@[i].width <= area.x + area.width,
{
    let cs: Vec<rl::Constraint> = constraints.iter().map(|c| match c {
        Constraint::Length(n) => rl::Constraint::Length(*n),
        Constraint::Min(n) => rl::Constraint::Min(*n),
    }).collect();
    let dir = if vertical { rl::Direction::Vertical } else { rl::Direction::Horizontal };
    let a = rl::Rect { x: area.x, y: area.y, width: area.width, height: area.height };
    let rects = rl::Layout::default().direction(dir).constraints(cs).split(a);
    rects.iter().map(|q| Rect { x: q.x, y: q.y, width: q.width, height: q.height }).collect()
}

/// The areas of the screen.
#[derive(Debug, Clone, Copy)]
pub struct AppLayout {
    pub sidebar: Option<Rect>,
    pub main_area: Rect,
    pub tab_bar: Rect,
    pub messages: Rect,
    pub input_area: Rect,
    pub status_bar: Rect,
    pub command_palette: Option<Rect>,
}

/// The command palette over the chat area: at most 60 cells wide and 12
/// high, centred across and a third of the way down.
pub open spec fn palette_rect(main: Rect) -> Rect {
    let w = if main.width < 60 {
        main.width
    } else {
        60
    };
    let h = if main.height < 12 {
        main.height
    } else {
        12
    };
    Rect { x: (main.x + (main.width - w) / 2) as u16, y: (main.y + (main.height - h) / 3) as u16, width: w, height: h }
}

/// The command palette's place over the chat area `main`.
pub fn command_palette_rect(main: Rect) -> (r: Rect)
    requires
        main.x + main.width <= u16::MAX,
        main.y + main.height <= u16::MAX,
    ensures
        r == palette_rect(main),
{
    let w = if main.width < 60 {
        main.width
    } else {
        60
    };
    let h = if main.height < 12 {
        main.height
    } else {
        12
    };
    Rect { x: main.x + (main.width - w) / 2, y: main.y + (main.height - h) / 3, width: w, height: h }
}

/// `r` lies in the column of `area`: same column and width.
pub open spec fn in_column(r: Rect, area: Rect) -> bool {
    r.x == area.x && r.width == area.width
}

/// The layout of `area` with a sidebar of `sidebar_width` cells when it is
/// shown: the sidebar, when there is one, and the chat area are parts of
/// one split across the area, so each keeps its row and ends within it;
/// the tab bar, messages, input and status bar are parts of one split down
/// the chat area, so each keeps its column; and the palette sits over the
/// chat area when it is open. Where the solver puts the boundaries is not
/// stated.
pub open spec fn layout_spec(area: Rect, sidebar_visible: bool, palette_open: bool, sidebar_width: u16, l: AppLayout) -> bool {
    let sw: u16 = if sidebar_visible {
        sidebar_width
    } else {
        0
    };
    &&& l.main_area.y == area.y && l.main_area.height == area.height
    &&& l.main_area.x + l.main_area.width <= area.x + area.width
    &&& match l.sidebar {
        Some(s) => sw > 0 && s.y == area.y && s.height == area.height && s.x + s.width <= area.x + area.width,
        None => sw == 0,
    }
    &&& in_column(l.tab_bar, l.main_area)
    &&& in_column(l.messages, l.main_area)
    &&& in_column(l.input_area, l.main_area)
    &&& in_column(l.status_bar, l.main_area)
    &&& match l.command_palette {
        Some(p) => palette_open && p == palette_rect(l.main_area),
        None => !palette_open,
    }
}

/// Lays out the screen. The sidebar width is given in cells; a hidden
/// sidebar takes none.
pub fn calculate(area: Rect, sidebar_visible: bool, command_palette_open: bool, sidebar_width: u16) -> (l: AppLayout)
    requires
        area.x + area.width <= u16::MAX,
        area.y + area.height <= u16::MAX,
    ensures
        layout_spec(area, sidebar_visible, command_palette_open, sidebar_width, l),
{
    let sw = if sidebar_visible {
        sidebar_width
    } else {
        0
    };
    let mut cols: Vec<Constraint> = Vec::new();
    if sw > 0 {
        cols.push(Constraint::Length(sw));
    }
    cols.push(Constraint::Min(40));
    let horizontal = split_area(area, false, &cols);
    let (sidebar, main) = if horizontal.len() == 2 {
        (Some(horizontal[0]), horizontal[1])
    } else {
        (None, horizontal[0])
    };
    let mut rows: Vec<Constraint> = Vec::new();
    rows.push(Constraint::Length(2));
    rows.push(Constraint::Min(3));
    rows.push(Constraint::Length(3));
    rows.push(Constraint::Length(1));
    let vertical = split_area(main, true, &rows);
    let command_palette = if command_palette_open {
        Some(command_palette_rect(main))
    } else {
        None
    };
    AppLayout {
        sidebar,
        main_area: main,
        tab_bar: vertical[0],
        messages: vertical[1],
        input_area: vertical[2],
        status_bar: vertical[3],
        command_palette,
    }
}

} // verus!
