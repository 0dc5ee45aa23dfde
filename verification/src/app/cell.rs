//! Styled pieces of text: what the views hand to whoever draws them.

use vstd::prelude::*;

verus! {

/// The colours in use.
#[derive(Debug, Clone, Copy, PartialEq, Eq, Structural)]
pub enum Color {
    Black,
    White,
    Gray,
    DarkGray,
    Red,
    Green,
    Yellow,
    Cyan,
}

/// Selection / modal accent colour ("teal").
pub const TEAL: Color = Color::Cyan;

/// A piece of text with its style. A colour that is not set is the terminal's
/// own.
#[derive(Debug)]
pub struct Cell {
    pub text: String,
    pub fg: Option<Color>,
    pub bg: Option<Color>,
    pub bold: bool,
}

/// A [`Cell`] with its text.
pub struct CellView {
    pub text: Seq<char>,
    pub fg: Option<Color>,
    pub bg: Option<Color>,
    pub bold: bool,
}

impl View for Cell {
    type V = CellView;

    open spec fn view(&self) -> CellView {
        CellView { text: self.text@, fg: self.fg, bg: self.bg, bold: self.bold }
    }
}

/// The cells of a vector, by their views.
pub open spec fn cell_views(v: Seq<Cell>) -> Seq<CellView> {
    v.map_values(|c: Cell| c@)
}

/// The lines of a vector, by the views of their cells.
pub open spec fn line_views(v: Seq<Vec<Cell>>) -> Seq<Seq<CellView>> {
    v.map_values(|l: Vec<Cell>| cell_views(l@))
}

/// Text without a style.
pub open spec fn as_is(text: Seq<char>) -> CellView {
    CellView { text, fg: None, bg: None, bold: false }
}

/// Text in a colour.
pub open spec fn tinted(text: Seq<char>, color: Color) -> CellView {
    CellView { text, fg: Some(color), bg: None, bold: false }
}

/// Bold text in a colour.
pub open spec fn strong(text: Seq<char>, color: Color) -> CellView {
    CellView { text, fg: Some(color), bg: None, bold: true }
}

/// Bold text in the terminal's own colour.
pub open spec fn heavy(text: Seq<char>) -> CellView {
    CellView { text, fg: None, bg: None, bold: true }
}

impl Cell {
    pub fn plain(text: &str) -> (r: Cell)
        ensures
            r@ == as_is(text@),
    {
        Cell { text: text.to_owned(), fg: None, bg: None, bold: false }
    }

    pub fn colored(text: &str, color: Color) -> (r: Cell)
        ensures
            r@ == tinted(text@, color),
    {
        Cell { text: text.to_owned(), fg: Some(color), bg: None, bold: false }
    }

    pub fn bold(text: &str, color: Color) -> (r: Cell)
        ensures
            r@ == strong(text@, color),
    {
        Cell { text: text.to_owned(), fg: Some(color), bg: None, bold: true }
    }

    pub fn heavy(text: &str) -> (r: Cell)
        ensures
            r@ == heavy(text@),
    {
        Cell { text: text.to_owned(), fg: None, bg: None, bold: true }
    }
}

/// A rectangle of the screen, in character cells.
#[derive(Debug, Clone, Copy, PartialEq, Eq, Structural)]
pub struct Rect {
    pub x: u16,
    pub y: u16,
    pub width: u16,
    pub height: u16,
}

impl Rect {
    /// Whether `self` lies within `area`.
    pub open spec fn within(self, area: Rect) -> bool {
        &&& area.x <= self.x && self.x + self.width <= area.x + area.width
        &&& area.y <= self.y && self.y + self.height <= area.y + area.height
    }
}

/// The rectangle of the given size in the middle of `area`, cut down to it.
pub fn centered_rect(w: u16, h: u16, area: Rect) -> (r: Rect)
    requires
        w < area.width ==> area.x + (area.width - w) / 2 <= u16::MAX,
        h < area.height ==> area.y + (area.height - h) / 2 <= u16::MAX,
    ensures
        r.width == if w < area.width {
            w
        } else {
            area.width
        },
        r.height == if h < area.height {
            h
        } else {
            area.height
        },
        r.x == area.x + (area.width - r.width) / 2,
        r.y == area.y + (area.height - r.height) / 2,
        r.within(area),
{
    let width: u16 = if w < area.width {
        w
    } else {
        area.width
    };
    let height: u16 = if h < area.height {
        h
    } else {
        area.height
    };
    Rect {
        x: area.x + (area.width - width) / 2,
        y: area.y + (area.height - height) / 2,
        width,
        height,
    }
}

} // verus!
