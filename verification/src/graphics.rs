//! Cell geometry: rectangles, cursor positions and cursor shapes.
use vstd::prelude::*;

verus! {

/// A rectangle of cells. `x` grows to the right and `y` grows downwards.
#[derive(Clone, Copy, Debug, PartialEq, Eq, Structural)]
pub struct Rect {
    pub x: u16,
    pub y: u16,
    pub width: u16,
    pub height: u16,
}

/// `a + b`, held at the largest `u16`.
pub open spec fn saturating_sum(a: u16, b: u16) -> u16 {
    if a + b > u16::MAX {
        u16::MAX
    } else {
        (a + b) as u16
    }
}

/// `a - b`, held at zero.
pub open spec fn saturating_diff(a: u16, b: u16) -> u16 {
    if a < b {
        0
    } else {
        (a - b) as u16
    }
}

/// The overlap of the spans `[a, a + a_len)` and `[b, b + b_len)`: where it starts and how
/// long it is. Spans that do not meet overlap in a span of length zero.
pub open spec fn span_overlap(a: u16, a_len: u16, b: u16, b_len: u16) -> (u16, u16) {
    let start = if a >= b { a } else { b };
    let end = if a + a_len <= b + b_len { a + a_len } else { b + b_len };
    (start, if end > start { (end - start) as u16 } else { 0 })
}

fn overlap(a: u16, a_len: u16, b: u16, b_len: u16) -> (r: (u16, u16))
    ensures
        r == span_overlap(a, a_len, b, b_len),
{
    let start: u16 = if a >= b { a } else { b };
    let a_end: u32 = a as u32 + a_len as u32;
    let b_end: u32 = b as u32 + b_len as u32;
    let end: u32 = if a_end <= b_end { a_end } else { b_end };
    if end > start as u32 {
        (start, (end - start as u32) as u16)
    } else {
        (start, 0)
    }
}

impl Rect {
    /// The first column past the right edge, held at the largest `u16`.
    pub open spec fn spec_right(self) -> u16 {
        saturating_sum(self.x, self.width)
    }

    /// The first row past the bottom edge, held at the largest `u16`.
    pub open spec fn spec_bottom(self) -> u16 {
        saturating_sum(self.y, self.height)
    }

    /// The rectangle without its `width` leftmost columns.
    pub open spec fn spec_clip_left(self, width: u16) -> Rect {
        let cut = if width <= self.width { width } else { self.width };
        Rect { x: saturating_sum(self.x, cut), width: saturating_diff(self.width, cut), ..self }
    }

    /// The rectangle without its `width` rightmost columns.
    pub open spec fn spec_clip_right(self, width: u16) -> Rect {
        Rect { width: saturating_diff(self.width, width), ..self }
    }

    /// The cells that lie in both rectangles.
    pub open spec fn spec_intersection(self, other: Rect) -> Rect {
        let (x, width) = span_overlap(self.x, self.width, other.x, other.width);
        let (y, height) = span_overlap(self.y, self.height, other.y, other.height);
        Rect { x, y, width, height }
    }

    /// Whether the cell `(x, y)` lies inside the rectangle.
    pub open spec fn contains(self, x: u16, y: u16) -> bool {
        self.x <= x && x < self.x + self.width && self.y <= y && y < self.y + self.height
    }

    pub fn new(x: u16, y: u16, width: u16, height: u16) -> (r: Rect)
        ensures
            r == (Rect { x, y, width, height }),
    {
        Rect { x, y, width, height }
    }

    pub fn left(self) -> (r: u16)
        ensures
            r == self.x,
    {
        self.x
    }

    #[verifier::when_used_as_spec(spec_right)]
    pub fn right(self) -> (r: u16)
        ensures
            r == self.spec_right(),
    {
        self.x.saturating_add(self.width)
    }

    pub fn top(self) -> (r: u16)
        ensures
            r == self.y,
    {
        self.y
    }

    #[verifier::when_used_as_spec(spec_bottom)]
    pub fn bottom(self) -> (r: u16)
        ensures
            r == self.spec_bottom(),
    {
        self.y.saturating_add(self.height)
    }

    #[verifier::when_used_as_spec(spec_clip_left)]
    pub fn clip_left(self, width: u16) -> (r: Rect)
        ensures
            r == self.spec_clip_left(width),
    {
        let cut = if width <= self.width { width } else { self.width };
        Rect {
            x: self.x.saturating_add(cut),
            y: self.y,
            width: self.width.saturating_sub(cut),
            height: self.height,
        }
    }

    #[verifier::when_used_as_spec(spec_clip_right)]
    pub fn clip_right(self, width: u16) -> (r: Rect)
        ensures
            r == self.spec_clip_right(width),
    {
        Rect { x: self.x, y: self.y, width: self.width.saturating_sub(width), height: self.height }
    }

    #[verifier::when_used_as_spec(spec_intersection)]
    pub fn intersection(self, other: Rect) -> (r: Rect)
        ensures
            r == self.spec_intersection(other),
    {
        let (x, width) = overlap(self.x, self.width, other.x, other.width);
        let (y, height) = overlap(self.y, self.height, other.y, other.height);
        Rect { x, y, width, height }
    }
}

/// Every cell of an intersection lies in both rectangles, and every cell of both lies in it.
pub proof fn lemma_intersection_cells(a: Rect, b: Rect, x: u16, y: u16)
    ensures
        a.spec_intersection(b).contains(x, y) <==> a.contains(x, y) && b.contains(x, y),
{
}

/// A place in a text, counted in rows and columns from zero.
#[derive(Clone, Copy, Debug, PartialEq, Eq, Structural)]
pub struct Position {
    pub row: usize,
    pub col: usize,
}

impl Position {
    pub fn new(row: usize, col: usize) -> (p: Position)
        ensures
            p == (Position { row, col }),
    {
        Position { row, col }
    }
}

/// The shape in which the terminal shows its cursor.
#[derive(Clone, Copy, Debug, PartialEq, Eq, Structural)]
pub enum CursorKind {
    /// A block that covers the cell.
    Block,
    /// A vertical bar before the cell.
    Bar,
    /// A line under the cell.
    Underline,
    /// No cursor is shown.
    Hidden,
}

} // verus!
