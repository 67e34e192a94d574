//! What components paint, and where they paint it.
//!
//! A [`Surface`] does not hold cells. It records, in order, the [`Paint`] steps that were
//! asked of it; whoever owns the terminal replays them onto its own cell grid. Later steps
//! paint over earlier ones.
use vstd::prelude::*;
use crate::graphics::Rect;

verus! {

/// A style of the theme, by the part of the interface it is for.
#[derive(Clone, Copy, Debug, PartialEq, Eq, Structural)]
pub enum Scope {
    /// The body of a menu. A theme without it falls back to the style of plain text.
    Menu,
    /// The selected row of a menu.
    MenuSelected,
    /// The scrollbar of a menu.
    MenuScroll,
    /// The text inside an info box.
    TextInfo,
    /// The frame and background of an info box.
    PopupInfo,
}

impl Scope {
    /// The key under which the theme holds this style.
    pub open spec fn spec_name(self) -> Seq<char> {
        match self {
            Scope::Menu => "ui.menu"@,
            Scope::MenuSelected => "ui.menu.selected"@,
            Scope::MenuScroll => "ui.menu.scroll"@,
            Scope::TextInfo => "ui.text.info"@,
            Scope::PopupInfo => "ui.popup.info"@,
        }
    }

    /// The key to use where the theme has no style under [`Scope::spec_name`].
    pub open spec fn spec_fallback(self) -> Option<Seq<char>> {
        match self {
            Scope::Menu => Some("ui.text"@),
            _ => None,
        }
    }

    pub fn name(self) -> (r: &'static str)
        ensures
            r@ == self.spec_name(),
    {
        match self {
            Scope::Menu => "ui.menu",
            Scope::MenuSelected => "ui.menu.selected",
            Scope::MenuScroll => "ui.menu.scroll",
            Scope::TextInfo => "ui.text.info",
            Scope::PopupInfo => "ui.popup.info",
        }
    }

    pub fn fallback(self) -> (r: Option<&'static str>)
        ensures
            match r {
                Some(s) => self.spec_fallback() == Some(s@),
                None => self.spec_fallback().is_none(),
            },
    {
        match self {
            Scope::Menu => Some("ui.text"),
            _ => None,
        }
    }
}

/// Which colour of a style to take. A style without that colour gives the terminal's own.
#[derive(Clone, Copy, Debug, PartialEq, Eq, Structural)]
pub enum ColorPart {
    Foreground,
    Background,
}

/// The number of terminal columns that a text takes when shown.
pub uninterp spec fn display_width(text: Seq<char>) -> nat;

/// `unicode_width::UnicodeWidthStr::width`: the displayed width of `text` in columns. The
/// contract only gives that width a name, [`display_width`]; which number it is, the tables
/// of the `unicode-width` crate decide.
#[verifier::external_body]
pub(crate) fn str_width(text: &str) -> (w: usize)
    ensures
        w == display_width(text@),
{
    unicode_width::UnicodeWidthStr::width(text)
}

/// The characters of each of `lines`, in order.
pub open spec fn line_texts(lines: Seq<String>) -> Seq<Seq<char>> {
    lines.map_values(|l: String| l@)
}

/// The lines that a text falls into.
pub uninterp spec fn lines_of(text: Seq<char>) -> Seq<Seq<char>>;

/// `str::lines`: the lines of `text`, without their line endings. The contract only gives
/// them a name, [`lines_of`].
#[verifier::external_body]
pub(crate) fn split_lines(text: &str) -> (lines: Vec<String>)
    ensures
        line_texts(lines@) == lines_of(text@),
{
    text.lines().map(String::from).collect()
}

/// The width of the widest of `lines`, in columns; zero where there is no line.
pub open spec fn widest(lines: Seq<Seq<char>>) -> nat
    decreases lines.len(),
{
    if lines.len() == 0 {
        0
    } else {
        let rest = widest(lines.drop_last());
        let last = display_width(lines.last());
        if last > rest { last } else { rest }
    }
}

/// The width of the widest of `lines`, in columns.
pub(crate) fn widest_line(lines: &Vec<String>) -> (w: usize)
    ensures
        w == widest(line_texts(lines@)),
{
    let ghost texts = line_texts(lines@);
    let mut w: usize = 0;
    let mut i: usize = 0;
    while i < lines.len()
        invariant
            i <= lines.len(),
            texts == line_texts(lines@),
            w == widest(texts.take(i as int)),
        decreases lines.len() - i,
    {
        assert(texts.take(i + 1).drop_last() =~= texts.take(i as int));
        assert(texts.take(i + 1).last() == lines@[i as int]@);
        let line = str_width(lines[i].as_str());
        if line > w {
            w = line;
        }
        i += 1;
    }
    assert(texts.take(i as int) =~= texts);
    w
}

/// The number of columns that a cell with the text `text` takes: as many as its widest
/// line.
pub open spec fn cell_width(text: Seq<char>) -> nat {
    widest(lines_of(text))
}

/// One cell of a table row: a text, which may have more than one line.
#[derive(Clone, Debug, PartialEq, Eq)]
pub struct Cell {
    pub content: String,
}

impl View for Cell {
    type V = Seq<char>;

    open spec fn view(&self) -> Seq<char> {
        self.content@
    }
}

impl Cell {
    pub fn new(content: String) -> (c: Cell)
        ensures
            c@ == content@,
    {
        Cell { content }
    }

    /// The number of columns the cell takes: the width of the widest line of its text.
    pub fn width(&self) -> (w: usize)
        ensures
            w == cell_width(self@),
    {
        let lines = split_lines(self.content.as_str());
        widest_line(&lines)
    }
}

/// The texts of `cells`, in order.
pub open spec fn cell_texts(cells: Seq<Cell>) -> Seq<Seq<char>> {
    cells.map_values(|c: Cell| c@)
}

/// The texts of `cells` written one after the other.
pub open spec fn joined(cells: Seq<Seq<char>>) -> Seq<char>
    decreases cells.len(),
{
    if cells.len() == 0 {
        Seq::empty()
    } else {
        joined(cells.drop_last()) + cells.last()
    }
}

/// One row of a table.
#[derive(Clone, Debug, PartialEq, Eq)]
pub struct Row {
    pub cells: Vec<Cell>,
}

impl View for Row {
    type V = Seq<Seq<char>>;

    open spec fn view(&self) -> Seq<Seq<char>> {
        cell_texts(self.cells@)
    }
}

impl Row {
    pub fn new(cells: Vec<Cell>) -> (r: Row)
        ensures
            r@ == cell_texts(cells@),
    {
        Row { cells }
    }

    /// A row of one cell.
    pub fn single(content: String) -> (r: Row)
        ensures
            r@ == seq![content@],
    {
        let mut cells: Vec<Cell> = Vec::new();
        cells.push(Cell::new(content));
        assert(cell_texts(cells@) =~= seq![content@]);
        Row { cells }
    }

    /// The text of all cells, written one after the other.
    pub fn cell_text(&self) -> (s: String)
        ensures
            s@ == joined(self@),
    {
        let mut s = String::new();
        let mut i: usize = 0;
        while i < self.cells.len()
            invariant
                i <= self.cells.len(),
                s@ == joined(self@.take(i as int)),
            decreases self.cells.len() - i,
        {
            assert(self@.take(i + 1).drop_last() =~= self@.take(i as int));
            s.append(self.cells[i].content.as_str());
            i += 1;
        }
        assert(self@.take(i as int) =~= self@);
        s
    }
}

/// The texts of `rows`, in order.
pub open spec fn row_texts(rows: Seq<Row>) -> Seq<Seq<Seq<char>>> {
    rows.map_values(|r: Row| r@)
}

/// One step of painting.
#[derive(Clone, Debug, PartialEq, Eq)]
pub enum Paint {
    /// Blank every cell of `area` and give it `style`.
    Clear { area: Rect, style: Scope },
    /// Draw `rows` as a table inside `area`, one column of space between the columns, which
    /// are `widths` wide. The row at index `offset` is the first one shown; the row at
    /// `selected` is shown in `highlight`.
    Table {
        area: Rect,
        rows: Vec<Row>,
        widths: Vec<u16>,
        style: Scope,
        highlight: Scope,
        offset: usize,
        selected: Option<usize>,
    },
    /// Give the cell at column `x` and row `y` the style `style`.
    Style { x: u16, y: u16, style: Scope },
    /// Put `symbol` into the cell at column `x` and row `y`, in the `part` colour of `style`.
    Glyph { x: u16, y: u16, symbol: char, style: Scope, part: ColorPart },
    /// Write `lines` into `area`, wrapping lines that are too long without trimming them.
    Paragraph { area: Rect, lines: Vec<String> },
    /// Draw a box with all four borders and `title` in `border` style over `area`, and
    /// write `text` in `style` inside it, one column away from the left and right border.
    Popup { area: Rect, title: String, text: String, border: Scope, style: Scope },
}

/// A [`Paint`] step as a mathematical value.
pub enum PaintView {
    Clear { area: Rect, style: Scope },
    Table {
        area: Rect,
        rows: Seq<Seq<Seq<char>>>,
        widths: Seq<u16>,
        style: Scope,
        highlight: Scope,
        offset: usize,
        selected: Option<usize>,
    },
    Style { x: u16, y: u16, style: Scope },
    Glyph { x: u16, y: u16, symbol: char, style: Scope, part: ColorPart },
    Paragraph { area: Rect, lines: Seq<Seq<char>> },
    Popup { area: Rect, title: Seq<char>, text: Seq<char>, border: Scope, style: Scope },
}

impl View for Paint {
    type V = PaintView;

    open spec fn view(&self) -> PaintView {
        match *self {
            Paint::Clear { area, style } => PaintView::Clear { area, style },
            Paint::Table { area, rows, widths, style, highlight, offset, selected } => PaintView::Table {
                area,
                rows: row_texts(rows@),
                widths: widths@,
                style,
                highlight,
                offset,
                selected,
            },
            Paint::Style { x, y, style } => PaintView::Style { x, y, style },
            Paint::Glyph { x, y, symbol, style, part } => PaintView::Glyph { x, y, symbol, style, part },
            Paint::Paragraph { area, lines } => PaintView::Paragraph { area, lines: line_texts(lines@) },
            Paint::Popup { area, title, text, border, style } => PaintView::Popup {
                area,
                title: title@,
                text: text@,
                border,
                style,
            },
        }
    }
}

/// The steps `ops` as mathematical values, in order.
pub open spec fn paint_views(ops: Seq<Paint>) -> Seq<PaintView> {
    ops.map_values(|p: Paint| p@)
}

/// What a surface is for, as its owner understands it. Components carry the value through.
#[derive(Clone, Copy, Debug, PartialEq, Eq, Structural)]
pub struct SurfaceFlags {
    pub bits: u32,
}

impl SurfaceFlags {
    pub open spec fn spec_empty() -> SurfaceFlags {
        SurfaceFlags { bits: 0 }
    }

    /// No flag set.
    #[verifier::when_used_as_spec(spec_empty)]
    pub fn empty() -> (f: SurfaceFlags)
        ensures
            f == Self::spec_empty(),
    {
        SurfaceFlags { bits: 0 }
    }
}

/// A target to paint on: the area it covers and the steps painted so far, oldest first.
#[derive(Clone, Debug, PartialEq, Eq)]
pub struct Surface {
    pub area: Rect,
    pub flags: SurfaceFlags,
    pub ops: Vec<Paint>,
}

/// A [`Surface`] as a mathematical value.
pub struct SurfaceView {
    pub area: Rect,
    pub flags: SurfaceFlags,
    pub ops: Seq<PaintView>,
}

impl SurfaceView {
    /// A surface over `area` on which nothing is painted.
    pub open spec fn blank(area: Rect, flags: SurfaceFlags) -> SurfaceView {
        SurfaceView { area, flags, ops: Seq::empty() }
    }

    /// The surface after `more` steps were painted on it.
    pub open spec fn painted(self, more: Seq<PaintView>) -> SurfaceView {
        SurfaceView { ops: self.ops + more, ..self }
    }
}

impl View for Surface {
    type V = SurfaceView;

    open spec fn view(&self) -> SurfaceView {
        SurfaceView { area: self.area, flags: self.flags, ops: paint_views(self.ops@) }
    }
}

impl Surface {
    /// A surface over `area` on which nothing is painted.
    pub fn empty(area: Rect) -> (s: Surface)
        ensures
            s@ == SurfaceView::blank(area, SurfaceFlags::empty()),
    {
        Surface::empty_with_spatial(area, SurfaceFlags::empty())
    }

    /// A surface over `area`, marked with `flags`, on which nothing is painted.
    pub fn empty_with_spatial(area: Rect, flags: SurfaceFlags) -> (s: Surface)
        ensures
            s@ == SurfaceView::blank(area, flags),
    {
        let s = Surface { area, flags, ops: Vec::new() };
        assert(s@.ops =~= Seq::empty());
        s
    }

    /// Makes the surface cover `area`. What was painted stays.
    pub fn resize(&mut self, area: Rect)
        ensures
            final(self)@ == (SurfaceView { area, ..old(self)@ }),
    {
        self.area = area;
    }

    /// Wipes the surface: nothing is painted on it any more.
    pub fn reset(&mut self)
        ensures
            final(self)@ == SurfaceView::blank(old(self)@.area, old(self)@.flags),
    {
        self.ops = Vec::new();
        assert(self@.ops =~= Seq::empty());
    }

    /// Paints one more step, over everything painted before.
    pub fn paint(&mut self, step: Paint)
        ensures
            final(self)@ == old(self)@.painted(seq![step@]),
    {
        self.ops.push(step);
        assert(self@.ops =~= old(self)@.ops + seq![step@]);
    }
}

/// The state of a grid of kind `G` after the steps `ops` were replayed on `grid`, oldest
/// first, where `draw` says what one step does to a grid.
pub open spec fn replay<G>(ops: Seq<PaintView>, grid: G, draw: spec_fn(PaintView, G) -> G) -> G
    decreases ops.len(),
{
    if ops.len() == 0 {
        grid
    } else {
        draw(ops.last(), replay(ops.drop_last(), grid, draw))
    }
}

/// The topmost writer wins: steps that leave a cell alone do not change what the steps
/// before them left in it.
///
/// `read` picks one cell's state out of a grid. If no step of `above` changes that cell,
/// whatever grid it is applied to, then after `below` and `above` were replayed the cell
/// holds what it held once `below` had been replayed.
pub proof fn lemma_topmost_writer_wins<G, S>(
    below: Seq<PaintView>,
    above: Seq<PaintView>,
    grid: G,
    draw: spec_fn(PaintView, G) -> G,
    read: spec_fn(G) -> S,
)
    requires
        forall|i: int, g: G| 0 <= i < above.len() ==> read(#[trigger] draw(above[i], g)) == read(g),
    ensures
        read(replay(below + above, grid, draw)) == read(replay(below, grid, draw)),
    decreases above.len(),
{
    if above.len() == 0 {
        assert(below + above =~= below);
    } else {
        let all = below + above;
        assert(all.drop_last() =~= below + above.drop_last());
        assert(all.last() == above[above.len() - 1]);
        lemma_topmost_writer_wins(below, above.drop_last(), grid, draw, read);
    }
}

} // verus!
