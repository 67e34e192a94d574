//! A component that shows a text as it is.
use vstd::prelude::*;
use crate::compositor::{
    Component, Context, ContextExt, ContextExtView, ContextView, Editor, EditorView, EventResult,
    EventResultView,
};
use crate::graphics::{CursorKind, Position, Rect};
use crate::input::Event;
use crate::registry::{fitted, surface_by_id_mut};
use crate::surface::{
    display_width, line_texts, lines_of, split_lines, str_width, widest, widest_line, Paint, PaintView,
    Surface, SurfaceFlags,
};

verus! {

/// The smaller of `n` and `limit`.
pub open spec fn at_most(n: nat, limit: u16) -> u16 {
    if n <= limit { n as u16 } else { limit }
}

fn clamp(n: usize, limit: u16) -> (r: u16)
    ensures
        r == at_most(n as nat, limit),
{
    if n <= limit as usize { n as u16 } else { limit }
}

/// A text as a list of lines.
#[derive(Clone, Debug, PartialEq, Eq)]
pub struct Lines {
    pub lines: Vec<String>,
}

impl View for Lines {
    type V = Seq<Seq<char>>;

    open spec fn view(&self) -> Seq<Seq<char>> {
        line_texts(self.lines@)
    }
}

impl Lines {
    /// The lines of `contents`.
    pub fn new(contents: String) -> (text: Lines)
        ensures
            text@ == lines_of(contents@),
    {
        Lines { lines: split_lines(contents.as_str()) }
    }

    /// The width of the widest line, in columns.
    pub fn width(&self) -> (w: usize)
        ensures
            w == widest(self@),
    {
        widest_line(&self.lines)
    }

    /// The number of lines.
    pub fn height(&self) -> (h: usize)
        ensures
            h == self@.len(),
    {
        self.lines.len()
    }

    /// A copy of the lines.
    pub fn copy(&self) -> (lines: Vec<String>)
        ensures
            line_texts(lines@) == self@,
    {
        let mut lines: Vec<String> = Vec::new();
        let mut i: usize = 0;
        while i < self.lines.len()
            invariant
                i <= self.lines.len(),
                line_texts(lines@) == self@.take(i as int),
            decreases self.lines.len() - i,
        {
            let line = self.lines[i].clone();
            let ghost before = lines@;
            lines.push(line);
            assert(line_texts(lines@) =~= line_texts(before).push(line@));
            assert(self@.take(i + 1) =~= self@.take(i as int).push(self@[i as int]));
            i += 1;
        }
        assert(self@.take(i as int) =~= self@);
        lines
    }
}

/// The size that `lines` take when no line may be wider than `max_text_width`: the width
/// in columns and the height in rows, after `height` rows and with `width` columns so far.
///
/// A line that fits takes one row. A line that does not takes the whole width, and for
/// every full `max_text_width` of its own width one row more. A line's width counts
/// modulo 65536.
pub open spec fn wrapped(lines: Seq<Seq<char>>, max_text_width: u16) -> (u16, nat)
    decreases lines.len(),
{
    if lines.len() == 0 {
        (0, 0)
    } else {
        let (width, height) = wrapped(lines.drop_last(), max_text_width);
        let line = (display_width(lines.last()) % 0x10000) as u16;
        if line > max_text_width {
            (max_text_width, height + 1 + if max_text_width == 0 { 0 } else { line as nat / max_text_width as nat })
        } else if line > width {
            (line, height + 1)
        } else {
            (width, height + 1)
        }
    }
}

fn wrapped_size(text: &Lines, max_text_width: u16) -> (size: (u16, u64))
    requires
        text@.len() < 0x1_0000_0000_0000,
    ensures
        size.0 == wrapped(text@, max_text_width).0,
        size.1 == wrapped(text@, max_text_width).1,
{
    let mut text_width: u16 = 0;
    let mut height: u64 = 0;
    let mut i: usize = 0;
    while i < text.lines.len()
        invariant
            i <= text.lines.len(),
            text@.len() < 0x1_0000_0000_0000,
            text_width == wrapped(text@.take(i as int), max_text_width).0,
            height == wrapped(text@.take(i as int), max_text_width).1,
            height <= i * 0x1_0000,
        decreases text.lines.len() - i,
    {
        assert(text@.take(i + 1).drop_last() =~= text@.take(i as int));
        assert(text@.take(i + 1).last() == text@[i as int]);
        let content_width: u16 = (str_width(text.lines[i].as_str()) % 0x10000) as u16;
        height += 1;
        if content_width > max_text_width {
            text_width = max_text_width;
            if max_text_width != 0 {
                height += (content_width / max_text_width) as u64;
            }
        } else if content_width > text_width {
            text_width = content_width;
        }
        i += 1;
    }
    assert(text@.take(i as int) =~= text@);
    (text_width, height)
}

/// The width and height that `text` takes when no line may be wider than `max_text_width`.
pub fn required_size(text: &Lines, max_text_width: u16) -> (size: (u16, u16))
    requires
        wrapped(text@, max_text_width).1 <= u16::MAX,
    ensures
        size.0 == wrapped(text@, max_text_width).0,
        size.1 == wrapped(text@, max_text_width).1,
{
    proof {
        lemma_wrapped_height(text@, max_text_width);
    }
    let (width, height) = wrapped_size(text, max_text_width);
    (width, height as u16)
}

/// [`required_size`] for any text: `None` where the height does not fit into a `u16`.
pub fn checked_required_size(text: &Lines, max_text_width: u16) -> (size: Option<(u16, u16)>)
    ensures
        size.is_some() <==> wrapped(text@, max_text_width).1 <= u16::MAX,
        size matches Some(s) ==> s.0 == wrapped(text@, max_text_width).0 && s.1 == wrapped(
            text@,
            max_text_width,
        ).1,
{
    proof {
        lemma_wrapped_height(text@, max_text_width);
    }
    if text.lines.len() > 0xffff {
        return None;
    }
    let (_, height) = wrapped_size(text, max_text_width);
    if height <= 0xffff {
        Some(required_size(text, max_text_width))
    } else {
        None
    }
}

/// A text takes at least one row for each of its lines.
pub proof fn lemma_wrapped_height(lines: Seq<Seq<char>>, max_text_width: u16)
    ensures
        wrapped(lines, max_text_width).1 >= lines.len(),
    decreases lines.len(),
{
    if lines.len() > 0 {
        lemma_wrapped_height(lines.drop_last(), max_text_width);
    }
}

/// A text, shown as it is.
pub struct Text {
    pub(crate) contents: Lines,
    size: (u16, u16),
    viewport: (u16, u16),
}

/// A [`Text`] as a mathematical value.
pub struct TextView {
    pub contents: Seq<Seq<char>>,
    /// The size that was answered last.
    pub size: (u16, u16),
    /// The viewport for which `size` was worked out.
    pub viewport: (u16, u16),
}

impl View for Text {
    type V = TextView;

    closed spec fn view(&self) -> TextView {
        TextView { contents: self.contents@, size: self.size, viewport: self.viewport }
    }
}

impl TextView {
    /// A text that was not asked for its size yet.
    pub open spec fn fresh(contents: Seq<Seq<char>>) -> TextView {
        TextView { contents, size: (0, 0), viewport: (0, 0) }
    }

    /// The size of the text itself, held to `viewport`.
    pub open spec fn fitted_size(self, viewport: (u16, u16)) -> (u16, u16) {
        (at_most(widest(self.contents), viewport.0), at_most(self.contents.len(), viewport.1))
    }

    /// The text after it was asked for its size in `viewport`. For the viewport of the last
    /// time nothing is worked out again.
    pub open spec fn resized(self, viewport: (u16, u16)) -> TextView {
        if viewport != self.viewport {
            TextView { size: self.fitted_size(viewport), viewport, ..self }
        } else {
            self
        }
    }

    /// The area of the text's own surface: its size, at the origin.
    pub open spec fn own_area(self) -> Rect {
        Rect { x: 0, y: 0, width: self.size.0, height: self.size.1 }
    }

    /// What the text paints into `area`.
    pub open spec fn paints(self, area: Rect) -> Seq<PaintView> {
        seq![PaintView::Paragraph { area, lines: self.contents }]
    }
}

impl Text {
    /// The id of every text layer.
    pub open spec fn spec_id() -> Seq<char> {
        "text-component"@
    }

    pub fn new(contents: String) -> (text: Text)
        ensures
            text@ == TextView::fresh(lines_of(contents@)),
    {
        Text { contents: Lines::new(contents), size: (0, 0), viewport: (0, 0) }
    }
}

impl From<Lines> for Text {
    fn from(contents: Lines) -> (text: Text)
    {
        Text { contents, size: (0, 0), viewport: (0, 0) }
    }
}

impl vstd::std_specs::convert::FromSpecImpl<Lines> for Text {
    open spec fn obeys_from_spec() -> bool {
        true
    }

    closed spec fn from_spec(contents: Lines) -> Text {
        Text { contents, size: (0, 0), viewport: (0, 0) }
    }
}

/// A text made from lines was not asked for its size yet.
pub proof fn lemma_text_from_lines(contents: Lines)
    ensures
        <Text as vstd::std_specs::convert::FromSpec<Lines>>::from_spec(contents)@ == TextView::fresh(contents@),
{
}

impl Component for Text {
    open spec fn handled(v: TextView, event: Event, cx: ContextView) -> (
        TextView,
        EventResultView<TextView>,
        ContextView,
    ) {
        (v, EventResultView::Ignored(None), cx)
    }

    fn handle_event(&mut self, event: &Event, cx: &mut Context) -> (result: EventResult<Self>) {
        EventResult::Ignored(None)
    }

    open spec fn updates(v: TextView) -> bool {
        true
    }

    fn should_update(&self) -> (update: bool) {
        true
    }

    open spec fn rendered(v: TextView, area: Rect, cx: ContextView) -> (TextView, Seq<PaintView>, ContextView) {
        (v, v.paints(area), cx)
    }

    fn render(&mut self, area: Rect, frame: &mut Surface, cx: &mut Context) {
        frame.paint(Paint::Paragraph { area, lines: self.contents.copy() });
    }

    open spec fn paints_ext(v: TextView) -> bool {
        true
    }

    open spec fn rendered_ext(v: TextView, cx: ContextExtView) -> (TextView, ContextExtView) {
        let area = v.own_area();
        let surface = fitted(cx.surfaces, Text::spec_id(), area, SurfaceFlags::empty());
        (v, ContextExtView { surfaces: cx.surfaces.insert(Text::spec_id(), surface.painted(v.paints(area))), ..cx })
    }

    fn render_ext(&mut self, cx: &mut ContextExt) {
        let id = "text-component".to_owned();
        let area = Rect { x: 0, y: 0, width: self.size.0, height: self.size.1 };
        let lines = self.contents.copy();
        let surface = surface_by_id_mut(&id, area, SurfaceFlags::empty(), &mut cx.surfaces);
        surface.paint(Paint::Paragraph { area, lines });
    }

    open spec fn cursor_at(v: TextView, area: Rect, editor: EditorView) -> (Option<Position>, CursorKind) {
        (None, CursorKind::Hidden)
    }

    fn cursor(&self, area: Rect, editor: &Editor) -> (at: (Option<Position>, CursorKind)) {
        (None, CursorKind::Hidden)
    }

    open spec fn cursor_anchors(v: TextView, editor: EditorView) -> Option<(Seq<Position>, Seq<char>)> {
        None
    }

    fn cursor_ext(&self, editor: &Editor) -> (anchors: Option<(Vec<Position>, &str)>) {
        None
    }

    open spec fn sized(v: TextView, viewport: (u16, u16)) -> (TextView, Option<(u16, u16)>) {
        (v.resized(viewport), Some(v.resized(viewport).size))
    }

    fn required_size(&mut self, viewport: (u16, u16)) -> (size: Option<(u16, u16)>) {
        if viewport.0 != self.viewport.0 || viewport.1 != self.viewport.1 {
            let width = clamp(self.contents.width(), viewport.0);
            let height = clamp(self.contents.height(), viewport.1);
            self.size = (width, height);
            self.viewport = viewport;
        }
        Some(self.size)
    }

    open spec fn kind_of(v: TextView) -> Seq<char> {
        "Text"@
    }

    fn kind(&self) -> (name: &'static str) {
        "Text"
    }

    open spec fn id_of(v: TextView) -> Option<Seq<char>> {
        Some(Text::spec_id())
    }

    fn id(&self) -> (id: Option<&'static str>) {
        Some("text-component")
    }
}

} // verus!
