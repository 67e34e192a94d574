//! A component that shows a titled box with a text in the lower right corner.
use vstd::prelude::*;
use crate::compositor::{
    Component, Context, ContextExt, ContextExtView, ContextView, Editor, EditorView, EventResult,
    EventResultView,
};
use crate::graphics::{saturating_diff, CursorKind, Position, Rect};
use crate::input::Event;
use crate::registry::{fitted, surface_by_id_mut};
use crate::surface::{Paint, PaintView, Scope, Surface, SurfaceFlags};

verus! {

/// The widest and the highest that the text of an info box may be, so that the box with
/// its border and margin, and the status line below it, can be counted in `u16`.
pub open spec fn spec_max_text_size() -> u16 {
    0xfffb
}

/// A box with a title and a text.
pub struct Info {
    title: String,
    text: String,
    /// The width of the text, in columns.
    width: u16,
    /// The height of the text, in rows.
    height: u16,
}

/// An [`Info`] as a mathematical value.
pub struct InfoView {
    pub title: Seq<char>,
    pub text: Seq<char>,
    pub width: u16,
    pub height: u16,
}

impl View for Info {
    type V = InfoView;

    closed spec fn view(&self) -> InfoView {
        InfoView { title: self.title@, text: self.text@, width: self.width, height: self.height }
    }
}

impl InfoView {
    /// The text is no larger than [`spec_max_text_size`].
    pub open spec fn wf(self) -> bool {
        self.width <= spec_max_text_size() && self.height <= spec_max_text_size()
    }

    /// The width of the box: the text, a border and a column of margin on either side.
    pub open spec fn box_width(self) -> u16 {
        (self.width + 4) as u16
    }

    /// The height of the box: the text and a border above and below.
    pub open spec fn box_height(self) -> u16 {
        (self.height + 2) as u16
    }

    /// The area of the box on a surface of its own: the box, at the origin.
    pub open spec fn own_area(self) -> Rect {
        Rect { x: 0, y: 0, width: self.box_width(), height: self.box_height() }
    }

    /// The area of the box in `viewport`: in the lower right corner, two rows above the
    /// bottom so that the status line stays free, and cut to what lies inside the viewport.
    pub open spec fn placed(self, viewport: Rect) -> Rect {
        viewport.spec_intersection(
            Rect {
                x: saturating_diff(viewport.width, self.box_width()),
                y: saturating_diff(viewport.height, (self.box_height() + 2) as u16),
                width: self.box_width(),
                height: self.box_height(),
            },
        )
    }

    /// What the box paints over `area`: the background, then the frame with the title and
    /// the text inside.
    pub open spec fn paints(self, area: Rect) -> Seq<PaintView> {
        seq![
            PaintView::Clear { area, style: Scope::PopupInfo },
            PaintView::Popup {
                area,
                title: self.title,
                text: self.text,
                border: Scope::PopupInfo,
                style: Scope::TextInfo,
            },
        ]
    }
}

impl Info {
    #[verifier::type_invariant]
    closed spec fn inv(&self) -> bool {
        self@.wf()
    }

    /// The id of every info layer.
    pub open spec fn spec_id() -> Seq<char> {
        "info-component"@
    }

    /// The largest width and height that [`Info::new`] takes.
    pub fn max_text_size() -> (max: u16)
        ensures
            max == spec_max_text_size(),
    {
        0xfffb
    }

    /// A box with `title` in its frame and `text` inside. `width` and `height` are the
    /// size of the text in columns and rows.
    pub fn new(title: String, text: String, width: u16, height: u16) -> (info: Info)
        requires
            width <= spec_max_text_size(),
            height <= spec_max_text_size(),
        ensures
            info@ == (InfoView { title: title@, text: text@, width, height }),
    {
        Info { title, text, width, height }
    }

    /// The area of the box on a surface of its own.
    pub fn area(&self) -> (area: Rect)
        ensures
            area == self@.own_area(),
    {
        proof {
            use_type_invariant(self);
        }
        Rect { x: 0, y: 0, width: self.width + 4, height: self.height + 2 }
    }

    /// The frame and the text, painted over `area`.
    fn render_box(&self, area: Rect, surface: &mut Surface)
        ensures
            final(surface)@ == old(surface)@.painted(self@.paints(area)),
    {
        surface.paint(Paint::Clear { area, style: Scope::PopupInfo });
        surface.paint(
            Paint::Popup {
                area,
                title: self.title.clone(),
                text: self.text.clone(),
                border: Scope::PopupInfo,
                style: Scope::TextInfo,
            },
        );
        assert(surface@.ops =~= old(surface)@.ops + self@.paints(area));
    }
}

impl Component for Info {
    open spec fn handled(v: InfoView, event: Event, cx: ContextView) -> (
        InfoView,
        EventResultView<InfoView>,
        ContextView,
    ) {
        (v, EventResultView::Ignored(None), cx)
    }

    fn handle_event(&mut self, event: &Event, cx: &mut Context) -> (result: EventResult<Self>) {
        EventResult::Ignored(None)
    }

    open spec fn updates(v: InfoView) -> bool {
        true
    }

    fn should_update(&self) -> (update: bool) {
        true
    }

    open spec fn rendered(v: InfoView, area: Rect, cx: ContextView) -> (InfoView, Seq<PaintView>, ContextView) {
        (v, v.paints(v.placed(area)), cx)
    }

    fn render(&mut self, area: Rect, frame: &mut Surface, cx: &mut Context) {
        proof {
            use_type_invariant(&*self);
        }
        let viewport = area;
        // The box goes into the lower right corner of the viewport.
        let width = self.width + 2 + 2;  // the border and the margin
        let height = self.height + 2;  // the border
        let area = viewport.intersection(
            Rect::new(
                viewport.width.saturating_sub(width),
                viewport.height.saturating_sub(height + 2),  // the status line
                width,
                height,
            ),
        );
        self.render_box(area, frame);
    }

    open spec fn paints_ext(v: InfoView) -> bool {
        true
    }

    open spec fn rendered_ext(v: InfoView, cx: ContextExtView) -> (InfoView, ContextExtView) {
        let area = v.own_area();
        let surface = fitted(cx.surfaces, Info::spec_id(), area, SurfaceFlags::empty());
        (v, ContextExtView { surfaces: cx.surfaces.insert(Info::spec_id(), surface.painted(v.paints(area))), ..cx })
    }

    fn render_ext(&mut self, cx: &mut ContextExt) {
        let id = "info-component".to_owned();
        let info_area = self.area();
        let surface = surface_by_id_mut(&id, info_area, SurfaceFlags::empty(), &mut cx.surfaces);
        self.render_box(info_area, surface);
    }

    open spec fn cursor_at(v: InfoView, area: Rect, editor: EditorView) -> (Option<Position>, CursorKind) {
        (None, CursorKind::Hidden)
    }

    fn cursor(&self, area: Rect, editor: &Editor) -> (at: (Option<Position>, CursorKind)) {
        (None, CursorKind::Hidden)
    }

    open spec fn cursor_anchors(v: InfoView, editor: EditorView) -> Option<(Seq<Position>, Seq<char>)> {
        None
    }

    fn cursor_ext(&self, editor: &Editor) -> (anchors: Option<(Vec<Position>, &str)>) {
        None
    }

    open spec fn sized(v: InfoView, viewport: (u16, u16)) -> (InfoView, Option<(u16, u16)>) {
        (v, None)
    }

    fn required_size(&mut self, viewport: (u16, u16)) -> (size: Option<(u16, u16)>) {
        None
    }

    open spec fn kind_of(v: InfoView) -> Seq<char> {
        "Info"@
    }

    fn kind(&self) -> (name: &'static str) {
        "Info"
    }

    open spec fn id_of(v: InfoView) -> Option<Seq<char>> {
        Some(Info::spec_id())
    }

    fn id(&self) -> (id: Option<&'static str>) {
        Some("info-component")
    }
}

/// Both ways of painting an info box paint the same box: on the frame it is painted over
/// its place in the viewport, on a surface of its own over its own area, and the steps
/// differ in nothing but that area.
pub proof fn lemma_info_paints_alike(v: InfoView, viewport: Rect, cx: ContextView, ext: ContextExtView)
    ensures
        Info::rendered(v, viewport, cx).1 == v.paints(v.placed(viewport)),
        Info::rendered_ext(v, ext).1.surfaces[Info::spec_id()].ops == fitted(
            ext.surfaces,
            Info::spec_id(),
            v.own_area(),
            SurfaceFlags::empty(),
        ).ops + v.paints(v.own_area()),
        v.placed(viewport) == v.own_area() ==> Info::rendered(v, viewport, cx).1 == v.paints(v.own_area()),
{
}

} // verus!
