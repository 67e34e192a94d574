//! The components of this crate as one type, so that a stack can hold any of them.
use vstd::prelude::*;
use crate::compositor::{
    AnyComponent, Callback, CallbackView, Component, Compositor, Context, ContextExt, ContextExtView,
    ContextView, Editor, EditorView, EventResult, EventResultView,
};
use crate::graphics::{CursorKind, Position, Rect};
use crate::info::{Info, InfoView};
use crate::input::Event;
use crate::menu::{Item, Menu, MenuEvent, MenuView};
use crate::surface::{PaintView, Surface};
use crate::text::{Text, TextView};

verus! {

/// A menu, a text or an info box.
pub enum Layer<T: Item, F: Fn(&Editor, Option<&T>, MenuEvent)> {
    Menu(Menu<T, F>),
    Text(Text),
    Info(Info),
}

/// A [`Layer`] as a mathematical value.
pub enum LayerView<T: Item> {
    Menu(MenuView<T>),
    Text(TextView),
    Info(InfoView),
}

impl<T: Item, F: Fn(&Editor, Option<&T>, MenuEvent)> View for Layer<T, F> {
    type V = LayerView<T>;

    open spec fn view(&self) -> LayerView<T> {
        match *self {
            Layer::Menu(menu) => LayerView::Menu(menu@),
            Layer::Text(text) => LayerView::Text(text@),
            Layer::Info(info) => LayerView::Info(info@),
        }
    }
}

/// A request of a menu as a request about layers: a menu that is to go onto the stack goes
/// there as a layer.
pub open spec fn menu_callback<T: Item>(callback: Option<CallbackView<MenuView<T>>>) -> Option<
    CallbackView<LayerView<T>>,
> {
    match callback {
        Some(CallbackView::Pop) => Some(CallbackView::Pop),
        Some(CallbackView::Push(menu)) => Some(CallbackView::Push(LayerView::Menu(menu))),
        Some(CallbackView::ReplaceOrPush(id, menu)) => Some(CallbackView::ReplaceOrPush(id, LayerView::Menu(menu))),
        Some(CallbackView::Remove(id)) => Some(CallbackView::Remove(id)),
        None => None,
    }
}

/// The answer of a menu as the answer of a layer.
pub open spec fn menu_result<T: Item>(result: EventResultView<MenuView<T>>) -> EventResultView<LayerView<T>> {
    match result {
        EventResultView::Ignored(callback) => EventResultView::Ignored(menu_callback(callback)),
        EventResultView::Consumed(callback) => EventResultView::Consumed(menu_callback(callback)),
    }
}

fn lift_callback<T: Item, F: Fn(&Editor, Option<&T>, MenuEvent)>(callback: Option<Callback<Menu<T, F>>>) -> (lifted:
    Option<Callback<Layer<T, F>>>)
    ensures
        crate::compositor::callback_view(lifted) == menu_callback(crate::compositor::callback_view(callback)),
{
    match callback {
        Some(Callback::Pop) => Some(Callback::Pop),
        Some(Callback::Push(menu)) => Some(Callback::Push(Layer::Menu(menu))),
        Some(Callback::ReplaceOrPush(id, menu)) => Some(Callback::ReplaceOrPush(id, Layer::Menu(menu))),
        Some(Callback::Remove(id)) => Some(Callback::Remove(id)),
        None => None,
    }
}

fn lift_result<T: Item, F: Fn(&Editor, Option<&T>, MenuEvent)>(result: EventResult<Menu<T, F>>) -> (lifted:
    EventResult<Layer<T, F>>)
    ensures
        lifted@ == menu_result(result@),
{
    match result {
        EventResult::Ignored(callback) => EventResult::Ignored(lift_callback(callback)),
        EventResult::Consumed(callback) => EventResult::Consumed(lift_callback(callback)),
    }
}

impl<T: Item, F: Fn(&Editor, Option<&T>, MenuEvent)> Layer<T, F> {
    /// Whether the layer can paint on a surface of its own: texts and info boxes can, menus
    /// cannot.
    pub fn can_render_ext(&self) -> (can: bool)
        ensures
            can == Self::paints_ext(self@),
    {
        match self {
            Layer::Menu(_) => false,
            Layer::Text(_) => true,
            Layer::Info(_) => true,
        }
    }
}

impl<T: Item, F: Fn(&Editor, Option<&T>, MenuEvent)> Compositor<Layer<T, F>> {
    /// Whether every layer can paint on a surface of its own, which is what
    /// [`Compositor::render_ext`] asks for.
    pub fn can_render_ext(&self) -> (can: bool)
        ensures
            can == forall|i: int| 0 <= i < self@.layers.len() ==> Layer::<T, F>::paints_ext(#[trigger] self@.layers[i]),
    {
        let mut i: usize = 0;
        while i < self.layers.len()
            invariant
                i <= self.layers.len(),
                forall|j: int| 0 <= j < i ==> Layer::<T, F>::paints_ext(#[trigger] self@.layers[j]),
            decreases self.layers.len() - i,
        {
            if !self.layers[i].can_render_ext() {
                assert(!Layer::<T, F>::paints_ext(self@.layers[i as int]));
                return false;
            }
            i += 1;
        }
        true
    }

    /// Lets each layer paint onto its own surface of the registry, if every layer can, and
    /// says whether they did. Nothing is painted where a layer cannot.
    pub fn try_render_ext(&mut self, cx: &mut ContextExt) -> (done: bool)
        ensures
            done == forall|i: int|
                0 <= i < old(self)@.layers.len() ==> Layer::<T, F>::paints_ext(#[trigger] old(self)@.layers[i]),
            done ==> final(self)@ == (crate::compositor::CompositorView {
                layers: crate::compositor::painted_ext_from::<Layer<T, F>>(old(self)@.layers, old(cx)@, 0).0,
                ..old(self)@
            }) && final(cx)@ == crate::compositor::painted_ext_from::<Layer<T, F>>(old(self)@.layers, old(cx)@, 0).1,
            !done ==> final(self)@ == old(self)@ && final(cx)@ == old(cx)@,
    {
        if self.can_render_ext() {
            self.render_ext(cx);
            true
        } else {
            false
        }
    }
}

impl<T: Item, F: Fn(&Editor, Option<&T>, MenuEvent)> Component for Layer<T, F> {
    open spec fn handled(v: LayerView<T>, event: Event, cx: ContextView) -> (
        LayerView<T>,
        EventResultView<LayerView<T>>,
        ContextView,
    ) {
        match v {
            LayerView::Menu(menu) => {
                let (after, result, cx_after) = Menu::<T, F>::handled(menu, event, cx);
                (LayerView::Menu(after), menu_result(result), cx_after)
            },
            LayerView::Text(text) => (LayerView::Text(text), EventResultView::Ignored(None), cx),
            LayerView::Info(info) => (LayerView::Info(info), EventResultView::Ignored(None), cx),
        }
    }

    fn handle_event(&mut self, event: &Event, cx: &mut Context) -> (result: EventResult<Self>) {
        match self {
            Layer::Menu(menu) => lift_result(menu.handle_event(event, cx)),
            Layer::Text(text) => {
                let _ = text.handle_event(event, cx);
                EventResult::Ignored(None)
            },
            Layer::Info(info) => {
                let _ = info.handle_event(event, cx);
                EventResult::Ignored(None)
            },
        }
    }

    open spec fn updates(v: LayerView<T>) -> bool {
        match v {
            LayerView::Menu(menu) => Menu::<T, F>::updates(menu),
            LayerView::Text(text) => Text::updates(text),
            LayerView::Info(info) => Info::updates(info),
        }
    }

    fn should_update(&self) -> (update: bool) {
        match self {
            Layer::Menu(menu) => menu.should_update(),
            Layer::Text(text) => text.should_update(),
            Layer::Info(info) => info.should_update(),
        }
    }

    open spec fn rendered(v: LayerView<T>, area: Rect, cx: ContextView) -> (LayerView<T>, Seq<PaintView>, ContextView) {
        match v {
            LayerView::Menu(menu) => {
                let (after, paints, cx_after) = Menu::<T, F>::rendered(menu, area, cx);
                (LayerView::Menu(after), paints, cx_after)
            },
            LayerView::Text(text) => {
                let (after, paints, cx_after) = Text::rendered(text, area, cx);
                (LayerView::Text(after), paints, cx_after)
            },
            LayerView::Info(info) => {
                let (after, paints, cx_after) = Info::rendered(info, area, cx);
                (LayerView::Info(after), paints, cx_after)
            },
        }
    }

    fn render(&mut self, area: Rect, frame: &mut Surface, cx: &mut Context) {
        match self {
            Layer::Menu(menu) => menu.render(area, frame, cx),
            Layer::Text(text) => text.render(area, frame, cx),
            Layer::Info(info) => info.render(area, frame, cx),
        }
    }

    open spec fn paints_ext(v: LayerView<T>) -> bool {
        match v {
            LayerView::Menu(menu) => Menu::<T, F>::paints_ext(menu),
            LayerView::Text(text) => Text::paints_ext(text),
            LayerView::Info(info) => Info::paints_ext(info),
        }
    }

    open spec fn rendered_ext(v: LayerView<T>, cx: ContextExtView) -> (LayerView<T>, ContextExtView) {
        match v {
            LayerView::Menu(menu) => {
                let (after, cx_after) = Menu::<T, F>::rendered_ext(menu, cx);
                (LayerView::Menu(after), cx_after)
            },
            LayerView::Text(text) => {
                let (after, cx_after) = Text::rendered_ext(text, cx);
                (LayerView::Text(after), cx_after)
            },
            LayerView::Info(info) => {
                let (after, cx_after) = Info::rendered_ext(info, cx);
                (LayerView::Info(after), cx_after)
            },
        }
    }

    fn render_ext(&mut self, cx: &mut ContextExt) {
        match self {
            Layer::Menu(menu) => menu.render_ext(cx),
            Layer::Text(text) => text.render_ext(cx),
            Layer::Info(info) => info.render_ext(cx),
        }
    }

    open spec fn cursor_at(v: LayerView<T>, area: Rect, editor: EditorView) -> (Option<Position>, CursorKind) {
        match v {
            LayerView::Menu(menu) => Menu::<T, F>::cursor_at(menu, area, editor),
            LayerView::Text(text) => Text::cursor_at(text, area, editor),
            LayerView::Info(info) => Info::cursor_at(info, area, editor),
        }
    }

    fn cursor(&self, area: Rect, editor: &Editor) -> (at: (Option<Position>, CursorKind)) {
        match self {
            Layer::Menu(menu) => menu.cursor(area, editor),
            Layer::Text(text) => text.cursor(area, editor),
            Layer::Info(info) => info.cursor(area, editor),
        }
    }

    open spec fn cursor_anchors(v: LayerView<T>, editor: EditorView) -> Option<(Seq<Position>, Seq<char>)> {
        match v {
            LayerView::Menu(menu) => Menu::<T, F>::cursor_anchors(menu, editor),
            LayerView::Text(text) => Text::cursor_anchors(text, editor),
            LayerView::Info(info) => Info::cursor_anchors(info, editor),
        }
    }

    fn cursor_ext(&self, editor: &Editor) -> (anchors: Option<(Vec<Position>, &str)>) {
        match self {
            Layer::Menu(menu) => menu.cursor_ext(editor),
            Layer::Text(text) => text.cursor_ext(editor),
            Layer::Info(info) => info.cursor_ext(editor),
        }
    }

    open spec fn sized(v: LayerView<T>, viewport: (u16, u16)) -> (LayerView<T>, Option<(u16, u16)>) {
        match v {
            LayerView::Menu(menu) => {
                let (after, size) = Menu::<T, F>::sized(menu, viewport);
                (LayerView::Menu(after), size)
            },
            LayerView::Text(text) => {
                let (after, size) = Text::sized(text, viewport);
                (LayerView::Text(after), size)
            },
            LayerView::Info(info) => {
                let (after, size) = Info::sized(info, viewport);
                (LayerView::Info(after), size)
            },
        }
    }

    fn required_size(&mut self, viewport: (u16, u16)) -> (size: Option<(u16, u16)>) {
        match self {
            Layer::Menu(menu) => menu.required_size(viewport),
            Layer::Text(text) => text.required_size(viewport),
            Layer::Info(info) => info.required_size(viewport),
        }
    }

    open spec fn kind_of(v: LayerView<T>) -> Seq<char> {
        match v {
            LayerView::Menu(menu) => Menu::<T, F>::kind_of(menu),
            LayerView::Text(text) => Text::kind_of(text),
            LayerView::Info(info) => Info::kind_of(info),
        }
    }

    fn kind(&self) -> (name: &'static str) {
        match self {
            Layer::Menu(menu) => menu.kind(),
            Layer::Text(text) => text.kind(),
            Layer::Info(info) => info.kind(),
        }
    }

    open spec fn id_of(v: LayerView<T>) -> Option<Seq<char>> {
        match v {
            LayerView::Menu(menu) => Menu::<T, F>::id_of(menu),
            LayerView::Text(text) => Text::id_of(text),
            LayerView::Info(info) => Info::id_of(info),
        }
    }

    fn id(&self) -> (id: Option<&'static str>) {
        match self {
            Layer::Menu(menu) => menu.id(),
            Layer::Text(text) => text.id(),
            Layer::Info(info) => info.id(),
        }
    }
}

impl<T: Item, F: Fn(&Editor, Option<&T>, MenuEvent)> AnyComponent<Menu<T, F>> for Layer<T, F> {
    open spec fn held(&self) -> Option<Menu<T, F>> {
        match *self {
            Layer::Menu(menu) => Some(menu),
            _ => None,
        }
    }

    fn as_any(&self) -> (component: Option<&Menu<T, F>>) {
        match self {
            Layer::Menu(menu) => Some(menu),
            _ => None,
        }
    }

    fn as_any_mut(&mut self) -> (component: Option<&mut Menu<T, F>>) {
        match self {
            Layer::Menu(menu) => Some(menu),
            _ => None,
        }
    }

    fn as_boxed_any(self: Box<Self>) -> (component: Option<Box<Menu<T, F>>>) {
        match *self {
            Layer::Menu(menu) => Some(Box::new(menu)),
            _ => None,
        }
    }
}

impl<T: Item, F: Fn(&Editor, Option<&T>, MenuEvent)> AnyComponent<Text> for Layer<T, F> {
    open spec fn held(&self) -> Option<Text> {
        match *self {
            Layer::Text(text) => Some(text),
            _ => None,
        }
    }

    fn as_any(&self) -> (component: Option<&Text>) {
        match self {
            Layer::Text(text) => Some(text),
            _ => None,
        }
    }

    fn as_any_mut(&mut self) -> (component: Option<&mut Text>) {
        match self {
            Layer::Text(text) => Some(text),
            _ => None,
        }
    }

    fn as_boxed_any(self: Box<Self>) -> (component: Option<Box<Text>>) {
        match *self {
            Layer::Text(text) => Some(Box::new(text)),
            _ => None,
        }
    }
}

impl<T: Item, F: Fn(&Editor, Option<&T>, MenuEvent)> AnyComponent<Info> for Layer<T, F> {
    open spec fn held(&self) -> Option<Info> {
        match *self {
            Layer::Info(info) => Some(info),
            _ => None,
        }
    }

    fn as_any(&self) -> (component: Option<&Info>) {
        match self {
            Layer::Info(info) => Some(info),
            _ => None,
        }
    }

    fn as_any_mut(&mut self) -> (component: Option<&mut Info>) {
        match self {
            Layer::Info(info) => Some(info),
            _ => None,
        }
    }

    fn as_boxed_any(self: Box<Self>) -> (component: Option<Box<Info>>) {
        match *self {
            Layer::Info(info) => Some(Box::new(info)),
            _ => None,
        }
    }
}

} // verus!
