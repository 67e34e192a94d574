//! The compositor: an ordered stack of components, the topmost last.
//!
//! Input events travel from the topmost layer downwards until a layer consumes them. What a
//! layer asks to be done to the stack is carried out once the event has been offered to
//! every layer it reaches. Painting goes the other way, bottom layer first, so that upper
//! layers paint over lower ones.
use vstd::prelude::*;
use crate::graphics::{CursorKind, Position, Rect};
use crate::input::{Event, KeyEvent};
use crate::registry::SurfacesMap;
use crate::surface::{PaintView, Surface, SurfaceView};

verus! {

/// The part of the application's state that the compositor and its components see.
#[derive(Clone, Debug, PartialEq, Eq)]
pub struct Editor {
    /// The macro that is being recorded: its register and the keys pressed so far.
    pub macro_recording: Option<(char, Vec<KeyEvent>)>,
}

/// An [`Editor`] as a mathematical value.
pub struct EditorView {
    pub macro_recording: Option<(char, Seq<KeyEvent>)>,
}

impl View for Editor {
    type V = EditorView;

    open spec fn view(&self) -> EditorView {
        EditorView {
            macro_recording: match self.macro_recording {
                Some((register, keys)) => Some((register, keys@)),
                None => None,
            },
        }
    }
}

impl Editor {
    /// An editor that records no macro.
    pub fn new() -> (editor: Editor)
        ensures
            editor@ == (EditorView { macro_recording: None }),
    {
        Editor { macro_recording: None }
    }
}

/// What a component is handed together with an event or a request to paint.
#[derive(Clone, Debug, PartialEq, Eq)]
pub struct Context {
    pub editor: Editor,
    pub scroll: Option<usize>,
}

/// A [`Context`] as a mathematical value.
pub struct ContextView {
    pub editor: EditorView,
    pub scroll: Option<usize>,
}

impl View for Context {
    type V = ContextView;

    open spec fn view(&self) -> ContextView {
        ContextView { editor: self.editor@, scroll: self.scroll }
    }
}

/// What a component is handed when it paints on a surface of its own: the usual context,
/// the registry of surfaces, and the geometry of the editor and the screen.
pub struct ContextExt {
    pub vanilla: Context,
    pub surfaces: SurfacesMap,
    pub editor_area: Rect,
    pub screen_area: Rect,
}

/// A [`ContextExt`] as a mathematical value.
pub struct ContextExtView {
    pub vanilla: ContextView,
    pub surfaces: Map<Seq<char>, SurfaceView>,
    pub editor_area: Rect,
    pub screen_area: Rect,
}

impl View for ContextExt {
    type V = ContextExtView;

    open spec fn view(&self) -> ContextExtView {
        ContextExtView {
            vanilla: self.vanilla@,
            surfaces: self.surfaces@,
            editor_area: self.editor_area,
            screen_area: self.screen_area,
        }
    }
}

/// Something a layer asks the compositor to do to the stack once the event at hand has
/// been offered to every layer it reaches.
pub enum Callback<C> {
    /// Take the topmost layer off.
    Pop,
    /// Put a layer on top.
    Push(C),
    /// Put a layer in the place of the layer with the given id, or on top if there is none.
    ReplaceOrPush(&'static str, C),
    /// Take out the layer with the given id.
    Remove(&'static str),
}

/// A [`Callback`] as a mathematical value.
pub enum CallbackView<V> {
    Pop,
    Push(V),
    ReplaceOrPush(Seq<char>, V),
    Remove(Seq<char>),
}

impl<C: View> View for Callback<C> {
    type V = CallbackView<C::V>;

    open spec fn view(&self) -> CallbackView<C::V> {
        match *self {
            Callback::Pop => CallbackView::Pop,
            Callback::Push(layer) => CallbackView::Push(layer@),
            Callback::ReplaceOrPush(id, layer) => CallbackView::ReplaceOrPush(id@, layer@),
            Callback::Remove(id) => CallbackView::Remove(id@),
        }
    }
}

/// What a layer answers to an event: whether it consumed it, and what it asks for.
pub enum EventResult<C> {
    /// The layer has no use for the event: the layer below is offered it.
    Ignored(Option<Callback<C>>),
    /// The layer took the event: no layer below sees it.
    Consumed(Option<Callback<C>>),
}

/// An [`EventResult`] as a mathematical value.
pub enum EventResultView<V> {
    Ignored(Option<CallbackView<V>>),
    Consumed(Option<CallbackView<V>>),
}

/// A callback that may be absent, as a mathematical value.
pub open spec fn callback_view<C: View>(callback: Option<Callback<C>>) -> Option<CallbackView<C::V>> {
    match callback {
        Some(c) => Some(c@),
        None => None,
    }
}

impl<C: View> View for EventResult<C> {
    type V = EventResultView<C::V>;

    open spec fn view(&self) -> EventResultView<C::V> {
        match *self {
            EventResult::Ignored(callback) => EventResultView::Ignored(callback_view(callback)),
            EventResult::Consumed(callback) => EventResultView::Consumed(callback_view(callback)),
        }
    }
}

impl<V> EventResultView<V> {
    /// Whether the layer took the event.
    pub open spec fn is_consumed(self) -> bool {
        self is Consumed
    }

    /// What the layer asks for.
    pub open spec fn callback(self) -> Option<CallbackView<V>> {
        match self {
            EventResultView::Ignored(callback) => callback,
            EventResultView::Consumed(callback) => callback,
        }
    }
}

impl<C: View> EventResult<C> {
    /// Whether the layer took the event.
    pub fn is_consumed(&self) -> (consumed: bool)
        ensures
            consumed == self@.is_consumed(),
    {
        match self {
            EventResult::Consumed(_) => true,
            EventResult::Ignored(_) => false,
        }
    }

    /// What the layer asks for.
    pub fn into_callback(self) -> (callback: Option<Callback<C>>)
        ensures
            callback_view(callback) == self@.callback(),
    {
        match self {
            EventResult::Ignored(callback) => callback,
            EventResult::Consumed(callback) => callback,
        }
    }
}

/// `std`'s equality of string slices: they are equal when they hold the same characters.
pub assume_specification[ <str as PartialEq>::eq ](a: &str, b: &str) -> (equal: bool)
    ensures
        equal == (a@ == b@),
;

/// Whether `id` is the name `wanted`.
pub fn id_is(id: Option<&'static str>, wanted: &str) -> (same: bool)
    ensures
        same == (id matches Some(name) && name@ == wanted@),
{
    match id {
        Some(name) => name.eq(wanted),
        None => false,
    }
}

/// One node of the interface.
///
/// Each operation comes with a function of the same meaning on the component's view, which
/// says what the operation does.
pub trait Component: View + Sized {
    /// What [`Component::handle_event`] does: the component afterwards, its answer, and
    /// the context afterwards.
    spec fn handled(v: Self::V, event: Event, cx: ContextView) -> (
        Self::V,
        EventResultView<Self::V>,
        ContextView,
    );

    /// Takes an input event. A component that has no use for events answers
    /// `Ignored(None)` and changes nothing.
    fn handle_event(&mut self, event: &Event, cx: &mut Context) -> (result: EventResult<Self>)
        ensures
            (final(self)@, result@, final(cx)@) == Self::handled(old(self)@, *event, old(cx)@),
    ;

    /// What [`Component::should_update`] answers.
    spec fn updates(v: Self::V) -> bool;

    /// Whether the component may look different from when it was painted last. A component
    /// that cannot tell answers `true`.
    fn should_update(&self) -> (update: bool)
        ensures
            update == Self::updates(self@),
    ;

    /// What [`Component::render`] does: the component afterwards, the steps it paints, and
    /// the context afterwards.
    spec fn rendered(v: Self::V, area: Rect, cx: ContextView) -> (Self::V, Seq<PaintView>, ContextView);

    /// Paints the component onto `frame`, over what is there. The component is given
    /// `area`; keeping inside it is the component's own business.
    fn render(&mut self, area: Rect, frame: &mut Surface, cx: &mut Context)
        ensures
            final(self)@ == Self::rendered(old(self)@, area, old(cx)@).0,
            final(frame)@ == old(frame)@.painted(Self::rendered(old(self)@, area, old(cx)@).1),
            final(cx)@ == Self::rendered(old(self)@, area, old(cx)@).2,
    ;

    /// Whether the component can paint on a surface of its own.
    spec fn paints_ext(v: Self::V) -> bool;

    /// What [`Component::render_ext`] does: the component and the context afterwards.
    spec fn rendered_ext(v: Self::V, cx: ContextExtView) -> (Self::V, ContextExtView);

    /// Paints the component onto the surface that the registry keeps under the component's
    /// id. Only for components that can.
    fn render_ext(&mut self, cx: &mut ContextExt)
        requires
            Self::paints_ext(old(self)@),
        ensures
            (final(self)@, final(cx)@) == Self::rendered_ext(old(self)@, old(cx)@),
    ;

    /// What [`Component::cursor`] answers.
    spec fn cursor_at(v: Self::V, area: Rect, editor: EditorView) -> (Option<Position>, CursorKind);

    /// Where the component wants the cursor, if it wants one, and in which shape. A
    /// component without a cursor answers no position and [`CursorKind::Hidden`].
    fn cursor(&self, area: Rect, editor: &Editor) -> (at: (Option<Position>, CursorKind))
        ensures
            at == Self::cursor_at(self@, area, editor@),
    ;

    /// What [`Component::cursor_ext`] answers.
    spec fn cursor_anchors(v: Self::V, editor: EditorView) -> Option<(Seq<Position>, Seq<char>)>;

    /// The places the host should anchor its cursor to, with a label, if there are any.
    fn cursor_ext(&self, editor: &Editor) -> (anchors: Option<(Vec<Position>, &str)>)
        ensures
            match anchors {
                Some((places, label)) => Self::cursor_anchors(self@, editor@) == Some((places@, label@)),
                None => Self::cursor_anchors(self@, editor@).is_none(),
            },
    ;

    /// What [`Component::required_size`] does: the component afterwards, and its answer.
    spec fn sized(v: Self::V, viewport: (u16, u16)) -> (Self::V, Option<(u16, u16)>);

    /// The width and height the component would like, given the width and height there is.
    /// The answer may be larger than the viewport; what to do then is the caller's choice.
    /// A component without wishes answers `None`.
    fn required_size(&mut self, viewport: (u16, u16)) -> (size: Option<(u16, u16)>)
        ensures
            (final(self)@, size) == Self::sized(old(self)@, viewport),
    ;

    /// What [`Component::kind`] answers.
    spec fn kind_of(v: Self::V) -> Seq<char>;

    /// The name of the component's kind. Components of different kinds have different
    /// names.
    fn kind(&self) -> (name: &'static str)
        ensures
            name@ == Self::kind_of(self@),
    ;

    /// What [`Component::id`] answers.
    spec fn id_of(v: Self::V) -> Option<Seq<char>>;

    /// The name under which the layer can be found in the stack, if it has one.
    fn id(&self) -> (id: Option<&'static str>)
        ensures
            match id {
                Some(name) => Self::id_of(self@) == Some(name@),
                None => Self::id_of(self@).is_none(),
            },
    ;
}

/// The views of `layers`, in order.
pub open spec fn layer_views<C: View>(layers: Seq<C>) -> Seq<C::V> {
    layers.map_values(|c: C| c@)
}

/// The views of `callbacks`, in order.
pub open spec fn callback_views<C: View>(callbacks: Seq<Callback<C>>) -> Seq<CallbackView<C::V>> {
    callbacks.map_values(|c: Callback<C>| c@)
}

/// No callback or one callback, as a sequence.
pub open spec fn optional<A>(item: Option<A>) -> Seq<A> {
    match item {
        Some(a) => seq![a],
        None => Seq::empty(),
    }
}

/// The stack of layers, the topmost last, and the viewport.
pub struct Compositor<C: Component> {
    pub layers: Vec<C>,
    pub area: Rect,
}

/// A [`Compositor`] as a mathematical value.
pub struct CompositorView<V> {
    /// The layers from the bottom to the top.
    pub layers: Seq<V>,
    /// The viewport.
    pub area: Rect,
}

impl<C: Component> View for Compositor<C> {
    type V = CompositorView<C::V>;

    open spec fn view(&self) -> CompositorView<C::V> {
        CompositorView { layers: layer_views(self.layers@), area: self.area }
    }
}

/// The context after the key of `event` was added to the macro that is being recorded.
/// Nothing changes where `event` is no key press or no macro is being recorded.
pub open spec fn recorded(cx: ContextView, event: Event) -> ContextView {
    match (event, cx.editor.macro_recording) {
        (Event::Key(key), Some((register, keys))) => ContextView {
            editor: EditorView { macro_recording: Some((register, keys.push(key))) },
            ..cx
        },
        _ => cx,
    }
}

/// How offering an event to the layers ended.
pub struct Dispatch<V> {
    /// The layers afterwards.
    pub layers: Seq<V>,
    /// Whether a layer consumed the event.
    pub consumed: bool,
    /// What the layers asked for, the request of the topmost layer first.
    pub callbacks: Seq<CallbackView<V>>,
    /// The context afterwards.
    pub cx: ContextView,
}

/// Offers `event` to the layers below index `upto`, the upper ones first, until one of them
/// consumes it. `callbacks` holds what the layers above asked for.
pub open spec fn scan<C: Component>(
    layers: Seq<C::V>,
    event: Event,
    cx: ContextView,
    upto: int,
    callbacks: Seq<CallbackView<C::V>>,
) -> Dispatch<C::V>
    decreases upto,
{
    if upto <= 0 || upto > layers.len() {
        Dispatch { layers, consumed: false, callbacks, cx }
    } else {
        let (layer, result, cx_after) = C::handled(layers[upto - 1], event, cx);
        let layers_after = layers.update(upto - 1, layer);
        let callbacks_after = callbacks + optional(result.callback());
        if result.is_consumed() {
            Dispatch { layers: layers_after, consumed: true, callbacks: callbacks_after, cx: cx_after }
        } else {
            scan::<C>(layers_after, event, cx_after, upto - 1, callbacks_after)
        }
    }
}

/// The context with which the layer at index `k` is offered `event`, where the event is
/// offered to the layers below index `upto`, the upper ones first, starting with `cx`.
/// `None` where the event does not get as far as that layer.
pub open spec fn offered<C: Component>(
    layers: Seq<C::V>,
    event: Event,
    cx: ContextView,
    upto: int,
    k: int,
) -> Option<ContextView>
    decreases upto,
{
    if upto <= 0 || upto > layers.len() || k >= upto || k < 0 {
        None
    } else if k == upto - 1 {
        Some(cx)
    } else {
        let (layer, result, cx_after) = C::handled(layers[upto - 1], event, cx);
        if result.is_consumed() {
            None
        } else {
            offered::<C>(layers.update(upto - 1, layer), event, cx_after, upto - 1, k)
        }
    }
}

/// The lowest index at or above `from` of a layer with the id `id`.
pub open spec fn position_of<C: Component>(layers: Seq<C::V>, id: Seq<char>, from: int) -> Option<int>
    decreases layers.len() - from,
{
    if from < 0 || from >= layers.len() {
        None
    } else if C::id_of(layers[from]) == Some(id) {
        Some(from)
    } else {
        position_of::<C>(layers, id, from + 1)
    }
}

/// The stack after `layer` was put on top: the layer is asked for its size once, with the
/// size of the viewport, and goes on top as that left it.
pub open spec fn pushed<C: Component>(layers: Seq<C::V>, area: Rect, layer: C::V) -> Seq<C::V> {
    layers.push(C::sized(layer, (area.width, area.height)).0)
}

/// The stack after `layer` took the place of the lowest layer with the id `id`, or was put
/// on top where no layer has that id.
pub open spec fn replaced_or_pushed<C: Component>(
    layers: Seq<C::V>,
    area: Rect,
    id: Seq<char>,
    layer: C::V,
) -> Seq<C::V> {
    match position_of::<C>(layers, id, 0) {
        Some(i) => layers.update(i, layer),
        None => pushed::<C>(layers, area, layer),
    }
}

/// The stack without its topmost layer.
pub open spec fn popped<V>(layers: Seq<V>) -> Seq<V> {
    if layers.len() > 0 {
        layers.drop_last()
    } else {
        layers
    }
}

/// The stack without the lowest layer with the id `id`.
pub open spec fn removed<C: Component>(layers: Seq<C::V>, id: Seq<char>) -> Seq<C::V> {
    match position_of::<C>(layers, id, 0) {
        Some(i) => layers.remove(i),
        None => layers,
    }
}

/// The stack after one callback was carried out.
pub open spec fn applied_one<C: Component>(layers: Seq<C::V>, area: Rect, callback: CallbackView<C::V>) -> Seq<C::V> {
    match callback {
        CallbackView::Pop => popped(layers),
        CallbackView::Push(layer) => pushed::<C>(layers, area, layer),
        CallbackView::ReplaceOrPush(id, layer) => replaced_or_pushed::<C>(layers, area, id, layer),
        CallbackView::Remove(id) => removed::<C>(layers, id),
    }
}

/// The stack after `callbacks` were carried out, the first one first.
pub open spec fn applied<C: Component>(layers: Seq<C::V>, area: Rect, callbacks: Seq<CallbackView<C::V>>) -> Seq<C::V>
    decreases callbacks.len(),
{
    if callbacks.len() == 0 {
        layers
    } else {
        applied::<C>(applied_one::<C>(layers, area, callbacks[0]), area, callbacks.drop_first())
    }
}

/// What [`Compositor::handle_event`] does: the compositor afterwards, whether the event was
/// consumed, and the context afterwards.
pub open spec fn dispatched<C: Component>(v: CompositorView<C::V>, event: Event, cx: ContextView) -> (
    CompositorView<C::V>,
    bool,
    ContextView,
) {
    let d = scan::<C>(v.layers, event, recorded(cx, event), v.layers.len() as int, Seq::empty());
    (CompositorView { layers: applied::<C>(d.layers, v.area, d.callbacks), area: v.area }, d.consumed, d.cx)
}

/// How painting the layers ended.
pub struct Painting<V> {
    /// The layers afterwards.
    pub layers: Seq<V>,
    /// The steps painted, oldest first.
    pub paints: Seq<PaintView>,
    /// The context afterwards.
    pub cx: ContextView,
}

/// Paints the layers from index `from` upwards into `area`, the lower ones first, after
/// `paints` were painted.
pub open spec fn painted_from<C: Component>(
    layers: Seq<C::V>,
    area: Rect,
    cx: ContextView,
    paints: Seq<PaintView>,
    from: int,
) -> Painting<C::V>
    decreases layers.len() - from,
{
    if from < 0 || from >= layers.len() {
        Painting { layers, paints, cx }
    } else {
        let (layer, more, cx_after) = C::rendered(layers[from], area, cx);
        painted_from::<C>(layers.update(from, layer), area, cx_after, paints + more, from + 1)
    }
}

/// Lets the layers from index `from` upwards paint on their own surfaces, the lower ones
/// first.
pub open spec fn painted_ext_from<C: Component>(layers: Seq<C::V>, cx: ContextExtView, from: int) -> (
    Seq<C::V>,
    ContextExtView,
)
    decreases layers.len() - from,
{
    if from < 0 || from >= layers.len() {
        (layers, cx)
    } else {
        let (layer, cx_after) = C::rendered_ext(layers[from], cx);
        painted_ext_from::<C>(layers.update(from, layer), cx_after, from + 1)
    }
}

/// Whether the layer at index `k` is the topmost one that wants the cursor.
pub open spec fn topmost_cursor<C: Component>(layers: Seq<C::V>, area: Rect, editor: EditorView, k: int) -> bool {
    &&& 0 <= k < layers.len()
    &&& C::cursor_at(layers[k], area, editor).0.is_some()
    &&& forall|j: int| k < j < layers.len() ==> (#[trigger] C::cursor_at(layers[j], area, editor)).0.is_none()
}

/// Whether the layer at index `k` is the topmost one with cursor anchors for the host.
pub open spec fn topmost_anchors<C: Component>(layers: Seq<C::V>, editor: EditorView, k: int) -> bool {
    &&& 0 <= k < layers.len()
    &&& C::cursor_anchors(layers[k], editor).is_some()
    &&& forall|j: int| k < j < layers.len() ==> (#[trigger] C::cursor_anchors(layers[j], editor)).is_none()
}

fn record_key(event: &Event, cx: &mut Context)
    ensures
        final(cx)@ == recorded(old(cx)@, *event),
{
    match event {
        Event::Key(key) => {
            match &mut cx.editor.macro_recording {
                Some((_, keys)) => {
                    keys.push(*key);
                },
                None => {},
            }
        },
        _ => {},
    }
}

impl<C: Component> Compositor<C> {
    pub fn new(area: Rect) -> (compositor: Self)
        ensures
            compositor@ == (CompositorView { layers: Seq::<C::V>::empty(), area }),
    {
        let compositor = Compositor { layers: Vec::new(), area };
        assert(compositor@.layers =~= Seq::empty());
        compositor
    }

    /// The viewport.
    pub fn size(&self) -> (area: Rect)
        ensures
            area == self@.area,
    {
        self.area
    }

    /// Takes `area` as the viewport.
    pub fn resize(&mut self, area: Rect)
        ensures
            final(self)@ == (CompositorView { area, ..old(self)@ }),
    {
        self.area = area;
    }

    /// Adds a layer to be painted in front of all existing layers.
    pub fn push(&mut self, layer: C)
        ensures
            final(self)@ == (CompositorView {
                layers: pushed::<C>(old(self)@.layers, old(self)@.area, layer@),
                ..old(self)@
            }),
    {
        let size = self.size();
        let ghost given = layer@;
        let mut layer = layer;
        // The layer works out its size once before it is shown.
        layer.required_size((size.width, size.height));
        self.layers.push(layer);
        assert(self@.layers =~= pushed::<C>(old(self)@.layers, old(self)@.area, given));
    }

    /// The index of the lowest layer with the id `id`.
    pub fn position(&self, id: &str) -> (at: Option<usize>)
        ensures
            match at {
                Some(i) => position_of::<C>(self@.layers, id@, 0) == Some(i as int) && i < self.layers.len(),
                None => position_of::<C>(self@.layers, id@, 0).is_none(),
            },
    {
        let mut i: usize = 0;
        while i < self.layers.len()
            invariant
                i <= self.layers.len(),
                position_of::<C>(self@.layers, id@, 0) == position_of::<C>(self@.layers, id@, i as int),
            decreases self.layers.len() - i,
        {
            if id_is(self.layers[i].id(), id) {
                return Some(i);
            }
            i += 1;
        }
        None
    }

    /// Puts `layer` in the place of the layer with the id `id`, and on top of the stack if
    /// no layer has that id.
    pub fn replace_or_push(&mut self, id: &'static str, layer: C)
        ensures
            final(self)@ == (CompositorView {
                layers: replaced_or_pushed::<C>(old(self)@.layers, old(self)@.area, id@, layer@),
                ..old(self)@
            }),
    {
        match self.position(id) {
            Some(i) => {
                self.layers[i] = layer;
                assert(self@.layers =~= old(self)@.layers.update(i as int, layer@));
            },
            None => {
                self.push(layer);
            },
        }
    }

    /// Takes the topmost layer off the stack.
    pub fn pop(&mut self) -> (top: Option<C>)
        ensures
            final(self)@ == (CompositorView { layers: popped(old(self)@.layers), ..old(self)@ }),
            match top {
                Some(layer) => old(self)@.layers.len() > 0 && layer@ == old(self)@.layers.last(),
                None => old(self)@.layers.len() == 0,
            },
    {
        let top = self.layers.pop();
        assert(self@.layers =~= popped(old(self)@.layers));
        top
    }

    /// Takes the lowest layer with the id `id` out of the stack. The other layers keep
    /// their order.
    pub fn remove(&mut self, id: &'static str) -> (layer: Option<C>)
        ensures
            final(self)@ == (CompositorView { layers: removed::<C>(old(self)@.layers, id@), ..old(self)@ }),
            match layer {
                Some(l) => position_of::<C>(old(self)@.layers, id@, 0) matches Some(i) && l@
                    == old(self)@.layers[i],
                None => position_of::<C>(old(self)@.layers, id@, 0).is_none(),
            },
    {
        match self.position(id) {
            Some(i) => {
                let layer = self.layers.remove(i);
                assert(self@.layers =~= old(self)@.layers.remove(i as int));
                Some(layer)
            },
            None => None,
        }
    }

    /// Offers `event` to the layers, the topmost first, until one consumes it. The result
    /// says whether one did, and what the layers asked for, the request of the topmost
    /// layer first. Nothing that was asked for has been carried out yet.
    pub fn offer(&mut self, event: &Event, cx: &mut Context) -> (outcome: (bool, Vec<Callback<C>>))
        ensures
            ({
                let d = scan::<C>(
                    old(self)@.layers,
                    *event,
                    old(cx)@,
                    old(self)@.layers.len() as int,
                    Seq::empty(),
                );
                &&& final(self)@ == (CompositorView { layers: d.layers, ..old(self)@ })
                &&& outcome.0 == d.consumed
                &&& callback_views(outcome.1@) == d.callbacks
                &&& final(cx)@ == d.cx
            }),
    {
        let mut callbacks: Vec<Callback<C>> = Vec::new();
        let mut consumed = false;
        let mut i = self.layers.len();
        let ghost goal = scan::<C>(
            old(self)@.layers,
            *event,
            old(cx)@,
            old(self)@.layers.len() as int,
            Seq::empty(),
        );
        assert(callback_views(callbacks@) =~= Seq::empty());
        // Events fall through the layers from the front to the back, until a layer
        // consumes them or no layer is left.
        while i > 0 && !consumed
            invariant
                i <= self.layers.len(),
                self@.area == old(self)@.area,
                consumed ==> goal == (Dispatch {
                    layers: self@.layers,
                    consumed: true,
                    callbacks: callback_views(callbacks@),
                    cx: cx@,
                }),
                !consumed ==> goal == scan::<C>(self@.layers, *event, cx@, i as int, callback_views(callbacks@)),
            decreases i,
        {
            let ghost before = self@.layers;
            let ghost asked = callback_views(callbacks@);
            let ghost cx_before = cx@;
            i -= 1;
            let result = self.layers[i].handle_event(event, cx);
            assert(self@.layers =~= before.update(i as int, C::handled(before[i as int], *event, cx_before).0));
            consumed = result.is_consumed();
            let ghost answer = result@;
            match result.into_callback() {
                Some(callback) => {
                    callbacks.push(callback);
                    assert(callback_views(callbacks@) =~= asked + optional(answer.callback()));
                },
                None => {
                    assert(callback_views(callbacks@) =~= asked + optional(answer.callback()));
                },
            }
        }
        (consumed, callbacks)
    }

    /// Carries out `callbacks`, the first one first.
    pub fn apply(&mut self, callbacks: Vec<Callback<C>>)
        ensures
            final(self)@ == (CompositorView {
                layers: applied::<C>(old(self)@.layers, old(self)@.area, callback_views(callbacks@)),
                ..old(self)@
            }),
    {
        let ghost all = callback_views(callbacks@);
        let ghost goal = applied::<C>(old(self)@.layers, old(self)@.area, all);
        assert(all.skip(0) =~= all);
        for callback in it: callbacks
            invariant
                self@.area == old(self)@.area,
                callback_views(it.seq()) == all,
                goal == applied::<C>(self@.layers, self@.area, all.skip(it.index() as int)),
        {
            assert(all.skip(it.index() as int)[0] == callback@);
            assert(all.skip(it.index() as int).drop_first() =~= all.skip(it.index() + 1));
            match callback {
                Callback::Pop => {
                    self.pop();
                },
                Callback::Push(layer) => {
                    self.push(layer);
                },
                Callback::ReplaceOrPush(id, layer) => {
                    self.replace_or_push(id, layer);
                },
                Callback::Remove(id) => {
                    self.remove(id);
                },
            }
        }
    }

    /// Hands `event` to the layers and says whether one of them consumed it.
    ///
    /// A key press is first added to the macro that is being recorded, if one is. The event
    /// is then offered to the topmost layer, and to the next layer down as long as the
    /// layers ignore it. What the layers asked for is carried out after that, the request
    /// of the topmost layer first.
    pub fn handle_event(&mut self, event: &Event, cx: &mut Context) -> (consumed: bool)
        ensures
            (final(self)@, consumed, final(cx)@) == dispatched::<C>(old(self)@, *event, old(cx)@),
    {
        record_key(event, cx);
        let (consumed, callbacks) = self.offer(event, cx);
        self.apply(callbacks);
        consumed
    }

    /// Paints the layers onto `surface`, the bottom layer first, so that each layer paints
    /// over the layers below it.
    pub fn render(&mut self, area: Rect, surface: &mut Surface, cx: &mut Context)
        ensures
            ({
                let p = painted_from::<C>(old(self)@.layers, area, old(cx)@, Seq::empty(), 0);
                &&& final(self)@ == (CompositorView { layers: p.layers, ..old(self)@ })
                &&& final(surface)@ == old(surface)@.painted(p.paints)
                &&& final(cx)@ == p.cx
            }),
    {
        let ghost goal = painted_from::<C>(old(self)@.layers, area, old(cx)@, Seq::empty(), 0);
        let ghost mut paints: Seq<PaintView> = Seq::empty();
        assert(old(surface)@.painted(paints) =~= old(surface)@);
        let mut i: usize = 0;
        while i < self.layers.len()
            invariant
                i <= self.layers.len(),
                self@.area == old(self)@.area,
                surface@ == old(surface)@.painted(paints),
                goal == painted_from::<C>(self@.layers, area, cx@, paints, i as int),
            decreases self.layers.len() - i,
        {
            let ghost before = self@.layers;
            let ghost cx_before = cx@;
            self.layers[i].render(area, surface, cx);
            let ghost step = C::rendered(before[i as int], area, cx_before);
            assert(self@.layers =~= before.update(i as int, step.0));
            proof {
                assert((old(surface)@.ops + paints) + step.1 =~= old(surface)@.ops + (paints + step.1));
                paints = paints + step.1;
            }
            i += 1;
        }
    }

    /// Lets each layer paint onto its own surface of the registry, the bottom layer first.
    pub fn render_ext(&mut self, cx: &mut ContextExt)
        requires
            forall|i: int| 0 <= i < old(self)@.layers.len() ==> C::paints_ext(#[trigger] old(self)@.layers[i]),
        ensures
            final(self)@ == (CompositorView {
                layers: painted_ext_from::<C>(old(self)@.layers, old(cx)@, 0).0,
                ..old(self)@
            }),
            final(cx)@ == painted_ext_from::<C>(old(self)@.layers, old(cx)@, 0).1,
    {
        let ghost goal = painted_ext_from::<C>(old(self)@.layers, old(cx)@, 0);
        let mut i: usize = 0;
        while i < self.layers.len()
            invariant
                i <= self.layers.len(),
                self@.area == old(self)@.area,
                self@.layers.len() == old(self)@.layers.len(),
                forall|j: int| i <= j < self@.layers.len() ==> self@.layers[j] == old(self)@.layers[j],
                forall|j: int| 0 <= j < old(self)@.layers.len() ==> C::paints_ext(#[trigger] old(self)@.layers[j]),
                goal == painted_ext_from::<C>(self@.layers, cx@, i as int),
            decreases self.layers.len() - i,
        {
            let ghost before = self@.layers;
            let ghost cx_before = cx@;
            assert(C::paints_ext(old(self)@.layers[i as int]));
            self.layers[i].render_ext(cx);
            assert(self@.layers =~= before.update(i as int, C::rendered_ext(before[i as int], cx_before).0));
            i += 1;
        }
    }

    /// Where the cursor goes: what the topmost layer that wants the cursor answers, and no
    /// position and a hidden cursor where no layer wants it.
    pub fn cursor(&self, area: Rect, editor: &Editor) -> (at: (Option<Position>, CursorKind))
        ensures
            match at.0 {
                Some(_) => exists|k: int| #[trigger]
                    topmost_cursor::<C>(self@.layers, area, editor@, k) && at == C::cursor_at(
                        self@.layers[k],
                        area,
                        editor@,
                    ),
                None => at.1 == CursorKind::Hidden && forall|k: int|
                    0 <= k < self@.layers.len() ==> (#[trigger] C::cursor_at(self@.layers[k], area, editor@)).0.is_none(),
            },
    {
        let mut i = self.layers.len();
        while i > 0
            invariant
                i <= self.layers.len(),
                forall|j: int|
                    i <= j < self@.layers.len() ==> (#[trigger] C::cursor_at(self@.layers[j], area, editor@)).0.is_none(),
            decreases i,
        {
            i -= 1;
            let at = self.layers[i].cursor(area, editor);
            if at.0.is_some() {
                assert(topmost_cursor::<C>(self@.layers, area, editor@, i as int));
                return at;
            }
        }
        (None, CursorKind::Hidden)
    }

    /// The cursor anchors for the host: what the topmost layer that has any answers.
    pub fn cursor_ext(&self, editor: &Editor) -> (anchors: Option<(Vec<Position>, &str)>)
        ensures
            match anchors {
                Some((places, label)) => exists|k: int| #[trigger]
                    topmost_anchors::<C>(self@.layers, editor@, k) && C::cursor_anchors(
                        self@.layers[k],
                        editor@,
                    ) == Some((places@, label@)),
                None => forall|k: int|
                    0 <= k < self@.layers.len() ==> (#[trigger] C::cursor_anchors(self@.layers[k], editor@)).is_none(),
            },
    {
        let mut i = self.layers.len();
        while i > 0
            invariant
                i <= self.layers.len(),
                forall|j: int|
                    i <= j < self@.layers.len() ==> (#[trigger] C::cursor_anchors(self@.layers[j], editor@)).is_none(),
            decreases i,
        {
            i -= 1;
            let anchors = self.layers[i].cursor_ext(editor);
            if anchors.is_some() {
                assert(topmost_anchors::<C>(self@.layers, editor@, i as int));
                return anchors;
            }
        }
        None
    }

    /// Whether a layer of the kind `kind` is in the stack.
    pub fn has_component(&self, kind: &str) -> (found: bool)
        ensures
            found == exists|i: int| 0 <= i < self@.layers.len() && #[trigger] C::kind_of(self@.layers[i]) == kind@,
    {
        let mut i: usize = 0;
        while i < self.layers.len()
            invariant
                i <= self.layers.len(),
                forall|j: int| 0 <= j < i ==> #[trigger] C::kind_of(self@.layers[j]) != kind@,
            decreases self.layers.len() - i,
        {
            if self.layers[i].kind().eq(kind) {
                assert(C::kind_of(self@.layers[i as int]) == kind@);
                return true;
            }
            i += 1;
        }
        false
    }
}

/// A layer out of which a component of the kind `K` can be taken, if it holds one.
///
/// This is how a component is told apart from the others in a stack of layers of one
/// type: a layer type says for each kind it can hold whether a given layer holds it.
pub trait AnyComponent<K> {
    /// The component of the kind `K` that the layer holds, if it holds one.
    spec fn held(&self) -> Option<K>;

    /// The component the layer holds, to be read.
    fn as_any(&self) -> (component: Option<&K>)
        ensures
            component == (match self.held() {
                Some(k) => Some(&k),
                None => None,
            }),
    ;

    /// The component the layer holds, to be changed in place. What it is changed to is
    /// what the layer holds afterwards.
    fn as_any_mut(&mut self) -> (component: Option<&mut K>)
        ensures
            match component {
                Some(k) => old(self).held() == Some(*k) && final(self).held() == Some(*final(k)),
                None => old(self).held().is_none() && final(self).held().is_none(),
            },
    ;

    /// The component the layer holds, taken out of the layer.
    fn as_boxed_any(self: Box<Self>) -> (component: Option<Box<K>>)
        ensures
            match component {
                Some(k) => self.held() == Some(*k),
                None => self.held().is_none(),
            },
    ;
}

impl<K> dyn AnyComponent<K> {
    /// The layer as a component of the kind `K`, to be read. `None` where it is of another
    /// kind.
    pub fn downcast_ref(&self) -> (component: Option<&K>)
        ensures
            component == (match self.held() {
                Some(k) => Some(&k),
                None => None,
            }),
    {
        self.as_any()
    }

    /// The layer as a component of the kind `K`, to be changed in place. `None` where it is
    /// of another kind.
    pub fn downcast_mut(&mut self) -> (component: Option<&mut K>)
        ensures
            match component {
                Some(k) => old(self).held() == Some(*k) && final(self).held() == Some(*final(k)),
                None => old(self).held().is_none() && final(self).held().is_none(),
            },
    {
        self.as_any_mut()
    }

    /// The layer as a component of the kind `K`; the layer, untouched, where it is of
    /// another kind.
    pub fn downcast(self: Box<Self>) -> (component: Result<Box<K>, Box<Self>>)
        ensures
            match component {
                Ok(k) => self.held() == Some(*k),
                Err(layer) => self.held().is_none() && layer == self,
            },
    {
        // Asked first, so that a layer of another kind is handed back as it is.
        if self.as_any().is_some() {
            let component = self.as_boxed_any();
            Ok(component.unwrap())
        } else {
            let kept = Err(self);
            assert(kept matches Err(layer) && layer == self);
            kept
        }
    }

    /// Whether the layer is a component of the kind `K`.
    pub fn is(&self) -> (held: bool)
        ensures
            held == self.held().is_some(),
    {
        self.as_any().is_some()
    }
}

/// Whether the layer at index `i` is the lowest one that holds a component of the kind `T`.
pub open spec fn lowest_of_kind<C: AnyComponent<T>, T>(layers: Seq<C>, i: int) -> bool {
    &&& 0 <= i < layers.len()
    &&& layers[i].held().is_some()
    &&& forall|j: int| 0 <= j < i ==> (#[trigger] layers[j]).held().is_none()
}

/// Whether the layer at index `i` is the lowest one with the id `id`.
pub open spec fn lowest_with_id<C: Component>(layers: Seq<C>, id: Seq<char>, i: int) -> bool {
    position_of::<C>(layer_views(layers), id, 0) == Some(i)
}

/// Whether `after` is `before` with nothing but the layer at index `i` changed.
pub open spec fn same_but<C>(before: Seq<C>, after: Seq<C>, i: int) -> bool {
    &&& after.len() == before.len()
    &&& forall|j: int| 0 <= j < before.len() && j != i ==> after[j] == before[j]
}

impl<C: Component> Compositor<C> {
    /// The lowest layer of the kind `T`, to be changed in place.
    pub fn find<T>(&mut self) -> (found: Option<&mut T>) where C: AnyComponent<T>
        ensures
            final(self).area == old(self).area,
            match found {
                Some(t) => exists|i: int| #[trigger]
                    lowest_of_kind::<C, T>(old(self).layers@, i) && old(self).layers@[i].held() == Some(*t)
                        && same_but(old(self).layers@, final(self).layers@, i) && final(self).layers@[i].held()
                        == Some(*final(t)),
                None => final(self).layers@ == old(self).layers@ && forall|i: int|
                    0 <= i < old(self).layers@.len() ==> (#[trigger] old(self).layers@[i]).held().is_none(),
            },
    {
        let mut i: usize = 0;
        while i < self.layers.len()
            invariant
                i <= self.layers.len(),
                *self == *old(self),
                forall|j: int| 0 <= j < i ==> (#[trigger] self.layers@[j]).held().is_none(),
            decreases self.layers.len() - i,
        {
            if self.layers[i].as_any().is_some() {
                assert(lowest_of_kind::<C, T>(old(self).layers@, i as int));
                return self.layers[i].as_any_mut();
            }
            i += 1;
        }
        None
    }

    /// The lowest layer with the id `id`, as a component of the kind `T`, to be read.
    ///
    /// `None` where no layer has that id, and also where the layer that has it is of
    /// another kind than `T`: the layers above it are not looked at.
    pub fn find_id<T>(&self, id: &'static str) -> (found: Option<&T>) where C: AnyComponent<T>
        ensures
            match found {
                Some(t) => exists|i: int| #[trigger]
                    lowest_with_id(self.layers@, id@, i) && self.layers@[i].held() == Some(*t),
                None => forall|i: int| #[trigger]
                    lowest_with_id(self.layers@, id@, i) ==> self.layers@[i].held().is_none(),
            },
    {
        match self.position(id) {
            Some(i) => {
                assert(lowest_with_id(self.layers@, id@, i as int));
                self.layers[i].as_any()
            },
            None => None,
        }
    }

    /// The lowest layer with the id `id`, as a component of the kind `T`, to be changed in
    /// place.
    ///
    /// `None` where no layer has that id, and also where the layer that has it is of
    /// another kind than `T`: the layers above it are not looked at.
    pub fn find_id_mut<T>(&mut self, id: &'static str) -> (found: Option<&mut T>) where C: AnyComponent<T>
        ensures
            final(self).area == old(self).area,
            match found {
                Some(t) => exists|i: int| #[trigger]
                    lowest_with_id(old(self).layers@, id@, i) && old(self).layers@[i].held() == Some(*t)
                        && same_but(old(self).layers@, final(self).layers@, i) && final(self).layers@[i].held()
                        == Some(*final(t)),
                None => final(self).layers@ == old(self).layers@ && forall|i: int| #[trigger]
                    lowest_with_id(old(self).layers@, id@, i) ==> old(self).layers@[i].held().is_none(),
            },
    {
        match self.position(id) {
            Some(i) => {
                assert(lowest_with_id(old(self).layers@, id@, i as int));
                if self.layers[i].as_any().is_some() {
                    self.layers[i].as_any_mut()
                } else {
                    None
                }
            },
            None => None,
        }
    }
}

/// An event that a layer consumes goes no further.
///
/// Where the layer at index `k` is offered the event and consumes it, the event counts as
/// consumed, no layer below `k` is offered it, and every layer below `k` is afterwards as
/// it was before.
pub proof fn lemma_consumed_shields_lower_layers<C: Component>(
    layers: Seq<C::V>,
    event: Event,
    cx: ContextView,
    upto: int,
    callbacks: Seq<CallbackView<C::V>>,
    k: int,
)
    requires
        0 <= k < upto <= layers.len(),
        offered::<C>(layers, event, cx, upto, k) matches Some(c) && C::handled(layers[k], event, c).1.is_consumed(),
    ensures
        scan::<C>(layers, event, cx, upto, callbacks).consumed,
        scan::<C>(layers, event, cx, upto, callbacks).layers.len() == layers.len(),
        forall|j: int| 0 <= j < k ==> offered::<C>(layers, event, cx, upto, j).is_none(),
        forall|j: int| 0 <= j < k ==> scan::<C>(layers, event, cx, upto, callbacks).layers[j] == layers[j],
    decreases upto,
{
    let (layer, result, cx_after) = C::handled(layers[upto - 1], event, cx);
    let layers_after = layers.update(upto - 1, layer);
    let callbacks_after = callbacks + optional(result.callback());
    let end = scan::<C>(layers, event, cx, upto, callbacks);
    if k == upto - 1 {
        assert(end.layers == layers_after);
        assert forall|j: int| 0 <= j < k implies offered::<C>(layers, event, cx, upto, j).is_none() by {
            lemma_not_offered_below_consumer::<C>(layers, event, cx, upto, j);
        }
        assert forall|j: int| 0 <= j < k implies end.layers[j] == layers[j] by {}
    } else {
        assert(!result.is_consumed());
        assert(layers_after[k] == layers[k]);
        assert(offered::<C>(layers, event, cx, upto, k) == offered::<C>(layers_after, event, cx_after, upto - 1, k));
        lemma_consumed_shields_lower_layers::<C>(layers_after, event, cx_after, upto - 1, callbacks_after, k);
        assert(end == scan::<C>(layers_after, event, cx_after, upto - 1, callbacks_after));
        assert forall|j: int| 0 <= j < k implies offered::<C>(layers, event, cx, upto, j).is_none() by {
            assert(offered::<C>(layers, event, cx, upto, j) == offered::<C>(
                layers_after,
                event,
                cx_after,
                upto - 1,
                j,
            ));
        }
        assert forall|j: int| 0 <= j < k implies end.layers[j] == layers[j] by {
            assert(layers_after[j] == layers[j]);
        }
    }
}

/// The layers below a layer that consumes the event are not offered it.
proof fn lemma_not_offered_below_consumer<C: Component>(
    layers: Seq<C::V>,
    event: Event,
    cx: ContextView,
    upto: int,
    j: int,
)
    requires
        0 <= j < upto - 1,
        upto <= layers.len(),
        C::handled(layers[upto - 1], event, cx).1.is_consumed(),
    ensures
        offered::<C>(layers, event, cx, upto, j).is_none(),
{
}

/// An event counts as consumed only if a layer consumed it: some layer was offered the
/// event and answered that it took it.
pub proof fn lemma_consumed_by_a_layer<C: Component>(
    layers: Seq<C::V>,
    event: Event,
    cx: ContextView,
    upto: int,
    callbacks: Seq<CallbackView<C::V>>,
) -> (k: int)
    requires
        0 <= upto <= layers.len(),
        scan::<C>(layers, event, cx, upto, callbacks).consumed,
    ensures
        0 <= k < upto,
        offered::<C>(layers, event, cx, upto, k) matches Some(c) && C::handled(layers[k], event, c).1.is_consumed(),
    decreases upto,
{
    let (layer, result, cx_after) = C::handled(layers[upto - 1], event, cx);
    if result.is_consumed() {
        upto - 1
    } else {
        lemma_consumed_by_a_layer::<C>(
            layers.update(upto - 1, layer),
            event,
            cx_after,
            upto - 1,
            callbacks + optional(result.callback()),
        )
    }
}

/// [`lemma_consumed_shields_lower_layers`] for [`Compositor::handle_event`]: where the
/// layer at index `k` is offered the event and consumes it, `handle_event` answers `true`
/// and no layer below `k` is offered the event.
pub proof fn lemma_handle_event_stops_at_consumer<C: Component>(
    v: CompositorView<C::V>,
    event: Event,
    cx: ContextView,
    k: int,
)
    requires
        0 <= k < v.layers.len(),
        offered::<C>(v.layers, event, recorded(cx, event), v.layers.len() as int, k) matches Some(c)
            && C::handled(v.layers[k], event, c).1.is_consumed(),
    ensures
        dispatched::<C>(v, event, cx).1,
        forall|j: int|
            0 <= j < k ==> offered::<C>(v.layers, event, recorded(cx, event), v.layers.len() as int, j).is_none(),
{
    lemma_consumed_shields_lower_layers::<C>(
        v.layers,
        event,
        recorded(cx, event),
        v.layers.len() as int,
        Seq::empty(),
        k,
    );
}

/// What was painted before stays in front of the list: the layers add their steps behind
/// it.
pub proof fn lemma_paints_follow<C: Component>(
    layers: Seq<C::V>,
    area: Rect,
    cx: ContextView,
    paints: Seq<PaintView>,
    from: int,
)
    ensures
        painted_from::<C>(layers, area, cx, paints, from).paints == paints + painted_from::<C>(
            layers,
            area,
            cx,
            Seq::empty(),
            from,
        ).paints,
        painted_from::<C>(layers, area, cx, paints, from).layers == painted_from::<C>(
            layers,
            area,
            cx,
            Seq::empty(),
            from,
        ).layers,
        painted_from::<C>(layers, area, cx, paints, from).cx == painted_from::<C>(
            layers,
            area,
            cx,
            Seq::empty(),
            from,
        ).cx,
    decreases layers.len() - from,
{
    if from < 0 || from >= layers.len() {
        assert(paints + Seq::<PaintView>::empty() =~= paints);
    } else {
        let (layer, more, cx_after) = C::rendered(layers[from], area, cx);
        let layers_after = layers.update(from, layer);
        lemma_paints_follow::<C>(layers_after, area, cx_after, paints + more, from + 1);
        lemma_paints_follow::<C>(layers_after, area, cx_after, Seq::empty() + more, from + 1);
        let rest = painted_from::<C>(layers_after, area, cx_after, Seq::empty(), from + 1).paints;
        assert((paints + more) + rest =~= paints + ((Seq::<PaintView>::empty() + more) + rest));
    }
}

/// Layers paint in the order of the stack: the steps of the layer at index `from` come
/// first, then those of the layers above it.
pub proof fn lemma_paint_order<C: Component>(layers: Seq<C::V>, area: Rect, cx: ContextView, from: int)
    requires
        0 <= from < layers.len(),
    ensures
        ({
            let (layer, first, cx_after) = C::rendered(layers[from], area, cx);
            painted_from::<C>(layers, area, cx, Seq::empty(), from).paints == first + painted_from::<C>(
                layers.update(from, layer),
                area,
                cx_after,
                Seq::empty(),
                from + 1,
            ).paints
        }),
{
    let (layer, first, cx_after) = C::rendered(layers[from], area, cx);
    lemma_paints_follow::<C>(layers.update(from, layer), area, cx_after, Seq::empty() + first, from + 1);
    assert(Seq::<PaintView>::empty() + first =~= first);
}

/// A cell shows what the topmost layer that paints it put there.
///
/// `read` picks one cell's state out of a grid of kind `G`, and `draw` says what one step
/// of painting does to a grid. If no step of the layers above index `from` changes that
/// cell, then after the layers from `from` upwards painted over `paints`, the cell holds
/// what it held when the layer at `from` had painted.
pub proof fn lemma_upper_layers_paint_over<C: Component, G, S>(
    layers: Seq<C::V>,
    area: Rect,
    cx: ContextView,
    paints: Seq<PaintView>,
    from: int,
    grid: G,
    draw: spec_fn(PaintView, G) -> G,
    read: spec_fn(G) -> S,
)
    requires
        0 <= from < layers.len(),
        ({
            let (layer, first, cx_after) = C::rendered(layers[from], area, cx);
            let above = painted_from::<C>(layers.update(from, layer), area, cx_after, Seq::empty(), from + 1).paints;
            forall|i: int, g: G| 0 <= i < above.len() ==> read(#[trigger] draw(above[i], g)) == read(g)
        }),
    ensures
        read(crate::surface::replay(painted_from::<C>(layers, area, cx, paints, from).paints, grid, draw)) == read(
            crate::surface::replay(paints + C::rendered(layers[from], area, cx).1, grid, draw),
        ),
{
    let (layer, first, cx_after) = C::rendered(layers[from], area, cx);
    let above = painted_from::<C>(layers.update(from, layer), area, cx_after, Seq::empty(), from + 1).paints;
    lemma_paints_follow::<C>(layers, area, cx, paints, from);
    lemma_paint_order::<C>(layers, area, cx, from);
    assert(paints + (first + above) =~= (paints + first) + above);
    crate::surface::lemma_topmost_writer_wins(paints + first, above, grid, draw, read);
}

} // verus!
