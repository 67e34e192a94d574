use compositor::compositor::{
    Component, Compositor, Context, ContextExt, ContextExtView, ContextView, Editor, EditorView, EventResult,
    EventResultView,
};
use compositor::graphics::{CursorKind, Position, Rect};
use compositor::input::{Event, KeyCode, KeyEvent};
use compositor::surface::{Paint, PaintView, Scope, Surface};
use vstd::seq::Seq;

/// A layer that wants the cursor at a given place, takes the keys it is told to take, and
/// counts the events it is offered.
struct Caret {
    at: Option<Position>,
    kind: CursorKind,
    anchors: Option<(Vec<Position>, String)>,
    takes: Option<KeyCode>,
    offered: usize,
    mark: u16,
}

fn caret(at: Option<Position>, kind: CursorKind) -> Caret {
    Caret { at, kind, anchors: None, takes: None, offered: 0, mark: 0 }
}

fn taker(takes: Option<KeyCode>, mark: u16) -> Caret {
    Caret { at: None, kind: CursorKind::Hidden, anchors: None, takes, offered: 0, mark }
}

impl vstd::view::View for Caret {
    type V = ();

    fn view(&self) {}
}

impl Component for Caret {
    fn handled(_: (), _: Event, _: ContextView) -> ((), EventResultView<()>, ContextView) {
        unreachable!()
    }

    fn handle_event(&mut self, event: &Event, _cx: &mut Context) -> EventResult<Self> {
        self.offered += 1;
        match (event, self.takes) {
            (Event::Key(key), Some(code)) if key.code == code => EventResult::Consumed(None),
            _ => EventResult::Ignored(None),
        }
    }

    fn updates(_: ()) -> bool {
        unreachable!()
    }

    fn should_update(&self) -> bool {
        true
    }

    fn rendered(_: (), _: Rect, _: ContextView) -> ((), Seq<PaintView>, ContextView) {
        unreachable!()
    }

    fn render(&mut self, _area: Rect, frame: &mut Surface, _cx: &mut Context) {
        frame.paint(Paint::Style { x: self.mark, y: 0, style: Scope::MenuSelected });
    }

    fn paints_ext(_: ()) -> bool {
        unreachable!()
    }

    fn rendered_ext(_: (), _: ContextExtView) -> ((), ContextExtView) {
        unreachable!()
    }

    fn render_ext(&mut self, _cx: &mut ContextExt) {}

    fn cursor_at(_: (), _: Rect, _: EditorView) -> (Option<Position>, CursorKind) {
        unreachable!()
    }

    fn cursor(&self, _area: Rect, _editor: &Editor) -> (Option<Position>, CursorKind) {
        (self.at, self.kind)
    }

    fn cursor_anchors(_: (), _: EditorView) -> Option<(Seq<Position>, Seq<char>)> {
        unreachable!()
    }

    fn cursor_ext(&self, _editor: &Editor) -> Option<(Vec<Position>, &str)> {
        self.anchors.as_ref().map(|(places, label)| (places.clone(), label.as_str()))
    }

    fn sized(_: (), _: (u16, u16)) -> ((), Option<(u16, u16)>) {
        unreachable!()
    }

    fn required_size(&mut self, _viewport: (u16, u16)) -> Option<(u16, u16)> {
        None
    }

    fn kind_of(_: ()) -> Seq<char> {
        unreachable!()
    }

    fn kind(&self) -> &'static str {
        "Caret"
    }

    fn id_of(_: ()) -> Option<Seq<char>> {
        unreachable!()
    }

    fn id(&self) -> Option<&'static str> {
        None
    }
}

fn viewport() -> Rect {
    Rect::new(0, 0, 80, 24)
}

fn context() -> Context {
    Context { editor: Editor::new(), scroll: None }
}

#[test]
fn cursor_is_that_of_the_topmost_layer_that_wants_one() {
    let mut stack: Compositor<Caret> = Compositor::new(viewport());
    stack.push(caret(Some(Position::new(1, 1)), CursorKind::Block));
    stack.push(caret(Some(Position::new(2, 2)), CursorKind::Bar));
    stack.push(caret(None, CursorKind::Underline));
    let at = stack.cursor(viewport(), &Editor::new());
    assert_eq!(at, (Some(Position::new(2, 2)), CursorKind::Bar));
}

#[test]
fn cursor_of_layers_that_want_none_is_hidden() {
    let mut stack: Compositor<Caret> = Compositor::new(viewport());
    stack.push(caret(None, CursorKind::Block));
    stack.push(caret(None, CursorKind::Underline));
    assert_eq!(stack.cursor(viewport(), &Editor::new()), (None, CursorKind::Hidden));
}

#[test]
fn cursor_anchors_are_those_of_the_topmost_layer_that_has_some() {
    let mut stack: Compositor<Caret> = Compositor::new(viewport());
    let mut low = caret(None, CursorKind::Hidden);
    low.anchors = Some((vec![Position::new(0, 0)], "low".to_string()));
    let mut high = caret(None, CursorKind::Hidden);
    high.anchors = Some((vec![Position::new(3, 4), Position::new(5, 6)], "high".to_string()));
    stack.push(low);
    stack.push(high);
    stack.push(caret(None, CursorKind::Hidden));
    let anchors = stack.cursor_ext(&Editor::new());
    assert_eq!(anchors, Some((vec![Position::new(3, 4), Position::new(5, 6)], "high")));
}

#[test]
fn consumer_in_the_middle_shields_the_layer_below() {
    let mut stack: Compositor<Caret> = Compositor::new(viewport());
    stack.push(taker(Some(KeyCode::Enter), 0));
    stack.push(taker(Some(KeyCode::Enter), 1));
    stack.push(taker(None, 2));
    let mut cx = context();
    let consumed = stack.handle_event(&Event::Key(KeyEvent::key(KeyCode::Enter)), &mut cx);
    assert!(consumed);
    let offered: Vec<usize> = stack.layers.iter().map(|layer| layer.offered).collect();
    assert_eq!(offered, vec![0, 1, 1]);
}

#[test]
fn event_that_nobody_takes_is_offered_to_every_layer() {
    let mut stack: Compositor<Caret> = Compositor::new(viewport());
    stack.push(taker(Some(KeyCode::Enter), 0));
    stack.push(taker(None, 1));
    stack.push(taker(Some(KeyCode::Tab), 2));
    let mut cx = context();
    let consumed = stack.handle_event(&Event::Key(KeyEvent::key(KeyCode::Esc)), &mut cx);
    assert!(!consumed);
    assert!(stack.layers.iter().all(|layer| layer.offered == 1));
}

#[test]
fn topmost_consumer_stops_the_event_at_once() {
    let mut stack: Compositor<Caret> = Compositor::new(viewport());
    stack.push(taker(Some(KeyCode::Enter), 0));
    stack.push(taker(Some(KeyCode::Enter), 1));
    let mut cx = context();
    assert!(stack.handle_event(&Event::Key(KeyEvent::key(KeyCode::Enter)), &mut cx));
    let offered: Vec<usize> = stack.layers.iter().map(|layer| layer.offered).collect();
    assert_eq!(offered, vec![0, 1]);
}

#[test]
fn upper_layers_paint_after_lower_ones() {
    let mut stack: Compositor<Caret> = Compositor::new(viewport());
    stack.push(taker(None, 10));
    stack.push(taker(None, 11));
    stack.push(taker(None, 12));
    let mut frame = Surface::empty(viewport());
    let mut cx = context();
    stack.render(viewport(), &mut frame, &mut cx);
    let marks: Vec<u16> = frame
        .ops
        .iter()
        .map(|op| match op {
            Paint::Style { x, .. } => *x,
            other => panic!("unexpected step {:?}", other),
        })
        .collect();
    assert_eq!(marks, vec![10, 11, 12]);
}
