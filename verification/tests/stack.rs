use std::cell::RefCell;
use std::path::PathBuf;
use std::rc::Rc;

use compositor::compositor::{Callback, Component, Compositor, Context, ContextExt, Editor, EventResult};
use compositor::graphics::{CursorKind, Rect};
use compositor::info::Info;
use compositor::input::{Event, KeyCode, KeyEvent};
use compositor::layer::Layer;
use compositor::menu::{Menu, MenuEvent};
use compositor::registry::SurfacesMap;
use compositor::surface::{Paint, Scope, Surface};
use compositor::text::Text;

type Told = Rc<RefCell<Vec<(MenuEvent, Option<PathBuf>)>>>;
type Callee = Box<dyn Fn(&Editor, Option<&PathBuf>, MenuEvent)>;
type Stack = Compositor<Layer<PathBuf, Callee>>;

fn paths(names: &[&str]) -> Vec<PathBuf> {
    names.iter().map(PathBuf::from).collect()
}

fn menu(names: &[&str], told: &Told) -> Menu<PathBuf, Callee> {
    let told = told.clone();
    let callee: Callee = Box::new(move |_editor, selection, event| {
        told.borrow_mut().push((event, selection.cloned()));
    });
    Menu::new(paths(names), PathBuf::new(), callee)
}

fn context() -> Context {
    Context { editor: Editor::new(), scroll: None }
}

fn key(code: KeyCode) -> Event {
    Event::Key(KeyEvent::key(code))
}

fn viewport() -> Rect {
    Rect::new(0, 0, 80, 24)
}

fn selected(stack: &Stack, index: usize) -> Option<usize> {
    match &stack.layers[index] {
        Layer::Menu(menu) => menu.selected_row(),
        _ => panic!("layer {} is no menu", index),
    }
}

#[test]
fn new_compositor_is_empty() {
    let stack: Stack = Compositor::new(viewport());
    assert_eq!(stack.layers.len(), 0);
    assert_eq!(stack.size(), viewport());
}

#[test]
fn resize_takes_the_new_viewport() {
    let mut stack: Stack = Compositor::new(viewport());
    stack.resize(Rect::new(0, 0, 120, 40));
    assert_eq!(stack.size(), Rect::new(0, 0, 120, 40));
}

#[test]
fn push_asks_the_layer_for_its_size_once() {
    let mut stack: Stack = Compositor::new(Rect::new(0, 0, 4, 10));
    stack.push(Layer::Text(Text::new("a long line".to_string())));
    // The size was worked out for the viewport of the stack, so the same viewport gives
    // the same answer, held to the four columns there are.
    let size = stack.layers[0].required_size((4, 10));
    assert_eq!(size, Some((4, 1)));
}

#[test]
fn pop_takes_the_topmost_layer() {
    let told = Told::default();
    let mut stack: Stack = Compositor::new(viewport());
    assert!(stack.pop().is_none());
    stack.push(Layer::Text(Text::new("below".to_string())));
    stack.push(Layer::Menu(menu(&["a"], &told)));
    let top = stack.pop();
    assert!(matches!(top, Some(Layer::Menu(_))));
    assert_eq!(stack.layers.len(), 1);
    assert!(matches!(stack.layers[0], Layer::Text(_)));
}

#[test]
fn remove_takes_the_layer_with_the_id_and_keeps_the_order() {
    let told = Told::default();
    let mut stack: Stack = Compositor::new(viewport());
    stack.push(Layer::Text(Text::new("below".to_string())));
    stack.push(Layer::Menu(menu(&["a"], &told)));
    stack.push(Layer::Info(Info::new("title".to_string(), "text".to_string(), 4, 1)));
    let removed = stack.remove("menu-component");
    assert!(matches!(removed, Some(Layer::Menu(_))));
    assert_eq!(stack.layers.len(), 2);
    assert!(matches!(stack.layers[0], Layer::Text(_)));
    assert!(matches!(stack.layers[1], Layer::Info(_)));
    assert!(stack.remove("menu-component").is_none());
    assert_eq!(stack.layers.len(), 2);
}

#[test]
fn remove_takes_the_lowest_of_two_layers_with_one_id() {
    let mut stack: Stack = Compositor::new(viewport());
    stack.push(Layer::Text(Text::new("first".to_string())));
    stack.push(Layer::Info(Info::new("title".to_string(), "text".to_string(), 4, 1)));
    stack.push(Layer::Text(Text::new("second\nwith two lines".to_string())));
    stack.remove("text-component");
    assert_eq!(stack.layers.len(), 2);
    assert!(matches!(stack.layers[0], Layer::Info(_)));
    assert_eq!(stack.layers[1].required_size((80, 24)), Some((14, 2)));
}

#[test]
fn replace_or_push_replaces_in_place() {
    let told = Told::default();
    let mut stack: Stack = Compositor::new(viewport());
    stack.push(Layer::Text(Text::new("old".to_string())));
    stack.push(Layer::Menu(menu(&["a"], &told)));
    stack.replace_or_push("text-component", Layer::Text(Text::new("the new text".to_string())));
    assert_eq!(stack.layers.len(), 2);
    assert!(matches!(stack.layers[1], Layer::Menu(_)));
    assert_eq!(stack.layers[0].required_size((80, 24)), Some((12, 1)));
}

#[test]
fn replace_or_push_pushes_where_no_layer_has_the_id() {
    let told = Told::default();
    let mut stack: Stack = Compositor::new(viewport());
    stack.push(Layer::Menu(menu(&["a"], &told)));
    stack.replace_or_push("text-component", Layer::Text(Text::new("new".to_string())));
    assert_eq!(stack.layers.len(), 2);
    assert!(matches!(stack.layers[0], Layer::Menu(_)));
    assert!(matches!(stack.layers[1], Layer::Text(_)));
}

#[test]
fn event_consumed_in_the_middle_does_not_reach_the_bottom() {
    let told_a = Told::default();
    let told_b = Told::default();
    let mut stack: Stack = Compositor::new(viewport());
    stack.push(Layer::Menu(menu(&["a1", "a2"], &told_a)));
    stack.push(Layer::Menu(menu(&["b1", "b2"], &told_b)));
    stack.push(Layer::Text(Text::new("on top".to_string())));
    let mut cx = context();

    let consumed = stack.handle_event(&key(KeyCode::Tab), &mut cx);

    assert!(consumed);
    assert_eq!(stack.layers.len(), 3);
    // The menu in the middle took the key and moved its selection.
    assert_eq!(selected(&stack, 1), Some(0));
    assert_eq!(told_b.borrow().len(), 1);
    // The menu at the bottom never saw it.
    assert_eq!(selected(&stack, 0), None);
    assert!(told_a.borrow().is_empty());
}

#[test]
fn event_that_no_layer_takes_is_not_consumed() {
    let told = Told::default();
    let mut stack: Stack = Compositor::new(viewport());
    stack.push(Layer::Menu(menu(&["a1", "a2"], &told)));
    stack.push(Layer::Text(Text::new("on top".to_string())));
    let mut cx = context();
    assert!(!stack.handle_event(&key(KeyCode::Char('x')), &mut cx));
    assert!(!stack.handle_event(&Event::Resize(10, 10), &mut cx));
    assert!(!stack.handle_event(&Event::Paste("pasted".to_string()), &mut cx));
    assert_eq!(stack.layers.len(), 2);
    assert!(told.borrow().is_empty());
}

#[test]
fn event_on_an_empty_stack_is_not_consumed() {
    let mut stack: Stack = Compositor::new(viewport());
    let mut cx = context();
    assert!(!stack.handle_event(&key(KeyCode::Enter), &mut cx));
}

#[test]
fn escape_closes_the_menu_after_the_scan() {
    let told = Told::default();
    let mut stack: Stack = Compositor::new(viewport());
    stack.push(Layer::Text(Text::new("below".to_string())));
    stack.push(Layer::Menu(menu(&["a1", "a2"], &told)));
    let mut cx = context();
    let consumed = stack.handle_event(&key(KeyCode::Esc), &mut cx);
    assert!(consumed);
    assert_eq!(stack.layers.len(), 1);
    assert!(matches!(stack.layers[0], Layer::Text(_)));
    assert_eq!(*told.borrow(), vec![(MenuEvent::SoftAbort, None)]);
}

#[test]
fn ignored_with_close_goes_on_to_the_layer_below_and_pops_the_top() {
    let told_a = Told::default();
    let told_b = Told::default();
    let mut stack: Stack = Compositor::new(viewport());
    stack.push(Layer::Menu(menu(&["a1", "a2"], &told_a)));
    stack.push(Layer::Menu(menu(&["only"], &told_b)));
    let mut cx = context();
    // Select the only match of the upper menu.
    assert!(stack.handle_event(&key(KeyCode::Tab), &mut cx));
    assert_eq!(selected(&stack, 1), Some(0));
    // Now Tab is passed on by the upper menu, which closes, and taken by the lower one.
    assert!(stack.handle_event(&key(KeyCode::Tab), &mut cx));
    assert_eq!(stack.layers.len(), 1);
    assert_eq!(selected(&stack, 0), Some(0));
    assert_eq!(told_a.borrow().len(), 1);
}

#[test]
fn keys_are_recorded_while_a_macro_is_recorded() {
    let mut stack: Stack = Compositor::new(viewport());
    stack.push(Layer::Text(Text::new("text".to_string())));
    let mut cx = context();
    cx.editor.macro_recording = Some(('q', vec![KeyEvent::key(KeyCode::Char('a'))]));
    let consumed = stack.handle_event(&key(KeyCode::Char('b')), &mut cx);
    assert!(!consumed);
    assert_eq!(
        cx.editor.macro_recording,
        Some(('q', vec![KeyEvent::key(KeyCode::Char('a')), KeyEvent::key(KeyCode::Char('b'))]))
    );
    // Other events are not keys.
    stack.handle_event(&Event::FocusGained, &mut cx);
    assert_eq!(cx.editor.macro_recording.as_ref().map(|(_, keys)| keys.len()), Some(2));
}

#[test]
fn keys_are_not_recorded_without_a_macro() {
    let mut stack: Stack = Compositor::new(viewport());
    let mut cx = context();
    stack.handle_event(&key(KeyCode::Char('b')), &mut cx);
    assert_eq!(cx.editor.macro_recording, None);
}

#[test]
fn offer_reports_what_the_layers_asked_for() {
    let told = Told::default();
    let mut stack: Stack = Compositor::new(viewport());
    stack.push(Layer::Menu(menu(&["a1", "a2"], &told)));
    let mut cx = context();
    let (consumed, callbacks) = stack.offer(&key(KeyCode::Esc), &mut cx);
    assert!(consumed);
    assert_eq!(callbacks.len(), 1);
    assert!(matches!(callbacks[0], Callback::Pop));
    // Nothing was carried out yet.
    assert_eq!(stack.layers.len(), 1);
    stack.apply(callbacks);
    assert_eq!(stack.layers.len(), 0);
}

#[test]
fn apply_carries_out_callbacks_in_order() {
    let mut stack: Stack = Compositor::new(viewport());
    stack.push(Layer::Text(Text::new("first".to_string())));
    stack.apply(vec![
        Callback::Push(Layer::Info(Info::new("t".to_string(), "x".to_string(), 1, 1))),
        Callback::Remove("text-component"),
        Callback::ReplaceOrPush("info-component", Layer::Text(Text::new("second".to_string()))),
        Callback::Push(Layer::Text(Text::new("third".to_string()))),
        Callback::Pop,
    ]);
    assert_eq!(stack.layers.len(), 1);
    assert!(matches!(stack.layers[0], Layer::Text(_)));
    assert_eq!(stack.layers[0].required_size((80, 24)), Some((6, 1)));
}

#[test]
fn event_result_says_whether_it_was_consumed() {
    let ignored: EventResult<Text> = EventResult::Ignored(Some(Callback::Pop));
    let consumed: EventResult<Text> = EventResult::Consumed(None);
    assert!(!ignored.is_consumed());
    assert!(consumed.is_consumed());
    assert!(matches!(ignored.into_callback(), Some(Callback::Pop)));
    assert!(consumed.into_callback().is_none());
}

#[test]
fn layers_paint_from_the_bottom_to_the_top() {
    let mut stack: Stack = Compositor::new(viewport());
    stack.push(Layer::Text(Text::new("below".to_string())));
    stack.push(Layer::Info(Info::new("title".to_string(), "text".to_string(), 10, 3)));
    let mut frame = Surface::empty(viewport());
    let mut cx = context();
    stack.render(viewport(), &mut frame, &mut cx);
    let area = Rect::new(66, 17, 14, 5);
    assert_eq!(
        frame.ops,
        vec![
            Paint::Paragraph { area: viewport(), lines: vec!["below".to_string()] },
            Paint::Clear { area, style: Scope::PopupInfo },
            Paint::Popup {
                area,
                title: "title".to_string(),
                text: "text".to_string(),
                border: Scope::PopupInfo,
                style: Scope::TextInfo,
            },
        ]
    );
}

#[test]
fn painting_goes_over_what_is_on_the_frame() {
    let mut stack: Stack = Compositor::new(viewport());
    stack.push(Layer::Text(Text::new("text".to_string())));
    let mut frame = Surface::empty(viewport());
    frame.paint(Paint::Clear { area: viewport(), style: Scope::Menu });
    let mut cx = context();
    stack.render(viewport(), &mut frame, &mut cx);
    assert_eq!(frame.ops.len(), 2);
    assert_eq!(frame.ops[0], Paint::Clear { area: viewport(), style: Scope::Menu });
}

#[test]
fn cursor_is_hidden_where_no_layer_wants_it() {
    let told = Told::default();
    let mut stack: Stack = Compositor::new(viewport());
    assert_eq!(stack.cursor(viewport(), &Editor::new()), (None, CursorKind::Hidden));
    stack.push(Layer::Text(Text::new("text".to_string())));
    stack.push(Layer::Menu(menu(&["a"], &told)));
    assert_eq!(stack.cursor(viewport(), &Editor::new()), (None, CursorKind::Hidden));
    assert!(stack.cursor_ext(&Editor::new()).is_none());
}

#[test]
fn has_component_goes_by_the_kind() {
    let mut stack: Stack = Compositor::new(viewport());
    stack.push(Layer::Text(Text::new("text".to_string())));
    assert!(stack.has_component("Text"));
    assert!(!stack.has_component("Menu"));
    assert!(!stack.has_component("Info"));
    assert!(!stack.has_component("text-component"));
}

#[test]
fn position_is_the_lowest_layer_with_the_id() {
    let mut stack: Stack = Compositor::new(viewport());
    stack.push(Layer::Info(Info::new("t".to_string(), "x".to_string(), 1, 1)));
    stack.push(Layer::Text(Text::new("one".to_string())));
    stack.push(Layer::Text(Text::new("two".to_string())));
    assert_eq!(stack.position("text-component"), Some(1));
    assert_eq!(stack.position("info-component"), Some(0));
    assert_eq!(stack.position("menu-component"), None);
}

fn context_ext() -> ContextExt {
    ContextExt { vanilla: context(), surfaces: SurfacesMap::new(), editor_area: viewport(), screen_area: viewport() }
}

#[test]
fn texts_and_info_boxes_can_paint_on_their_own_surfaces() {
    let told = Told::default();
    assert!(Layer::<PathBuf, Callee>::Text(Text::new("text".to_string())).can_render_ext());
    assert!(Layer::<PathBuf, Callee>::Info(Info::new("t".to_string(), "x".to_string(), 1, 1)).can_render_ext());
    assert!(!Layer::Menu(menu(&["a"], &told)).can_render_ext());
}

#[test]
fn stack_paints_on_own_surfaces_where_every_layer_can() {
    let mut stack: Stack = Compositor::new(viewport());
    assert!(stack.can_render_ext());
    stack.push(Layer::Text(Text::new("text".to_string())));
    stack.push(Layer::Info(Info::new("t".to_string(), "x".to_string(), 1, 1)));
    assert!(stack.can_render_ext());
    let mut cx = context_ext();
    assert!(stack.try_render_ext(&mut cx));
    assert!(cx.surfaces.contains(&"text-component".to_string()));
    assert!(cx.surfaces.contains(&"info-component".to_string()));
}

#[test]
fn stack_with_a_menu_paints_on_no_surface() {
    let told = Told::default();
    let mut stack: Stack = Compositor::new(viewport());
    stack.push(Layer::Text(Text::new("text".to_string())));
    stack.push(Layer::Menu(menu(&["a"], &told)));
    assert!(!stack.can_render_ext());
    let mut cx = context_ext();
    assert!(!stack.try_render_ext(&mut cx));
    assert!(!cx.surfaces.contains(&"text-component".to_string()));
    assert_eq!(stack.layers.len(), 2);
}
