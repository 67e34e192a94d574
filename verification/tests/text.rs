use compositor::compositor::{Component, Context, ContextExt, Editor, EventResult};
use compositor::graphics::{CursorKind, Rect};
use compositor::input::{Event, KeyCode, KeyEvent};
use compositor::registry::SurfacesMap;
use compositor::surface::{Paint, Surface};
use compositor::text::{checked_required_size, required_size, Lines, Text};

fn three_lines_of_fifty() -> String {
    let line = "x".repeat(50);
    format!("{}\n{}\n{}", line, "short", "a little longer")
}

fn context() -> Context {
    Context { editor: Editor::new(), scroll: None }
}

#[test]
fn text_size_is_held_to_the_viewport() {
    let mut text = Text::new(three_lines_of_fifty());
    assert_eq!(text.required_size((20, 10)), Some((20, 3)));
}

#[test]
fn text_size_is_kept_for_the_same_viewport() {
    let mut text = Text::new(three_lines_of_fifty());
    let first = text.required_size((20, 10));
    let second = text.required_size((20, 10));
    assert_eq!(first, Some((20, 3)));
    assert_eq!(second, first);
}

#[test]
fn text_size_follows_the_viewport() {
    let mut text = Text::new(three_lines_of_fifty());
    assert_eq!(text.required_size((80, 24)), Some((50, 3)));
    assert_eq!(text.required_size((80, 2)), Some((50, 2)));
    assert_eq!(text.required_size((7, 24)), Some((7, 3)));
}

#[test]
fn fresh_text_has_no_size_for_the_empty_viewport() {
    let mut text = Text::new(three_lines_of_fifty());
    assert_eq!(text.required_size((0, 0)), Some((0, 0)));
}

#[test]
fn empty_text_has_no_size() {
    let mut text = Text::new(String::new());
    assert_eq!(text.required_size((80, 24)), Some((0, 0)));
}

#[test]
fn text_from_lines_is_like_new() {
    let mut text = Text::from(Lines::new("ab\ncde".to_string()));
    assert_eq!(text.required_size((80, 24)), Some((3, 2)));
}

#[test]
fn lines_are_split_at_line_endings() {
    let lines = Lines::new("one\ntwo\r\nthree\n".to_string());
    assert_eq!(lines.lines, vec!["one", "two", "three"]);
    assert_eq!(lines.height(), 3);
    assert_eq!(lines.width(), 5);
    assert_eq!(lines.copy(), vec!["one", "two", "three"]);
    assert_eq!(Lines::new(String::new()).height(), 0);
    assert_eq!(Lines::new(String::new()).width(), 0);
}

#[test]
fn width_counts_columns() {
    let lines = Lines::new("abc\n日本語\nab".to_string());
    assert_eq!(lines.width(), 6);
}

#[test]
fn text_ignores_events() {
    let mut text = Text::new("text".to_string());
    let mut cx = context();
    let result = text.handle_event(&Event::Key(KeyEvent::key(KeyCode::Enter)), &mut cx);
    assert!(matches!(result, EventResult::Ignored(None)));
    assert_eq!(text.cursor(Rect::new(0, 0, 1, 1), &cx.editor), (None, CursorKind::Hidden));
    assert!(text.cursor_ext(&cx.editor).is_none());
}

#[test]
fn text_paints_a_paragraph() {
    let mut text = Text::new("one\ntwo".to_string());
    let area = Rect::new(3, 4, 10, 2);
    let mut frame = Surface::empty(area);
    let mut cx = context();
    text.render(area, &mut frame, &mut cx);
    assert_eq!(frame.ops, vec![Paint::Paragraph { area, lines: vec!["one".to_string(), "two".to_string()] }]);
}

#[test]
fn text_paints_on_its_own_surface() {
    let mut text = Text::new("one\ntwo".to_string());
    text.required_size((80, 24));
    let mut cx = ContextExt {
        vanilla: context(),
        surfaces: SurfacesMap::new(),
        editor_area: Rect::new(0, 0, 80, 24),
        screen_area: Rect::new(0, 0, 80, 24),
    };
    text.render_ext(&mut cx);
    let id = "text-component".to_string();
    assert!(cx.surfaces.contains(&id));
    let area = Rect::new(0, 0, 3, 2);
    let paragraph = Paint::Paragraph { area, lines: vec!["one".to_string(), "two".to_string()] };
    {
        let surface = compositor::registry::surface_by_id(&id, area, compositor::surface::SurfaceFlags::empty(), &mut cx.surfaces);
        assert_eq!(surface.area, area);
        assert_eq!(surface.ops, vec![paragraph.clone()]);
    }
    // The same size again paints over what is there.
    text.render_ext(&mut cx);
    {
        let surface = compositor::registry::surface_by_id(&id, area, compositor::surface::SurfaceFlags::empty(), &mut cx.surfaces);
        assert_eq!(surface.ops, vec![paragraph.clone(), paragraph.clone()]);
    }
    // Another size wipes the surface first.
    text.required_size((2, 1));
    text.render_ext(&mut cx);
    let small = Rect::new(0, 0, 2, 1);
    let surface = compositor::registry::surface_by_id(&id, small, compositor::surface::SurfaceFlags::empty(), &mut cx.surfaces);
    assert_eq!(surface.area, small);
    assert_eq!(surface.ops, vec![Paint::Paragraph { area: small, lines: vec!["one".to_string(), "two".to_string()] }]);
}

#[test]
fn required_size_of_lines_that_fit() {
    let text = Lines::new("ab\nabcd\nabc".to_string());
    assert_eq!(required_size(&text, 10), (4, 3));
    assert_eq!(required_size(&text, 4), (4, 3));
}

#[test]
fn required_size_counts_rows_for_long_lines() {
    let text = Lines::new("ab\nabcdefghij\nabc".to_string());
    // The long line takes the whole width and 10 / 4 = 2 rows more.
    assert_eq!(required_size(&text, 4), (4, 5));
    // A later short line does not change the width.
    assert_eq!(required_size(&text, 9), (9, 4));
}

#[test]
fn required_size_with_no_width() {
    let text = Lines::new("ab\n\nabc".to_string());
    assert_eq!(required_size(&text, 0), (0, 3));
    assert_eq!(required_size(&Lines::new(String::new()), 5), (0, 0));
}

#[test]
fn checked_required_size_is_none_for_too_many_rows() {
    let text = Lines::new("ab\nabcdefghij".to_string());
    assert_eq!(checked_required_size(&text, 4), Some((4, 4)));
    let tall = Lines::new("x\n".repeat(70_000));
    assert_eq!(checked_required_size(&tall, 4), None);
    let just = Lines::new("x\n".repeat(65_535));
    assert_eq!(checked_required_size(&just, 4), Some((1, 65_535)));
}
