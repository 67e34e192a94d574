use compositor::compositor::{Component, Context, ContextExt, Editor, EventResult};
use compositor::graphics::Rect;
use compositor::info::Info;
use compositor::input::Event;
use compositor::registry::{surface_by_id, SurfacesMap};
use compositor::surface::{Paint, Scope, Surface, SurfaceFlags};

fn context() -> Context {
    Context { editor: Editor::new(), scroll: None }
}

fn info() -> Info {
    Info::new("Register".to_string(), "a  first\nb  second".to_string(), 10, 3)
}

fn box_steps(area: Rect) -> Vec<Paint> {
    vec![
        Paint::Clear { area, style: Scope::PopupInfo },
        Paint::Popup {
            area,
            title: "Register".to_string(),
            text: "a  first\nb  second".to_string(),
            border: Scope::PopupInfo,
            style: Scope::TextInfo,
        },
    ]
}

fn rendered(viewport: Rect) -> Vec<Paint> {
    let mut frame = Surface::empty(viewport);
    let mut cx = context();
    info().render(viewport, &mut frame, &mut cx);
    frame.ops
}

#[test]
fn info_sits_in_the_lower_right_above_the_status_line() {
    // The box is 10 + 4 wide and 3 + 2 high; two rows stay free below it.
    assert_eq!(rendered(Rect::new(0, 0, 80, 24)), box_steps(Rect::new(66, 17, 14, 5)));
}

#[test]
fn info_is_cut_to_a_small_viewport() {
    assert_eq!(rendered(Rect::new(0, 0, 10, 4)), box_steps(Rect::new(0, 0, 10, 4)));
    assert_eq!(rendered(Rect::new(0, 0, 14, 7)), box_steps(Rect::new(0, 0, 14, 5)));
    assert_eq!(rendered(Rect::new(0, 0, 0, 0)), box_steps(Rect::new(0, 0, 0, 0)));
}

#[test]
fn info_in_a_viewport_away_from_the_origin() {
    // The corner is counted from the origin; what lies outside the viewport is cut off.
    assert_eq!(rendered(Rect::new(70, 0, 80, 24)), box_steps(Rect::new(70, 17, 10, 5)));
    assert_eq!(rendered(Rect::new(100, 0, 80, 24)), box_steps(Rect::new(100, 17, 0, 5)));
}

#[test]
fn info_area_is_the_box_at_the_origin() {
    assert_eq!(info().area(), Rect::new(0, 0, 14, 5));
    let largest = Info::new(String::new(), String::new(), Info::max_text_size(), Info::max_text_size());
    assert_eq!(largest.area(), Rect::new(0, 0, 65_535, 65_533));
}

#[test]
fn info_paints_the_same_box_on_its_own_surface() {
    let mut cx = ContextExt {
        vanilla: context(),
        surfaces: SurfacesMap::new(),
        editor_area: Rect::new(0, 0, 80, 24),
        screen_area: Rect::new(0, 0, 80, 24),
    };
    info().render_ext(&mut cx);
    let id = "info-component".to_string();
    let own = Rect::new(0, 0, 14, 5);
    let surface = surface_by_id(&id, own, SurfaceFlags::empty(), &mut cx.surfaces);
    assert_eq!(surface.area, own);
    assert_eq!(surface.ops, box_steps(own));
    // The frame gets the same steps where the box is placed at the same area.
    assert_eq!(rendered(Rect::new(0, 0, 14, 7)), box_steps(own));
}

#[test]
fn info_ignores_events_and_has_no_size() {
    let mut info = info();
    let mut cx = context();
    assert!(matches!(info.handle_event(&Event::FocusLost, &mut cx), EventResult::Ignored(None)));
    assert_eq!(info.required_size((80, 24)), None);
}
