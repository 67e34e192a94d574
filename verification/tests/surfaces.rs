use compositor::graphics::{CursorKind, Position, Rect};
use compositor::input::{KeyCode, KeyEvent, KeyModifiers};
use compositor::registry::{surface_by_id, surface_by_id_mut, SurfacesMap};
use compositor::surface::{Cell, Paint, Row, Scope, Surface, SurfaceFlags};

#[test]
fn registry_starts_empty() {
    let surfaces = SurfacesMap::new();
    assert!(!surfaces.contains(&"a".to_string()));
}

#[test]
fn surface_is_made_on_first_access() {
    let mut surfaces = SurfacesMap::new();
    let id = "popup".to_string();
    let area = Rect::new(1, 2, 30, 4);
    let flags = SurfaceFlags { bits: 5 };
    {
        let surface = surface_by_id_mut(&id, area, flags, &mut surfaces);
        assert_eq!(surface.area, area);
        assert_eq!(surface.flags, flags);
        assert!(surface.ops.is_empty());
        surface.paint(Paint::Clear { area, style: Scope::Menu });
    }
    assert!(surfaces.contains(&id));
    assert!(!surfaces.contains(&"other".to_string()));
    // What was painted is kept under the name.
    let surface = surface_by_id_mut(&id, area, SurfaceFlags::empty(), &mut surfaces);
    assert_eq!(surface.ops, vec![Paint::Clear { area, style: Scope::Menu }]);
    assert_eq!(surface.flags, flags);
}

#[test]
fn surface_is_wiped_when_the_area_changes() {
    let mut surfaces = SurfacesMap::new();
    let id = "popup".to_string();
    let area = Rect::new(1, 2, 30, 4);
    let flags = SurfaceFlags { bits: 5 };
    surface_by_id_mut(&id, area, flags, &mut surfaces).paint(Paint::Clear { area, style: Scope::Menu });
    let wider = Rect::new(1, 2, 40, 4);
    let surface = surface_by_id_mut(&id, wider, SurfaceFlags::empty(), &mut surfaces);
    assert_eq!(surface.area, wider);
    assert!(surface.ops.is_empty());
    // The flags it was made with stay.
    assert_eq!(surface.flags, flags);
}

#[test]
fn surfaces_are_kept_apart_by_name() {
    let mut surfaces = SurfacesMap::new();
    let area = Rect::new(0, 0, 3, 3);
    surface_by_id_mut(&"a".to_string(), area, SurfaceFlags::empty(), &mut surfaces)
        .paint(Paint::Style { x: 1, y: 1, style: Scope::MenuSelected });
    let b = surface_by_id_mut(&"b".to_string(), area, SurfaceFlags::empty(), &mut surfaces);
    assert!(b.ops.is_empty());
    let a = surface_by_id(&"a".to_string(), area, SurfaceFlags::empty(), &mut surfaces);
    assert_eq!(a.ops.len(), 1);
}

#[test]
fn surface_by_id_hands_out_what_is_there_as_it_is() {
    let mut surfaces = SurfacesMap::new();
    let id = "popup".to_string();
    let area = Rect::new(1, 2, 30, 4);
    surface_by_id_mut(&id, area, SurfaceFlags::empty(), &mut surfaces)
        .paint(Paint::Clear { area, style: Scope::Menu });
    // Asked with another area, the surface is neither resized nor wiped.
    let surface = surface_by_id(&id, Rect::new(0, 0, 1, 1), SurfaceFlags { bits: 9 }, &mut surfaces);
    assert_eq!(surface.area, area);
    assert_eq!(surface.ops.len(), 1);
    assert_eq!(surface.flags, SurfaceFlags::empty());
}

#[test]
fn surface_by_id_makes_a_blank_surface_where_there_is_none() {
    let mut surfaces = SurfacesMap::new();
    let id = "new".to_string();
    let area = Rect::new(0, 0, 8, 8);
    {
        let surface = surface_by_id(&id, area, SurfaceFlags { bits: 2 }, &mut surfaces);
        assert_eq!(surface.area, area);
        assert_eq!(surface.flags, SurfaceFlags { bits: 2 });
        assert!(surface.ops.is_empty());
    }
    assert!(surfaces.contains(&id));
}

#[test]
fn surface_records_steps_in_order() {
    let area = Rect::new(0, 0, 4, 4);
    let mut surface = Surface::empty(area);
    assert_eq!(surface.flags, SurfaceFlags::empty());
    surface.paint(Paint::Clear { area, style: Scope::Menu });
    surface.paint(Paint::Style { x: 1, y: 1, style: Scope::MenuSelected });
    assert_eq!(
        surface.ops,
        vec![Paint::Clear { area, style: Scope::Menu }, Paint::Style { x: 1, y: 1, style: Scope::MenuSelected }]
    );
    surface.resize(Rect::new(0, 0, 2, 2));
    assert_eq!(surface.area, Rect::new(0, 0, 2, 2));
    assert_eq!(surface.ops.len(), 2);
    surface.reset();
    assert!(surface.ops.is_empty());
    assert_eq!(surface.area, Rect::new(0, 0, 2, 2));
    let flagged = Surface::empty_with_spatial(area, SurfaceFlags { bits: 3 });
    assert_eq!(flagged.flags.bits, 3);
}

#[test]
fn scopes_name_their_theme_keys() {
    assert_eq!(Scope::Menu.name(), "ui.menu");
    assert_eq!(Scope::MenuSelected.name(), "ui.menu.selected");
    assert_eq!(Scope::MenuScroll.name(), "ui.menu.scroll");
    assert_eq!(Scope::TextInfo.name(), "ui.text.info");
    assert_eq!(Scope::PopupInfo.name(), "ui.popup.info");
    assert_eq!(Scope::Menu.fallback(), Some("ui.text"));
    assert_eq!(Scope::MenuSelected.fallback(), None);
    assert_eq!(Scope::PopupInfo.fallback(), None);
}

#[test]
fn cells_and_rows() {
    assert_eq!(Cell::new("abc".to_string()).width(), 3);
    assert_eq!(Cell::new("日本".to_string()).width(), 4);
    assert_eq!(Cell::new(String::new()).width(), 0);
    // A cell of several lines is as wide as its widest line.
    assert_eq!(Cell::new("ab\nabcd\nabc".to_string()).width(), 4);
    assert_eq!(Cell::new("abcd\n".to_string()).width(), 4);
    let row = Row::new(vec![Cell::new("ab".to_string()), Cell::new("cd".to_string()), Cell::new("e".to_string())]);
    assert_eq!(row.cell_text(), "abcde");
    assert_eq!(Row::single("one".to_string()).cells, vec![Cell::new("one".to_string())]);
    assert_eq!(Row::new(Vec::new()).cell_text(), "");
}

#[test]
fn rect_edges() {
    let rect = Rect::new(3, 4, 10, 20);
    assert_eq!((rect.left(), rect.right(), rect.top(), rect.bottom()), (3, 13, 4, 24));
    let far = Rect::new(65_530, 65_530, 10, 10);
    assert_eq!((far.right(), far.bottom()), (65_535, 65_535));
}

#[test]
fn rect_clipping() {
    let rect = Rect::new(3, 4, 10, 20);
    assert_eq!(rect.clip_left(1), Rect::new(4, 4, 9, 20));
    assert_eq!(rect.clip_left(10), Rect::new(13, 4, 0, 20));
    assert_eq!(rect.clip_left(50), Rect::new(13, 4, 0, 20));
    assert_eq!(rect.clip_right(1), Rect::new(3, 4, 9, 20));
    assert_eq!(rect.clip_right(50), Rect::new(3, 4, 0, 20));
    assert_eq!(rect.clip_left(1).clip_right(1), Rect::new(4, 4, 8, 20));
}

#[test]
fn rect_intersection() {
    let a = Rect::new(0, 0, 10, 10);
    assert_eq!(a.intersection(Rect::new(5, 5, 10, 10)), Rect::new(5, 5, 5, 5));
    assert_eq!(a.intersection(Rect::new(2, 3, 4, 5)), Rect::new(2, 3, 4, 5));
    assert_eq!(a.intersection(a), a);
    // Rectangles that do not meet have no cell in common.
    let apart = a.intersection(Rect::new(20, 0, 5, 5));
    assert_eq!((apart.width, apart.height), (0, 5));
    let far = Rect::new(65_530, 0, 10, 1).intersection(Rect::new(65_534, 0, 10, 1));
    assert_eq!(far, Rect::new(65_534, 0, 6, 1));
}

#[test]
fn positions_and_cursor_kinds() {
    assert_eq!(Position::new(2, 3), Position { row: 2, col: 3 });
    assert_ne!(CursorKind::Hidden, CursorKind::Block);
}

#[test]
fn key_events() {
    assert_eq!(KeyEvent::key(KeyCode::Esc), KeyEvent { code: KeyCode::Esc, modifiers: KeyModifiers::none() });
    assert_eq!(
        KeyEvent::ctrl('c'),
        KeyEvent { code: KeyCode::Char('c'), modifiers: KeyModifiers { shift: false, control: true, alt: false } }
    );
    assert_eq!(
        KeyEvent::shift(KeyCode::Tab),
        KeyEvent { code: KeyCode::Tab, modifiers: KeyModifiers { shift: true, control: false, alt: false } }
    );
    assert_ne!(KeyEvent::key(KeyCode::Char('c')), KeyEvent::ctrl('c'));
}
