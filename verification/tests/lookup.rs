use std::path::PathBuf;

use compositor::compositor::{id_is, AnyComponent, Component, Compositor, Editor};
use compositor::graphics::Rect;
use compositor::info::Info;
use compositor::layer::Layer;
use compositor::menu::{Menu, MenuEvent};
use compositor::text::Text;

type Callee = fn(&Editor, Option<&PathBuf>, MenuEvent);
type Stack = Compositor<Layer<PathBuf, Callee>>;

fn quiet(_editor: &Editor, _selection: Option<&PathBuf>, _event: MenuEvent) {}

fn menu(names: &[&str]) -> Menu<PathBuf, Callee> {
    Menu::new(names.iter().map(PathBuf::from).collect(), PathBuf::new(), quiet as Callee)
}

fn stack() -> Stack {
    let mut stack: Stack = Compositor::new(Rect::new(0, 0, 80, 24));
    stack.push(Layer::Text(Text::new("one\ntwo".to_string())));
    stack.push(Layer::Menu(menu(&["a", "b", "c"])));
    stack.push(Layer::Text(Text::new("three".to_string())));
    stack
}

#[test]
fn find_gives_the_lowest_layer_of_the_kind() {
    let mut stack = stack();
    let text: Option<&mut Text> = stack.find();
    let text = text.expect("there is a text");
    assert_eq!(text.required_size((80, 24)), Some((3, 2)));
    let menu: Option<&mut Menu<PathBuf, Callee>> = stack.find();
    assert_eq!(menu.expect("there is a menu").len(), 3);
    let info: Option<&mut Info> = stack.find();
    assert!(info.is_none());
}

#[test]
fn find_lets_the_layer_be_changed_in_place() {
    let mut stack = stack();
    {
        let menu: Option<&mut Menu<PathBuf, Callee>> = stack.find();
        menu.unwrap().move_down();
    }
    match &stack.layers[1] {
        Layer::Menu(menu) => assert_eq!(menu.selected_row(), Some(0)),
        _ => panic!("the menu moved"),
    }
    assert_eq!(stack.layers.len(), 3);
}

#[test]
fn find_id_gives_the_layer_with_the_id() {
    let stack = stack();
    let menu: Option<&Menu<PathBuf, Callee>> = stack.find_id("menu-component");
    assert_eq!(menu.map(|m| m.len()), Some(3));
    let text: Option<&Text> = stack.find_id("text-component");
    assert!(text.is_some());
    let info: Option<&Info> = stack.find_id("info-component");
    assert!(info.is_none());
}

#[test]
fn find_id_of_another_kind_gives_nothing() {
    let mut stack = stack();
    let text: Option<&Text> = stack.find_id("menu-component");
    assert!(text.is_none());
    let info: Option<&mut Info> = stack.find_id_mut("text-component");
    assert!(info.is_none());
    assert_eq!(stack.layers.len(), 3);
}

#[test]
fn find_id_mut_lets_the_layer_be_changed_in_place() {
    let mut stack = stack();
    {
        let menu: Option<&mut Menu<PathBuf, Callee>> = stack.find_id_mut("menu-component");
        let menu = menu.unwrap();
        menu.move_up();
    }
    let menu: Option<&Menu<PathBuf, Callee>> = stack.find_id("menu-component");
    assert_eq!(menu.unwrap().selected_row(), Some(2));
}

#[test]
fn downcast_ref_tells_the_kinds_apart() {
    let layer: Layer<PathBuf, Callee> = Layer::Text(Text::new("text".to_string()));
    let as_text: &dyn AnyComponent<Text> = &layer;
    assert!(as_text.is());
    assert!(as_text.downcast_ref().is_some());
    let as_info: &dyn AnyComponent<Info> = &layer;
    assert!(!as_info.is());
    assert!(as_info.downcast_ref().is_none());
    let as_menu: &dyn AnyComponent<Menu<PathBuf, Callee>> = &layer;
    assert!(!as_menu.is());
}

#[test]
fn downcast_mut_changes_the_layer() {
    let mut layer: Layer<PathBuf, Callee> = Layer::Menu(menu(&["a", "b"]));
    {
        let any: &mut dyn AnyComponent<Menu<PathBuf, Callee>> = &mut layer;
        let menu = any.downcast_mut().expect("it is a menu");
        menu.move_down();
        menu.move_down();
    }
    match &layer {
        Layer::Menu(menu) => assert_eq!(menu.selected_row(), Some(1)),
        _ => panic!("it is a menu"),
    }
    let any: &mut dyn AnyComponent<Text> = &mut layer;
    assert!(any.downcast_mut().is_none());
}

#[test]
fn downcast_takes_the_component_out_or_gives_the_layer_back() {
    let layer: Box<dyn AnyComponent<Info>> =
        Box::new(Layer::<PathBuf, Callee>::Info(Info::new("t".to_string(), "x".to_string(), 7, 2)));
    match layer.downcast() {
        Ok(info) => assert_eq!(info.area(), Rect::new(0, 0, 11, 4)),
        Err(_) => panic!("it is an info box"),
    }
    let layer: Box<dyn AnyComponent<Info>> =
        Box::new(Layer::<PathBuf, Callee>::Text(Text::new("text".to_string())));
    match layer.downcast() {
        Ok(_) => panic!("it is a text"),
        Err(layer) => assert!(!layer.is()),
    }
}

#[test]
fn id_is_compares_the_text() {
    assert!(id_is(Some("menu-component"), "menu-component"));
    assert!(!id_is(Some("menu-component"), "text-component"));
    assert!(!id_is(Some("menu"), "menu-component"));
    assert!(!id_is(None, ""));
}

#[test]
fn components_have_their_ids_and_kinds() {
    let text = Text::new("t".to_string());
    let info = Info::new("t".to_string(), "x".to_string(), 1, 1);
    let menu = menu(&["a"]);
    assert_eq!(text.id(), Some("text-component"));
    assert_eq!(info.id(), Some("info-component"));
    assert_eq!(menu.id(), Some("menu-component"));
    assert_eq!(text.kind(), "Text");
    assert_eq!(info.kind(), "Info");
    assert_eq!(menu.kind(), "Menu");
    assert!(text.should_update() && info.should_update() && menu.should_update());
    let layer: Layer<PathBuf, Callee> = Layer::Info(info);
    assert_eq!(layer.id(), Some("info-component"));
    assert_eq!(layer.kind(), "Info");
}
