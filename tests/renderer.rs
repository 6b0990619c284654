use std::collections::hash_map::DefaultHasher;
use std::hash::Hasher;

use wasm_svg_graphics::definition::Definition;
use wasm_svg_graphics::document::ItemKind;
use wasm_svg_graphics::errors::{DomError, RendererError};
use wasm_svg_graphics::renderer::{figure_id_string, named_id_string, Renderer};

fn circle(radius: &str) -> Definition {
    Definition::new("circle")
        .set("r", radius)
        .set("stroke", "#000000")
        .set("fill", "transparent")
}

fn rect(width: &str, height: &str) -> Definition {
    Definition::new("rect").set("width", width).set("height", height)
}

fn use_of(r: &Renderer, index: usize) -> (u64, i32, i32) {
    match r.items()[index].kind {
        ItemKind::Use { def_id, x, y } => (def_id, x, y),
        ItemKind::Group => panic!("not a reference"),
    }
}

fn index_of(r: &Renderer, name: &str) -> usize {
    r.items()
        .iter()
        .position(|it| it.name.as_deref() == Some(name))
        .expect("name is placed")
}

#[test]
fn new_renderer_is_empty() {
    let r = Renderer::new("svg_parent_id");
    assert_eq!(r.dom_root_id(), "svg_parent_id");
    assert_eq!(r.view_box(), (0, 0, 100, 100));
    assert!(r.definitions().is_empty());
    assert!(r.items().is_empty());
}

#[test]
fn equal_definitions_share_one_node() {
    let mut r = Renderer::new("p");
    let first = r.define_render(circle("10")).unwrap();
    let second = r.define_render(circle("10")).unwrap();
    assert_eq!(first, second);
    assert_eq!(r.definitions().len(), 1);
    r.render(circle("10"), (1, 1)).unwrap();
    r.render(circle("10"), (2, 2)).unwrap();
    assert_eq!(r.definitions().len(), 1);
    assert_eq!(r.items().len(), 2);
    assert_eq!(use_of(&r, 0).0, first);
    assert_eq!(use_of(&r, 1).0, first);
}

#[test]
fn different_definitions_get_two_nodes() {
    let mut r = Renderer::new("p");
    let a = r.define_render(circle("10")).unwrap();
    let b = r.define_render(circle("20")).unwrap();
    let c = r.define_render(rect("3", "4")).unwrap();
    assert_ne!(a, b);
    assert_ne!(a, c);
    assert_ne!(b, c);
    assert_eq!(r.definitions().len(), 3);
    assert_eq!(r.definitions()[0].id, a);
    assert_eq!(r.definitions()[1].id, b);
    assert_eq!(r.definitions()[0].definition.to_markup(), circle("10").to_markup());
}

#[test]
fn content_id_is_the_hash_of_the_markup() {
    let d = circle("10");
    let mut h = DefaultHasher::new();
    h.write(d.to_markup().as_bytes());
    assert_eq!(d.id(), h.finish());
    let mut r = Renderer::new("p");
    assert_eq!(r.define_render(circle("10")).unwrap(), h.finish());
}

#[test]
fn second_render_named_conflicts() {
    let mut r = Renderer::new("p");
    r.render_named("a", circle("10"), (1, 1)).unwrap();
    let err = r.render_named("a", circle("10"), (2, 2)).unwrap_err();
    assert!(matches!(err, RendererError::NameAlreadyExists(ref n) if n == "a"));
    assert_eq!(r.items().len(), 1);
    assert_eq!(r.definitions().len(), 1);
    let (_, x, y) = use_of(&r, 0);
    assert_eq!((x, y), (1, 1));
}

#[test]
fn container_cannot_be_moved() {
    let mut r = Renderer::new("p");
    r.create_named_container("c", "root").unwrap();
    r.append_to_container("c", circle("10"), (0, 0)).unwrap();
    let err = r.move_named("c", (5, 5)).unwrap_err();
    assert!(matches!(err, RendererError::NamedNotUse(ref n) if n == "c"));
    assert!(r.is_container("c"));
}

#[test]
fn delete_frees_the_name() {
    let mut r = Renderer::new("p");
    r.render_named("x", circle("10"), (1, 1)).unwrap();
    assert!(r.does_name_exist("x"));
    r.delete_named("x").unwrap();
    assert!(!r.does_name_exist("x"));
    r.render_named("x", circle("10"), (2, 2)).unwrap();
    assert!(r.does_name_exist("x"));
    assert_eq!(r.definitions().len(), 1);
    let (_, x, y) = use_of(&r, index_of(&r, "x"));
    assert_eq!((x, y), (2, 2));
}

#[test]
fn clear_forgets_names_and_definitions() {
    let mut r = Renderer::new("p");
    r.render_named("named_circle", circle("10"), (10, 10)).unwrap();
    r.create_named_container("group", "root").unwrap();
    let id = r.define_render(rect("1", "1")).unwrap();
    r.adjust_viewbox(1, 2, 3, 4);
    r.clear();
    assert!(!r.does_name_exist("named_circle"));
    assert!(!r.does_name_exist("group"));
    assert!(r.definitions().is_empty());
    assert!(r.items().is_empty());
    assert_eq!(r.view_box(), (1, 2, 3, 4));
    let err = r.render_id(id, (0, 0)).unwrap_err();
    assert!(matches!(err, RendererError::UnfindableDefinition(i) if i == id));
    r.render_named("named_circle", circle("10"), (20, 20)).unwrap();
}

#[test]
fn hide_then_show_restores_visibility() {
    let mut r = Renderer::new("p");
    r.render_named("x", circle("10"), (1, 1)).unwrap();
    let i = index_of(&r, "x");
    assert!(!r.items()[i].hidden);
    r.hide_named("x").unwrap();
    assert!(r.items()[i].hidden);
    r.show_named("x").unwrap();
    assert!(!r.items()[i].hidden);
    assert!(matches!(r.hide_named("y"), Err(RendererError::UnfindableName(_))));
    assert!(matches!(r.show_named("root"), Err(RendererError::UnfindableName(_))));
}

#[test]
fn clearing_a_container_keeps_it() {
    let mut r = Renderer::new("p");
    r.create_named_container("panel", "root").unwrap();
    r.render(circle("10"), (10, 10)).unwrap();
    r.append_to_container("panel", rect("5", "5"), (0, 0)).unwrap();
    r.create_named_container("inner", "panel").unwrap();
    r.append_to_container("inner", circle("1"), (0, 0)).unwrap();
    assert_eq!(r.items().len(), 5);
    r.clear_named_container("panel").unwrap();
    assert!(r.does_name_exist("panel"));
    assert!(r.is_container("panel"));
    assert!(!r.does_name_exist("inner"));
    assert_eq!(r.items().len(), 2);
    assert_eq!(use_of(&r, 1).1, 10);
    assert_eq!(r.definitions().len(), 3);
}

#[test]
fn nested_containers_record_their_path() {
    let mut r = Renderer::new("p");
    r.create_named_container("outer", "root").unwrap();
    r.create_named_container("inner", "outer").unwrap();
    r.append_to_container("inner", circle("3"), (4, 5)).unwrap();
    let last = r.items().last().unwrap();
    assert_eq!(last.ancestors, vec![String::from("outer"), String::from("inner")]);
    assert!(r.items()[0].ancestors.is_empty());
}

#[test]
fn delete_container_takes_its_content() {
    let mut r = Renderer::new("p");
    r.create_named_container("outer", "root").unwrap();
    r.create_named_container("inner", "outer").unwrap();
    r.render_named("solo", circle("2"), (0, 0)).unwrap();
    r.append_to_container("inner", circle("3"), (0, 0)).unwrap();
    r.append_to_container("outer", circle("3"), (0, 0)).unwrap();
    r.delete_named("outer").unwrap();
    assert!(!r.does_name_exist("outer"));
    assert!(!r.does_name_exist("inner"));
    assert!(r.does_name_exist("solo"));
    assert_eq!(r.items().len(), 1);
    assert_eq!(r.definitions().len(), 2);
}

#[test]
fn update_named_instance_in_place() {
    let mut r = Renderer::new("p");
    r.render(circle("1"), (0, 0)).unwrap();
    r.render_named("x", circle("10"), (1, 1)).unwrap();
    r.hide_named("x").unwrap();
    r.update_named("x", rect("2", "2"), (7, 8)).unwrap();
    let i = index_of(&r, "x");
    assert_eq!(i, 1);
    let id = rect("2", "2").id();
    assert_eq!(use_of(&r, i), (id, 7, 8));
    assert!(r.items()[i].hidden);
    assert_eq!(r.definitions().len(), 3);
}

#[test]
fn update_named_container_replaces_content() {
    let mut r = Renderer::new("p");
    r.create_named_container("named_container", "root").unwrap();
    r.append_to_container("named_container", circle("10"), (10, 10)).unwrap();
    r.append_to_container("named_container", circle("11"), (10, 10)).unwrap();
    r.update_named("named_container", circle("10"), (20, 20)).unwrap();
    assert_eq!(r.items().len(), 2);
    assert_eq!(use_of(&r, 1), (circle("10").id(), 20, 20));
    assert_eq!(r.items()[1].ancestors, vec![String::from("named_container")]);
}

#[test]
fn update_named_with_id_checks_definition_then_name() {
    let mut r = Renderer::new("p");
    r.create_named_container("named_container", "root").unwrap();
    let id = r.define_render(circle("10")).unwrap();
    let err = r.update_named_with_id("named_container", id ^ 1, (1, 1)).unwrap_err();
    assert!(matches!(err, RendererError::UnfindableDefinition(_)));
    let err = r.update_named_with_id("missing", id, (1, 1)).unwrap_err();
    assert!(matches!(err, RendererError::UnfindableName(ref n) if n == "missing"));
    r.update_named_with_id("named_container", id, (20, 20)).unwrap();
    assert_eq!(use_of(&r, 1), (id, 20, 20));
}

#[test]
fn update_unknown_name_fails() {
    let mut r = Renderer::new("p");
    let err = r.update_named("nobody", circle("1"), (0, 0)).unwrap_err();
    assert!(matches!(err, RendererError::UnfindableName(ref n) if n == "nobody"));
    assert!(r.definitions().is_empty());
}

#[test]
fn render_by_id() {
    let mut r = Renderer::new("p");
    let id = r.define_render(circle("10")).unwrap();
    r.render_id(id, (20, 20)).unwrap();
    r.render_named_id("named_circle", id, (20, 20)).unwrap();
    r.move_named("named_circle", (25, 25)).unwrap();
    assert_eq!(use_of(&r, 1), (id, 25, 25));
    assert!(matches!(r.render_named_id("other", id ^ 1, (0, 0)), Err(RendererError::UnfindableDefinition(_))));
    assert!(matches!(
        r.render_named_id("named_circle", id, (0, 0)),
        Err(RendererError::NameAlreadyExists(_))
    ));
}

#[test]
fn append_with_id() {
    let mut r = Renderer::new("p");
    r.create_named_container("named_container", "root").unwrap();
    let id = r.define_render(circle("10")).unwrap();
    r.append_to_container_with_id("named_container", id, (10, 10)).unwrap();
    r.append_to_container_with_id("root", id, (1, 1)).unwrap();
    assert_eq!(r.items().len(), 3);
    assert!(r.items()[2].ancestors.is_empty());
    assert!(matches!(
        r.append_to_container_with_id("nothing", id, (1, 1)),
        Err(RendererError::UnfindableName(_))
    ));
}

#[test]
fn kind_errors() {
    let mut r = Renderer::new("p");
    r.render_named("named_circle", circle("10"), (10, 10)).unwrap();
    let err = r.append_to_container("named_circle", circle("1"), (0, 0)).unwrap_err();
    assert!(matches!(err, RendererError::NamedNotContainer(ref n) if n == "named_circle"));
    let err = r.create_named_container("c", "named_circle").unwrap_err();
    assert!(matches!(err, RendererError::NamedNotContainer(_)));
    let err = r.clear_named_container("named_circle").unwrap_err();
    assert!(matches!(err, RendererError::NamedNotContainer(_)));
    let err = r.create_named_container("c", "missing").unwrap_err();
    assert!(matches!(err, RendererError::UnfindableName(ref n) if n == "missing"));
    let err = r.move_named("missing", (1, 1)).unwrap_err();
    assert!(matches!(err, RendererError::UnfindableName(_)));
    let err = r.delete_named("missing").unwrap_err();
    assert!(matches!(err, RendererError::UnfindableName(_)));
}

#[test]
fn root_name_is_reserved() {
    let mut r = Renderer::new("p");
    let err = r.render_named("root", circle("1"), (0, 0)).unwrap_err();
    assert!(matches!(err, RendererError::NameAlreadyExists(ref n) if n == "root"));
    let err = r.create_named_container("root", "root").unwrap_err();
    assert!(matches!(err, RendererError::NameAlreadyExists(_)));
    assert!(r.is_container("root"));
    assert!(!r.does_name_exist("root"));
    assert!(r.items().is_empty());
}

#[test]
fn is_container_answers() {
    let mut r = Renderer::new("p");
    r.render_named("named_circle", circle("10"), (10, 10)).unwrap();
    r.create_named_container("named_container", "root").unwrap();
    assert!(!r.is_container("named_circle"));
    assert!(r.is_container("named_container"));
    assert!(!r.is_container("not_in_use_name"));
}

#[test]
fn root_container_can_be_cleared() {
    let mut r = Renderer::new("p");
    r.render_named("a", circle("1"), (0, 0)).unwrap();
    r.render(circle("2"), (0, 0)).unwrap();
    r.clear_named_container("root").unwrap();
    assert!(r.items().is_empty());
    assert!(!r.does_name_exist("a"));
    assert_eq!(r.definitions().len(), 2);
}

#[test]
fn element_ids() {
    assert_eq!(figure_id_string(0), "figure-0");
    assert_eq!(figure_id_string(255), "figure-ff");
    assert_eq!(figure_id_string(u64::MAX), "figure-ffffffffffffffff");
    let mut h = DefaultHasher::new();
    h.write("named_circle".as_bytes());
    assert_eq!(named_id_string("named_circle"), format!("named-{:x}", h.finish()));
}

#[test]
fn error_messages() {
    assert_eq!(
        RendererError::UnfindableName(String::from("x")).to_string(),
        "Error 'The name is unable to be found' with argument 'x'"
    );
    assert_eq!(
        RendererError::Dom(DomError::NoParent).to_string(),
        "Error: Container has no parent element"
    );
    assert_eq!(
        DomError::UnsetableAttribute(String::from("x"), String::from("1")).to_string(),
        "Error 'Unable to set attribute' with arguments 'x' and '1'"
    );
    assert_eq!(
        DomError::IdAlreadyExists(String::from("named-1")).to_string(),
        "Error 'The given ID already exists within the dom' with argument 'named-1'"
    );
    assert_eq!(RendererError::UnfindableDefinition(3).description(), "The definition is unable to be found");
    assert_eq!(DomError::NoWindow.description(), "Unable to find window");
}

#[test]
fn contains_queries() {
    let mut r = Renderer::new("p");
    assert!(!r.contains_figure(&circle("10")));
    let id = r.define_render(circle("10")).unwrap();
    assert!(r.contains_id(id));
    assert!(r.contains_figure(&circle("10")));
    assert!(!r.contains_figure(&circle("11")));
    r.clear();
    assert!(!r.contains_id(id));
}
