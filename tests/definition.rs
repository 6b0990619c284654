use wasm_svg_graphics::definition::{hash_text, Definition};
use wasm_svg_graphics::figures::circle::CircleProps;
use wasm_svg_graphics::figures::figure::{AttributeField as TypedField, FigureStyle};
use wasm_svg_graphics::figures::shape::{AttributeField, ShapeStyle};
use wasm_svg_graphics::color::{black, TransparentableColor};

#[test]
fn markup_of_a_definition() {
    let d = Definition::new("circle").set("r", "10").set("cx", "0");
    assert_eq!(d.to_markup(), "<circle r=\"10\" cx=\"0\"></circle>");
}

#[test]
fn set_replaces_in_place() {
    let d = Definition::new("rect").set("width", "1").set("height", "2").set("width", "3");
    assert_eq!(d.to_markup(), "<rect width=\"3\" height=\"2\"></rect>");
}

#[test]
fn values_are_escaped() {
    let d = Definition::new("text").set("title", "a\"b<c&d");
    assert_eq!(d.to_markup(), "<text title=\"a&quot;b&lt;c&amp;d\"></text>");
}

#[test]
fn append_nests_markup() {
    let eye = Definition::new("circle").set("r", "3");
    let face = Definition::new("g").set("id", "face").append(&eye).append(&eye);
    assert_eq!(
        face.to_markup(),
        "<g id=\"face\"><circle r=\"3\"></circle><circle r=\"3\"></circle></g>"
    );
}

#[test]
fn id_depends_on_markup() {
    let a = Definition::new("circle").set("r", "10");
    let b = Definition::new("circle").set("r", "10");
    let c = Definition::new("circle").set("r", "11");
    assert_eq!(a.id(), b.id());
    assert_ne!(a.id(), c.id());
    assert_eq!(a.id(), hash_text(&a.to_markup()));
}

#[test]
fn shape_style_defaults_and_replacement() {
    let mut s = ShapeStyle::new_from_default();
    let entries: Vec<(AttributeField, String)> = s.attributes().clone();
    assert_eq!(
        entries,
        vec![
            (AttributeField::StrokeWidth, String::from("1")),
            (AttributeField::StrokeColor, String::from("#000000")),
            (AttributeField::FillColor, String::from("transparent")),
        ]
    );
    s.add_style(AttributeField::FillColor, String::from("#ff0000"));
    assert_eq!(s.attributes().len(), 3);
    assert_eq!(s.attributes()[2], (AttributeField::FillColor, String::from("#ff0000")));
    let mut e = ShapeStyle::new();
    assert!(e.attributes().is_empty());
    e.add_style(AttributeField::StrokeWidth, String::from("2"));
    e.add_style(AttributeField::StrokeColor, String::from("#111111"));
    e.add_style(AttributeField::StrokeWidth, String::from("4"));
    assert_eq!(
        e.attributes().clone(),
        vec![
            (AttributeField::StrokeWidth, String::from("4")),
            (AttributeField::StrokeColor, String::from("#111111")),
        ]
    );
}

#[test]
fn attribute_names() {
    assert_eq!(AttributeField::StrokeWidth.to_attribute_string(), "stroke-width");
    assert_eq!(AttributeField::StrokeColor.to_attribute_string(), "stroke");
    assert_eq!(AttributeField::FillColor.to_attribute_string(), "fill");
}

#[test]
fn figure_style_keeps_order() {
    let mut s = FigureStyle::new();
    s.add_style(TypedField::StrokeWidth(2));
    s.add_style(TypedField::StrokeWidth(3));
    assert_eq!(
        s.apply_style(Definition::new("rect")).to_markup(),
        "<rect stroke-width=\"3\"></rect>"
    );
    let d = FigureStyle::new_from_default();
    assert_eq!(
        d.apply_style(CircleProps::new(4).to_element()).to_markup(),
        "<circle r=\"4\" cx=\"0\" cy=\"0\" stroke-width=\"1\" stroke=\"#000000\" fill=\"transparent\"></circle>"
    );
    let red = TypedField::FillColor(TransparentableColor::Color(wasm_svg_graphics::color::Color::new(255, 0, 0)));
    assert_eq!(red.add_to_element(Definition::new("g")).to_markup(), "<g fill=\"#ff0000\"></g>");
    assert_ne!(TypedField::StrokeColor(TransparentableColor::Color(black())), TypedField::FillColor(TransparentableColor::Transparent));
}
