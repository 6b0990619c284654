use wasm_svg_graphics::definition::Definition;
use wasm_svg_graphics::figures::circle::CircleProps;
use wasm_svg_graphics::figures::path::PathProps;
use wasm_svg_graphics::figures::preset;
use wasm_svg_graphics::figures::shape::{AttributeField, Shape, ShapeStyle, SubShape};
use wasm_svg_graphics::figures::sub_path::SubPath;
use wasm_svg_graphics::figures::Figure;
use wasm_svg_graphics::renderer::{figure_id_string, Renderer};

#[test]
fn sub_path_text() {
    assert_eq!(SubPath::new_line((3, -4)).to_string(), "L 3 -4");
    assert_eq!(
        SubPath::new_bezier_curve((1, 2), (-3, 4), (5, -2147483648)).to_string(),
        "C 1 2 -3 4 5 -2147483648"
    );
}

#[test]
fn path_data() {
    let open = PathProps::new((0, 0), vec![SubPath::Line((10, 0)), SubPath::Line((0, 10))], false);
    assert_eq!(open.to_d_string(), "M 0 0 L 10 0 L 0 10");
    let closed = PathProps::new((1, 1), vec![SubPath::BezierCurve((2, 2), (3, 3), (4, 4))], true);
    assert_eq!(closed.to_d_string(), "M 1 1 C 2 2 3 3 4 4 Z");
    assert_eq!(PathProps::new((7, 8), vec![], false).to_d_string(), "M 7 8");
    assert_eq!(closed.to_element().to_markup(), "<path d=\"M 1 1 C 2 2 3 3 4 4 Z\"></path>");
}

#[test]
fn circle_element() {
    assert_eq!(
        CircleProps::new(12).to_element().to_markup(),
        "<circle r=\"12\" cx=\"0\" cy=\"0\"></circle>"
    );
}

#[test]
fn styled_shape() {
    let mut style = ShapeStyle::new();
    style.add_style(AttributeField::FillColor, String::from("#ff0000"));
    let shape = Shape::new(style, SubShape::Circle(CircleProps::new(2)));
    assert_eq!(
        shape.to_styled_element().to_markup(),
        "<circle r=\"2\" cx=\"0\" cy=\"0\" fill=\"#ff0000\"></circle>"
    );
    let element = AttributeField::StrokeWidth.set_attribute(Definition::new("rect"), "3");
    assert_eq!(element.to_markup(), "<rect stroke-width=\"3\"></rect>");
}

#[test]
fn preset_circle_definition() {
    let figure = preset::circle(10);
    let expected = "<g><circle r=\"10\" cx=\"0\" cy=\"0\" stroke-width=\"1\" stroke=\"#000000\" \
                    fill=\"transparent\" x=\"0\" y=\"0\"></circle></g>";
    assert_eq!(figure.to_def().to_markup(), expected);
    assert_eq!(figure.get_hash(), figure.to_def().id());
    assert_eq!(figure.get_id(), figure_id_string(figure.get_hash()));
}

#[test]
fn preset_line_definition() {
    let figure = preset::line((0, 0), (10, -5));
    let expected = "<g><path d=\"M 0 0 L 10 -5\" stroke-width=\"1\" stroke=\"#000000\" \
                    fill=\"transparent\" x=\"0\" y=\"0\"></path></g>";
    assert_eq!(figure.to_def().to_markup(), expected);
}

#[test]
fn figure_places_each_shape() {
    let a = Shape::new(ShapeStyle::new(), SubShape::Circle(CircleProps::new(1)));
    let b = Shape::new(ShapeStyle::new(), SubShape::Path(PathProps::new((0, 0), vec![], true)));
    let figure = Figure::new(vec![(a, (-7, 7)), (b, (3, 4))]);
    assert_eq!(
        figure.to_def().to_markup(),
        "<g><circle r=\"1\" cx=\"0\" cy=\"0\" x=\"-7\" y=\"7\"></circle>\
         <path d=\"M 0 0 Z\" x=\"3\" y=\"4\"></path></g>"
    );
}

#[test]
fn figures_render_once_per_content() {
    let mut r = Renderer::new("p");
    r.render(preset::circle(10).to_def(), (20, 20)).unwrap();
    r.render(preset::circle(10).to_def(), (30, 30)).unwrap();
    r.render(preset::circle(11).to_def(), (30, 30)).unwrap();
    assert_eq!(r.definitions().len(), 2);
    assert_eq!(r.definitions()[0].id, preset::circle(10).get_hash());
}

#[test]
fn text_is_escaped_in_the_body() {
    let d = Definition::new("text").append_text("a < b & \"c\"");
    assert_eq!(d.to_markup(), "<text>a &lt; b &amp; &quot;c&quot;</text>");
}
