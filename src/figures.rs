//! Shapes and their styles, turned into definitions that a renderer can place.

pub mod circle;
pub mod figure;
pub mod path;
pub mod preset;
pub mod shape;
pub mod sub_path;

use crate::definition::{element_text, text_hash, with_attribute, Definition};
use crate::figures::shape::{styled, subshape_attributes, subshape_tag, AttributeField, Shape, SubShapeView};
use crate::model::figure_id_text;
use crate::renderer::figure_id_string;
use crate::text::{push_signed, signed_dec};
use vstd::prelude::*;
use vstd::string::*;

verus! {

/// A point of the drawing plane: x, then y.
pub type Point = (i32, i32);

/// The value of a [`Shape`]: its style entries and its geometry.
pub type ShapeView = (Seq<(AttributeField, Seq<char>)>, SubShapeView);

/// The attributes with `x` and `y` set to a location.
pub open spec fn located(attributes: Seq<(Seq<char>, Seq<char>)>, location: Point) -> Seq<(Seq<char>, Seq<char>)> {
    with_attribute(
        with_attribute(attributes, "x"@, signed_dec(location.0 as int)),
        "y"@,
        signed_dec(location.1 as int),
    )
}

/// The markup of a styled shape placed at a location.
pub open spec fn placed_shape_text(shape: ShapeView, location: Point) -> Seq<char> {
    element_text(
        subshape_tag(shape.1),
        located(styled(subshape_attributes(shape.1), shape.0), location),
        Seq::empty(),
    )
}

/// The markup of all shapes of a figure, in order.
pub open spec fn figure_body(shapes: Seq<(ShapeView, Point)>) -> Seq<char>
    decreases shapes.len(),
{
    if shapes.len() == 0 {
        Seq::empty()
    } else {
        figure_body(shapes.drop_last()) + placed_shape_text(shapes.last().0, shapes.last().1)
    }
}

/// The markup of a figure: a group of its placed shapes.
pub open spec fn figure_text(shapes: Seq<(ShapeView, Point)>) -> Seq<char> {
    element_text("g"@, Seq::empty(), figure_body(shapes))
}

/// Shapes, each at its own place, drawn as one group.
pub struct Figure {
    shapes: Vec<(Shape, Point)>,
}

impl View for Figure {
    type V = Seq<(ShapeView, Point)>;

    closed spec fn view(&self) -> Seq<(ShapeView, Point)> {
        self.shapes@.map_values(|s: (Shape, Point)| (s.0@, s.1))
    }
}

impl Figure {
    /// Sets `x` and `y` of `element` to `location`.
    fn set_shape_location(location: &Point, element: Definition) -> (d: Definition)
        requires
            element.wf(),
        ensures
            d.wf(),
            d.tag() == element.tag(),
            d.attributes() == located(element.attributes(), *location),
            d.body() == element.body(),
    {
        let mut x = String::new();
        push_signed(&mut x, location.0 as i64);
        let mut y = String::new();
        push_signed(&mut y, location.1 as i64);
        element.set("x", x.as_str()).set("y", y.as_str())
    }

    /// A figure of the given shapes.
    pub fn new(shapes: Vec<(Shape, Point)>) -> (f: Figure)
        ensures
            f@ == shapes@.map_values(|s: (Shape, Point)| (s.0@, s.1)),
    {
        Figure { shapes }
    }

    /// The content id of the figure's definition.
    pub fn get_hash(&self) -> (h: u64)
        ensures
            h == text_hash(figure_text(self@)),
    {
        self.to_def().id()
    }

    /// The element id of the figure's definition node.
    pub fn get_id(&self) -> (s: String)
        ensures
            s@ == figure_id_text(text_hash(figure_text(self@))),
    {
        figure_id_string(self.get_hash())
    }

    /// The definition of the figure: a `g` element holding each styled shape at
    /// its location.
    pub fn to_def(&self) -> (d: Definition)
        ensures
            d.wf(),
            d.tag() == "g"@,
            d.attributes() == Seq::<(Seq<char>, Seq<char>)>::empty(),
            d.body() == figure_body(self@),
            d@ == figure_text(self@),
    {
        let mut g = Definition::new("g");
        let n = self.shapes.len();
        let mut i: usize = 0;
        while i < n
            invariant
                n == self.shapes.len(),
                i <= n,
                g.wf(),
                g.tag() == "g"@,
                g.attributes() == Seq::<(Seq<char>, Seq<char>)>::empty(),
                g.body() == figure_body(self@.take(i as int)),
            decreases n - i,
        {
            let (shape, location) = &self.shapes[i];
            let element = Figure::set_shape_location(location, shape.to_styled_element());
            assert(element@ == placed_shape_text(self@[i as int].0, self@[i as int].1));
            g = g.append(&element);
            assert(self@.take(i + 1).drop_last() =~= self@.take(i as int));
            i = i + 1;
        }
        assert(self@.take(n as int) =~= self@);
        g
    }
}

} // verus!
