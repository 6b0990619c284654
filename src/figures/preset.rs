//! Figures that are used often.

use crate::figures::circle::CircleProps;
use crate::figures::path::PathProps;
use crate::figures::shape::{default_style, Shape, ShapeStyle, SubShape, SubShapeView};
use crate::figures::sub_path::SubPath;
use crate::figures::{Figure, Point};
use vstd::prelude::*;

verus! {

/// A circle of radius `radius` in the default style, at the origin.
pub fn circle(radius: u32) -> (f: Figure)
    ensures
        f@ == seq![((default_style(), SubShapeView::Circle(radius)), (0i32, 0i32))],
{
    let shape = Shape::new(ShapeStyle::new_from_default(), SubShape::Circle(CircleProps::new(radius)));
    let f = Figure::new(vec![(shape, (0, 0))]);
    assert(f@ =~= seq![((default_style(), SubShapeView::Circle(radius)), (0i32, 0i32))]);
    f
}

/// A straight line from `start_point` to `end_point` in the default style.
pub fn line(start_point: Point, end_point: Point) -> (f: Figure)
    ensures
        f@ == seq![
            (
                (default_style(), SubShapeView::Path((start_point, seq![SubPath::Line(end_point)], false))),
                (0i32, 0i32),
            ),
        ],
{
    let path = PathProps::new(start_point, vec![SubPath::Line(end_point)], false);
    let shape = Shape::new(ShapeStyle::new_from_default(), SubShape::Path(path));
    let f = Figure::new(vec![(shape, (0, 0))]);
    assert(path@.1 =~= seq![SubPath::Line(end_point)]);
    assert(f@ =~= seq![
        (
            (default_style(), SubShapeView::Path((start_point, seq![SubPath::Line(end_point)], false))),
            (0i32, 0i32),
        ),
    ]);
    f
}

} // verus!
