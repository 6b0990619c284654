//! The pieces of a path after its starting point.

use crate::figures::Point;
use crate::text::{push_signed, signed_dec};
use vstd::prelude::*;
use vstd::string::*;

verus! {

/// One piece of a path, drawn from where the previous piece ended.
#[derive(Debug, Clone, Copy, PartialEq, Eq)]
pub enum SubPath {
    /// (Control point 1, Control point 2, End point)
    BezierCurve(Point, Point, Point),
    /// (End Point)
    Line(Point),
}

/// ` x y` for a point, each coordinate in base 10.
pub open spec fn point_text(p: Point) -> Seq<char> {
    " "@ + signed_dec(p.0 as int) + " "@ + signed_dec(p.1 as int)
}

/// The path data of one piece: `L x y`, or `C x1 y1 x2 y2 x y`.
pub open spec fn sub_path_text(s: SubPath) -> Seq<char> {
    match s {
        SubPath::Line(ep) => "L"@ + point_text(ep),
        SubPath::BezierCurve(c1, c2, ep) => "C"@ + point_text(c1) + point_text(c2) + point_text(ep),
    }
}

/// Appends ` x y` for `p` to `out`.
pub fn push_point(out: &mut String, p: Point)
    ensures
        final(out)@ == old(out)@ + point_text(p),
{
    proof {
        reveal_strlit(" ");
    }
    out.append(" ");
    push_signed(out, p.0 as i64);
    out.append(" ");
    push_signed(out, p.1 as i64);
    assert(final(out)@ =~= old(out)@ + point_text(p));
}

impl SubPath {
    /// A line ending at `end_point`.
    pub fn new_line(end_point: Point) -> (s: SubPath)
        ensures
            s == SubPath::Line(end_point),
    {
        SubPath::Line(end_point)
    }

    /// A cubic curve with the two control points, ending at `end_point`.
    pub fn new_bezier_curve(control_point1: Point, control_point2: Point, end_point: Point) -> (s: SubPath)
        ensures
            s == SubPath::BezierCurve(control_point1, control_point2, end_point),
    {
        SubPath::BezierCurve(control_point1, control_point2, end_point)
    }

    /// Its part of a path's `d` attribute.
    pub fn to_string(&self) -> (s: String)
        ensures
            s@ == sub_path_text(*self),
    {
        let mut s = String::new();
        match self {
            SubPath::BezierCurve(c1, c2, ep) => {
                proof {
                    reveal_strlit("C");
                }
                s.append("C");
                push_point(&mut s, *c1);
                push_point(&mut s, *c2);
                push_point(&mut s, *ep);
            },
            SubPath::Line(ep) => {
                proof {
                    reveal_strlit("L");
                }
                s.append("L");
                push_point(&mut s, *ep);
            },
        }
        assert(s@ =~= sub_path_text(*self));
        s
    }
}

} // verus!
