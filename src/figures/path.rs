//! The properties of a path shape.

use crate::definition::{with_attribute, Definition};
use crate::figures::sub_path::{point_text, push_point, sub_path_text, SubPath};
use crate::figures::Point;
use vstd::prelude::*;
use vstd::string::*;

verus! {

/// The path data of the pieces, each after a space.
pub open spec fn sub_paths_text(sub_paths: Seq<SubPath>) -> Seq<char>
    decreases sub_paths.len(),
{
    if sub_paths.len() == 0 {
        Seq::empty()
    } else {
        sub_paths_text(sub_paths.drop_last()) + " "@ + sub_path_text(sub_paths.last())
    }
}

/// The `d` attribute of a path: `M x y`, the pieces, and ` Z` when it is closed.
pub open spec fn d_text(start: Point, sub_paths: Seq<SubPath>, closed: bool) -> Seq<char> {
    "M"@ + point_text(start) + sub_paths_text(sub_paths) + if closed {
        " Z"@
    } else {
        Seq::empty()
    }
}

/// A path: a starting point, the pieces after it, and whether it is closed.
pub struct PathProps {
    start_point: Point,
    sub_paths: Vec<SubPath>,
    closed: bool,
}

impl View for PathProps {
    type V = (Point, Seq<SubPath>, bool);

    closed spec fn view(&self) -> (Point, Seq<SubPath>, bool) {
        (self.start_point, self.sub_paths@, self.closed)
    }
}

impl PathProps {
    /// A path from `start_point` through `sub_paths`.
    pub fn new(start_point: Point, sub_paths: Vec<SubPath>, closed: bool) -> (p: PathProps)
        ensures
            p@ == (start_point, sub_paths@, closed),
    {
        PathProps { start_point, sub_paths, closed }
    }

    /// The `d` attribute.
    pub fn to_d_string(&self) -> (s: String)
        ensures
            s@ == d_text(self@.0, self@.1, self@.2),
    {
        proof {
            reveal_strlit("M");
            reveal_strlit(" ");
            reveal_strlit(" Z");
        }
        let mut s = String::from_str("M");
        push_point(&mut s, self.start_point);
        let n = self.sub_paths.len();
        let mut i: usize = 0;
        while i < n
            invariant
                n == self.sub_paths.len(),
                i <= n,
                s@ == "M"@ + point_text(self.start_point) + sub_paths_text(self.sub_paths@.take(i as int)),
            decreases n - i,
        {
            s.append(" ");
            let piece = self.sub_paths[i].to_string();
            s.append(piece.as_str());
            assert(self.sub_paths@.take(i + 1).drop_last() =~= self.sub_paths@.take(i as int));
            i = i + 1;
        }
        assert(self.sub_paths@.take(n as int) =~= self.sub_paths@);
        if self.closed {
            s.append(" Z");
        }
        assert(s@ =~= d_text(self@.0, self@.1, self@.2));
        s
    }

    /// A `path` element with this `d` attribute.
    pub fn to_element(&self) -> (d: Definition)
        ensures
            d.wf(),
            d.tag() == "path"@,
            d.attributes() == seq![("d"@, d_text(self@.0, self@.1, self@.2))],
            d.body() == Seq::<char>::empty(),
    {
        let data = self.to_d_string();
        let d = Definition::new("path").set("d", data.as_str());
        assert(with_attribute(Seq::empty(), "d"@, data@) =~= seq![("d"@, data@)]);
        d
    }
}

} // verus!
