//! The properties of a circle shape.

use crate::definition::Definition;
use crate::text::{dec_digits, push_dec};
use vstd::prelude::*;
use vstd::string::*;

verus! {

/// A circle centred on its origin.
pub struct CircleProps {
    radius: u32,
}

impl View for CircleProps {
    type V = u32;

    /// The radius.
    closed spec fn view(&self) -> u32 {
        self.radius
    }
}

impl CircleProps {
    /// A circle of the given radius.
    pub fn new(radius: u32) -> (c: CircleProps)
        ensures
            c@ == radius,
    {
        CircleProps { radius }
    }

    /// A `circle` element of this radius, centred on the origin.
    pub fn to_element(&self) -> (d: Definition)
        ensures
            d.wf(),
            d.tag() == "circle"@,
            d.attributes() == circle_attributes(self@),
            d.body() == Seq::<char>::empty(),
    {
        proof {
            reveal_strlit("r");
            reveal_strlit("cx");
            reveal_strlit("cy");
            reveal_strlit("0");
        }
        let mut r = String::new();
        push_dec(&mut r, self.radius as u64);
        let d = Definition::new("circle").set("r", r.as_str());
        let ghost a0 = d.attributes();
        assert(a0 =~= seq![("r"@, r@)]);
        let d = d.set("cx", "0");
        let ghost a1 = d.attributes();
        assert("r"@.len() == 1 && "cx"@.len() == 2 && "cy"@.len() == 2);
        assert("cx"@[1] == 'x' && "cy"@[1] == 'y');
        assert(a0[0].0 != "cx"@);
        assert(a1 =~= seq![("r"@, r@), ("cx"@, "0"@)]);
        let d = d.set("cy", "0");
        assert(a1[0].0 != "cy"@);
        assert(a1[1].0 != "cy"@);
        assert(d.attributes() =~= circle_attributes(self@));
        d
    }
}

/// The attributes of a circle of radius `radius` centred on the origin.
pub open spec fn circle_attributes(radius: u32) -> Seq<(Seq<char>, Seq<char>)> {
    seq![("r"@, dec_digits(radius as nat)), ("cx"@, "0"@), ("cy"@, "0"@)]
}

} // verus!
