//! A style held as typed attributes: a width and two paints.

use crate::color::{black, paint_text, TransparentableColor};
use crate::definition::{with_attribute, Definition};
use crate::text::{dec_digits, push_dec};
use vstd::prelude::*;
use vstd::string::*;

verus! {

/// A typed style attribute.
#[derive(Debug, Clone, Copy, PartialEq, Eq, Structural)]
pub enum AttributeField {
    StrokeWidth(u32),
    StrokeColor(TransparentableColor),
    FillColor(TransparentableColor),
}

/// The attribute name and value that a typed attribute sets.
pub open spec fn typed_attribute(field: AttributeField) -> (Seq<char>, Seq<char>) {
    match field {
        AttributeField::StrokeWidth(w) => ("stroke-width"@, dec_digits(w as nat)),
        AttributeField::StrokeColor(c) => ("stroke"@, paint_text(c)),
        AttributeField::FillColor(c) => ("fill"@, paint_text(c)),
    }
}

/// The attributes after each typed attribute is set on them, in order.
pub open spec fn with_typed(
    attributes: Seq<(Seq<char>, Seq<char>)>,
    style: Seq<AttributeField>,
) -> Seq<(Seq<char>, Seq<char>)>
    decreases style.len(),
{
    if style.len() == 0 {
        attributes
    } else {
        let (name, value) = typed_attribute(style.last());
        with_attribute(with_typed(attributes, style.drop_last()), name, value)
    }
}

impl AttributeField {
    /// Sets this attribute on `element`.
    pub fn add_to_element(&self, element: Definition) -> (d: Definition)
        requires
            element.wf(),
        ensures
            d.wf(),
            d.tag() == element.tag(),
            d.attributes() == with_attribute(
                element.attributes(),
                typed_attribute(*self).0,
                typed_attribute(*self).1,
            ),
            d.body() == element.body(),
    {
        match self {
            AttributeField::StrokeWidth(width) => {
                let mut value = String::new();
                push_dec(&mut value, *width as u64);
                element.set("stroke-width", value.as_str())
            },
            AttributeField::StrokeColor(color) => element.set("stroke", color.to_string().as_str()),
            AttributeField::FillColor(color) => element.set("fill", color.to_string().as_str()),
        }
    }
}

/// A style: its attributes in the order they were added.
pub struct FigureStyle {
    attributes: Vec<AttributeField>,
}

impl View for FigureStyle {
    type V = Seq<AttributeField>;

    closed spec fn view(&self) -> Seq<AttributeField> {
        self.attributes@
    }
}

impl FigureStyle {
    /// The default style: stroke width 1, a black stroke, a transparent fill.
    pub fn new_from_default() -> (s: FigureStyle)
        ensures
            s@.len() == 3,
            s@[0] == AttributeField::StrokeWidth(1),
            s@[1] matches AttributeField::StrokeColor(TransparentableColor::Color(c)) && c@ == (0u8, 0u8, 0u8),
            s@[2] == AttributeField::FillColor(TransparentableColor::Transparent),
    {
        FigureStyle {
            attributes: vec![
                AttributeField::StrokeWidth(1),
                AttributeField::StrokeColor(TransparentableColor::Color(black())),
                AttributeField::FillColor(TransparentableColor::Transparent),
            ],
        }
    }

    /// A style with nothing in it.
    pub fn new() -> (s: FigureStyle)
        ensures
            s@ == Seq::<AttributeField>::empty(),
    {
        let s = FigureStyle { attributes: Vec::new() };
        assert(s@ =~= Seq::<AttributeField>::empty());
        s
    }

    /// Adds `new_attribute` after the others.
    pub fn add_style(&mut self, new_attribute: AttributeField)
        ensures
            final(self)@ == old(self)@.push(new_attribute),
    {
        self.attributes.push(new_attribute);
    }

    /// Sets each attribute on `element`, in order.
    pub fn apply_style(&self, element: Definition) -> (d: Definition)
        requires
            element.wf(),
        ensures
            d.wf(),
            d.tag() == element.tag(),
            d.attributes() == with_typed(element.attributes(), self@),
            d.body() == element.body(),
    {
        let mut d = element;
        let n = self.attributes.len();
        let mut i: usize = 0;
        while i < n
            invariant
                n == self.attributes.len(),
                i <= n,
                d.wf(),
                d.tag() == element.tag(),
                d.body() == element.body(),
                d.attributes() == with_typed(element.attributes(), self@.take(i as int)),
            decreases n - i,
        {
            d = self.attributes[i].add_to_element(d);
            assert(self@.take(i + 1).drop_last() =~= self@.take(i as int));
            i = i + 1;
        }
        assert(self@.take(n as int) =~= self@);
        d
    }
}

} // verus!
