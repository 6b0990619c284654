//! The style of a shape: attributes set by name, each at most once.

use crate::color::{black, hex_text, paint_text, TransparentableColor};
use crate::definition::{with_attribute, Definition};
use crate::figures::circle::{circle_attributes, CircleProps};
use crate::figures::path::{d_text, PathProps};
use crate::figures::sub_path::SubPath;
use crate::figures::Point;
use vstd::prelude::*;
use vstd::string::*;

verus! {

/// A style attribute that a shape can carry.
#[derive(Debug, Clone, Copy, PartialEq, Eq, Structural, Hash)]
pub enum AttributeField {
    StrokeWidth,
    StrokeColor,
    FillColor,
}

/// The attribute name of a style attribute in the markup.
pub open spec fn attribute_name(field: AttributeField) -> Seq<char> {
    match field {
        AttributeField::StrokeWidth => "stroke-width"@,
        AttributeField::StrokeColor => "stroke"@,
        AttributeField::FillColor => "fill"@,
    }
}

impl AttributeField {
    /// The attribute name in the markup.
    pub fn to_attribute_string(&self) -> (s: &'static str)
        ensures
            s@ == attribute_name(*self),
    {
        match self {
            AttributeField::StrokeWidth => "stroke-width",
            AttributeField::StrokeColor => "stroke",
            AttributeField::FillColor => "fill",
        }
    }

    /// Sets this attribute of `element` to `value`.
    pub fn set_attribute(&self, element: Definition, value: &str) -> (d: Definition)
        requires
            element.wf(),
        ensures
            d.wf(),
            d.tag() == element.tag(),
            d.attributes() == with_attribute(element.attributes(), attribute_name(*self), value@),
            d.body() == element.body(),
    {
        element.set(self.to_attribute_string(), value)
    }
}

/// The attributes after the style's entries are set on them, in order.
pub open spec fn styled(
    attributes: Seq<(Seq<char>, Seq<char>)>,
    style: Seq<(AttributeField, Seq<char>)>,
) -> Seq<(Seq<char>, Seq<char>)>
    decreases style.len(),
{
    if style.len() == 0 {
        attributes
    } else {
        with_attribute(styled(attributes, style.drop_last()), attribute_name(style.last().0), style.last().1)
    }
}

/// Whether no two entries set the same attribute.
pub open spec fn fields_unique(attributes: Seq<(AttributeField, Seq<char>)>) -> bool {
    forall|i: int, j: int|
        0 <= i < attributes.len() && 0 <= j < attributes.len() && #[trigger] attributes[i].0
            == #[trigger] attributes[j].0 ==> i == j
}

/// The entries after `field` is set to `value`: an entry for that field gets the
/// new value where it stands, else the entry goes last.
pub open spec fn with_style(
    attributes: Seq<(AttributeField, Seq<char>)>,
    field: AttributeField,
    value: Seq<char>,
) -> Seq<(AttributeField, Seq<char>)> {
    if exists|i: int| 0 <= i < attributes.len() && attributes[i].0 == field {
        let i = choose|i: int| 0 <= i < attributes.len() && attributes[i].0 == field;
        attributes.update(i, (field, value))
    } else {
        attributes.push((field, value))
    }
}

/// The default style: a stroke of width 1 in black, no fill.
pub open spec fn default_style() -> Seq<(AttributeField, Seq<char>)> {
    seq![
        (AttributeField::StrokeWidth, "1"@),
        (AttributeField::StrokeColor, hex_text((0u8, 0u8, 0u8))),
        (AttributeField::FillColor, paint_text(TransparentableColor::Transparent)),
    ]
}

/// The style of a shape, entries in the order they were first set.
pub struct ShapeStyle {
    attributes: Vec<(AttributeField, String)>,
}

impl View for ShapeStyle {
    type V = Seq<(AttributeField, Seq<char>)>;

    closed spec fn view(&self) -> Seq<(AttributeField, Seq<char>)> {
        self.attributes@.map_values(|a: (AttributeField, String)| (a.0, a.1@))
    }
}

impl ShapeStyle {
    /// Each attribute is set at most once.
    pub open spec fn wf(&self) -> bool {
        fields_unique(self@)
    }

    /// The default style: stroke width 1, a black stroke, a transparent fill.
    pub fn new_from_default() -> (s: ShapeStyle)
        ensures
            s.wf(),
            s@ == default_style(),
    {
        proof {
            reveal_strlit("1");
        }
        let s = ShapeStyle {
            attributes: vec![
                (AttributeField::StrokeWidth, String::from_str("1")),
                (AttributeField::StrokeColor, TransparentableColor::Color(black()).to_string()),
                (AttributeField::FillColor, TransparentableColor::Transparent.to_string()),
            ],
        };
        assert(s@ =~= default_style());
        s
    }

    /// A style with nothing set.
    pub fn new() -> (s: ShapeStyle)
        ensures
            s.wf(),
            s@ == Seq::<(AttributeField, Seq<char>)>::empty(),
    {
        let s = ShapeStyle { attributes: Vec::new() };
        assert(s@ =~= Seq::<(AttributeField, Seq<char>)>::empty());
        s
    }

    /// Sets `attribute` to `value`, in place if it is set already.
    pub fn add_style(&mut self, attribute: AttributeField, value: String)
        requires
            old(self).wf(),
        ensures
            final(self).wf(),
            final(self)@ == with_style(old(self)@, attribute, value@),
    {
        let n = self.attributes.len();
        let mut i: usize = 0;
        while i < n
            invariant
                n == self.attributes.len(),
                *self == *old(self),
                old(self).wf(),
                i <= n,
                forall|k: int| 0 <= k < i ==> self@[k].0 != attribute,
            decreases n - i,
        {
            if self.attributes[i].0 == attribute {
                let ghost before = self@;
                assert(before[i as int].0 == attribute);
                let ghost value_v = value@;
                self.attributes.set(i, (attribute, value));
                proof {
                    let after = before.update(i as int, (attribute, value_v));
                    assert(self@ =~= after);
                    let c = choose|c: int| 0 <= c < before.len() && before[c].0 == attribute;
                    assert(before[c].0 == before[i as int].0);
                    assert forall|a: int, b: int|
                        0 <= a < after.len() && 0 <= b < after.len() && #[trigger] after[a].0
                            == #[trigger] after[b].0 implies a == b by {
                        if a != i && b != i {
                            assert(before[a].0 == before[b].0);
                        } else if a == i && b != i {
                            assert(before[b].0 == before[i as int].0);
                        } else if a != i && b == i {
                            assert(before[a].0 == before[i as int].0);
                        }
                    }
                }
                return;
            }
            i = i + 1;
        }
        let ghost before = self@;
        let ghost value_v = value@;
        self.attributes.push((attribute, value));
        assert(self@ =~= before.push((attribute, value_v)));
    }

    /// Sets each entry on `element`, in order.
    pub fn apply_style(&self, element: Definition) -> (d: Definition)
        requires
            element.wf(),
        ensures
            d.wf(),
            d.tag() == element.tag(),
            d.attributes() == styled(element.attributes(), self@),
            d.body() == element.body(),
    {
        let mut d = element;
        let n = self.attributes.len();
        let mut i: usize = 0;
        while i < n
            invariant
                n == self.attributes.len(),
                i <= n,
                d.wf(),
                d.tag() == element.tag(),
                d.body() == element.body(),
                d.attributes() == styled(element.attributes(), self@.take(i as int)),
            decreases n - i,
        {
            let entry = &self.attributes[i];
            d = entry.0.set_attribute(d, entry.1.as_str());
            assert(self@.take(i + 1).drop_last() =~= self@.take(i as int));
            i = i + 1;
        }
        assert(self@.take(n as int) =~= self@);
        d
    }

    /// The entries, in order.
    pub fn attributes(&self) -> (r: &Vec<(AttributeField, String)>)
        ensures
            r@.map_values(|a: (AttributeField, String)| (a.0, a.1@)) == self@,
    {
        &self.attributes
    }
}

/// The value of a [`SubShape`].
pub enum SubShapeView {
    Path((Point, Seq<SubPath>, bool)),
    Circle(u32),
}

/// The geometry of a shape.
pub enum SubShape {
    Path(PathProps),
    Circle(CircleProps),
}

impl View for SubShape {
    type V = SubShapeView;

    open spec fn view(&self) -> SubShapeView {
        match self {
            SubShape::Path(p) => SubShapeView::Path(p@),
            SubShape::Circle(c) => SubShapeView::Circle(c@),
        }
    }
}

/// The tag of a geometry's element.
pub open spec fn subshape_tag(s: SubShapeView) -> Seq<char> {
    match s {
        SubShapeView::Path(_) => "path"@,
        SubShapeView::Circle(_) => "circle"@,
    }
}

/// The attributes of a geometry's element, before any style.
pub open spec fn subshape_attributes(s: SubShapeView) -> Seq<(Seq<char>, Seq<char>)> {
    match s {
        SubShapeView::Path(p) => seq![("d"@, d_text(p.0, p.1, p.2))],
        SubShapeView::Circle(r) => circle_attributes(r),
    }
}

impl SubShape {
    /// The element of the geometry, unstyled.
    pub fn to_element(&self) -> (d: Definition)
        ensures
            d.wf(),
            d.tag() == subshape_tag(self@),
            d.attributes() == subshape_attributes(self@),
            d.body() == Seq::<char>::empty(),
    {
        match self {
            SubShape::Path(props) => props.to_element(),
            SubShape::Circle(props) => props.to_element(),
        }
    }
}

/// A geometry with its style.
pub struct Shape {
    style: ShapeStyle,
    subshape: SubShape,
}

impl View for Shape {
    type V = (Seq<(AttributeField, Seq<char>)>, SubShapeView);

    closed spec fn view(&self) -> (Seq<(AttributeField, Seq<char>)>, SubShapeView) {
        (self.style@, self.subshape@)
    }
}

impl Shape {
    /// A shape of the given style and geometry.
    pub fn new(style: ShapeStyle, subshape: SubShape) -> (s: Shape)
        ensures
            s@ == (style@, subshape@),
    {
        Shape { style, subshape }
    }

    /// The element of the geometry with the style set on it.
    pub fn to_styled_element(&self) -> (d: Definition)
        ensures
            d.wf(),
            d.tag() == subshape_tag(self@.1),
            d.attributes() == styled(subshape_attributes(self@.1), self@.0),
            d.body() == Seq::<char>::empty(),
    {
        let element = self.subshape.to_element();
        self.style.apply_style(element)
    }
}

} // verus!
