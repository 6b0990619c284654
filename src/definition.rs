//! Shape definitions: a tag, its attributes in order, and the markup of the
//! elements nested in it. A definition is identified by a hash of its markup.

use crate::text::str_eq;
use std::collections::hash_map::DefaultHasher;
use std::hash::Hasher;
use vstd::prelude::*;
use vstd::std_specs::hash::DefaultHasherAdditionalSpecFns;
use vstd::string::*;
use vstd::utf8::encode_utf8;

verus! {

/// The 64-bit digest that std's default hasher, with its fixed keys, gives for the
/// UTF-8 bytes of a text written in one piece.
pub open spec fn text_hash(s: Seq<char>) -> u64 {
    DefaultHasher::spec_finish(seq![encode_utf8(s)])
}

/// Hashes the UTF-8 bytes of `s`.
pub fn hash_text(s: &str) -> (h: u64)
    ensures
        h == text_hash(s@),
{
    let mut hasher = DefaultHasher::new();
    hasher.write(s.as_bytes());
    let h = hasher.finish();
    assert(hasher@ =~= seq![encode_utf8(s@)]);
    h
}

/// The markup of one character of an attribute value.
pub open spec fn escaped_char(c: char) -> Seq<char> {
    if c == '&' {
        "&amp;"@
    } else if c == '<' {
        "&lt;"@
    } else if c == '"' {
        "&quot;"@
    } else {
        seq![c]
    }
}

/// An attribute value with `&`, `<` and `"` written as entities.
pub open spec fn escaped(s: Seq<char>) -> Seq<char>
    decreases s.len(),
{
    if s.len() == 0 {
        seq![]
    } else {
        escaped(s.drop_last()) + escaped_char(s.last())
    }
}

/// ` name="value"` for each attribute, in order.
pub open spec fn attributes_text(attributes: Seq<(Seq<char>, Seq<char>)>) -> Seq<char>
    decreases attributes.len(),
{
    if attributes.len() == 0 {
        seq![]
    } else {
        attributes_text(attributes.drop_last()) + " "@ + attributes.last().0 + "=\""@
            + escaped(attributes.last().1) + "\""@
    }
}

/// `<tag attributes>body</tag>`.
pub open spec fn element_text(
    tag: Seq<char>,
    attributes: Seq<(Seq<char>, Seq<char>)>,
    body: Seq<char>,
) -> Seq<char> {
    "<"@ + tag + attributes_text(attributes) + ">"@ + body + "</"@ + tag + ">"@
}

/// Whether no two attributes share a name.
pub open spec fn names_unique(attributes: Seq<(Seq<char>, Seq<char>)>) -> bool {
    forall|i: int, j: int|
        0 <= i < attributes.len() && 0 <= j < attributes.len() && #[trigger] attributes[i].0
            == #[trigger] attributes[j].0 ==> i == j
}

/// The attributes after `name` is set to `value`: the value of an attribute of that
/// name is replaced where it stands, else the attribute goes last.
pub open spec fn with_attribute(
    attributes: Seq<(Seq<char>, Seq<char>)>,
    name: Seq<char>,
    value: Seq<char>,
) -> Seq<(Seq<char>, Seq<char>)> {
    if exists|i: int| 0 <= i < attributes.len() && attributes[i].0 == name {
        let i = choose|i: int| 0 <= i < attributes.len() && attributes[i].0 == name;
        attributes.update(i, (name, value))
    } else {
        attributes.push((name, value))
    }
}

/// A shape definition: what is drawn, without where.
pub struct Definition {
    tag: String,
    attributes: Vec<(String, String)>,
    body: String,
}

impl Definition {
    /// The tag of the outer element.
    pub closed spec fn tag(&self) -> Seq<char> {
        self.tag@
    }

    /// The attributes of the outer element, in order.
    pub closed spec fn attributes(&self) -> Seq<(Seq<char>, Seq<char>)> {
        self.attributes@.map_values(|a: (String, String)| (a.0@, a.1@))
    }

    /// The markup of the nested elements, in order.
    pub closed spec fn body(&self) -> Seq<char> {
        self.body@
    }

    /// Attribute names are unique.
    pub open spec fn wf(&self) -> bool {
        names_unique(self.attributes())
    }

    /// An element of the given tag, with no attributes and nothing nested.
    pub fn new(tag: &str) -> (d: Definition)
        ensures
            d.wf(),
            d.tag() == tag@,
            d.attributes() == Seq::<(Seq<char>, Seq<char>)>::empty(),
            d.body() == Seq::<char>::empty(),
    {
        let d = Definition {
            tag: String::from_str(tag),
            attributes: Vec::new(),
            body: String::new(),
        };
        assert(d.attributes() =~= Seq::<(Seq<char>, Seq<char>)>::empty());
        d
    }

    /// Sets the attribute `name` to `value`, in place if it is set already.
    pub fn set(self, name: &str, value: &str) -> (d: Definition)
        requires
            self.wf(),
        ensures
            d.wf(),
            d.tag() == self.tag(),
            d.attributes() == with_attribute(self.attributes(), name@, value@),
            d.body() == self.body(),
    {
        let mut d = self;
        let n = d.attributes.len();
        let mut i: usize = 0;
        while i < n
            invariant
                n == d.attributes.len(),
                d == self,
                self.wf(),
                i <= n,
                forall|k: int| 0 <= k < i ==> d.attributes()[k].0 != name@,
            decreases n - i,
        {
            if str_eq(d.attributes[i].0.as_str(), name) {
                let ghost old_attributes = d.attributes();
                assert(old_attributes[i as int].0 == name@);
                d.attributes.set(i, (String::from_str(name), String::from_str(value)));
                proof {
                    assert(old_attributes == self.attributes());
                    assert(names_unique(old_attributes));
                    let new_attributes = old_attributes.update(i as int, (name@, value@));
                    assert(d.attributes() =~= new_attributes);
                    let c = choose|c: int| 0 <= c < old_attributes.len() && old_attributes[c].0 == name@;
                    assert(old_attributes[c].0 == old_attributes[i as int].0);
                    assert(c == i);
                    assert forall|a: int, b: int|
                        0 <= a < new_attributes.len() && 0 <= b < new_attributes.len()
                            && #[trigger] new_attributes[a].0 == #[trigger] new_attributes[b].0 implies a == b by {
                        assert(old_attributes[a].0 == new_attributes[a].0 || a == i);
                        assert(old_attributes[b].0 == new_attributes[b].0 || b == i);
                        if a != i && b != i {
                            assert(old_attributes[a].0 == old_attributes[b].0);
                        } else if a == i && b != i {
                            assert(old_attributes[b].0 == old_attributes[i as int].0);
                        } else if a != i && b == i {
                            assert(old_attributes[a].0 == old_attributes[i as int].0);
                        }
                    }
                }
                return d;
            }
            i = i + 1;
        }
        let ghost old_attributes = d.attributes();
        d.attributes.push((String::from_str(name), String::from_str(value)));
        proof {
            assert(d.attributes() =~= old_attributes.push((name@, value@)));
            assert(!exists|k: int| 0 <= k < old_attributes.len() && old_attributes[k].0 == name@);
        }
        d
    }

    /// Nests `child` in this element, after what is nested already.
    pub fn append(self, child: &Definition) -> (d: Definition)
        requires
            self.wf(),
        ensures
            d.wf(),
            d.tag() == self.tag(),
            d.attributes() == self.attributes(),
            d.body() == self.body() + child@,
    {
        let mut d = self;
        let markup = child.to_markup();
        d.body.append(markup.as_str());
        d
    }

    /// Adds `text` after what is nested already, with `&`, `<` and `"` written
    /// as entities.
    pub fn append_text(self, text: &str) -> (d: Definition)
        requires
            self.wf(),
        ensures
            d.wf(),
            d.tag() == self.tag(),
            d.attributes() == self.attributes(),
            d.body() == self.body() + escaped(text@),
    {
        let mut d = self;
        push_escaped(&mut d.body, text);
        d
    }

    /// The markup of the whole element.
    pub fn to_markup(&self) -> (s: String)
        ensures
            s@ == self@,
    {
        proof {
            reveal_strlit("<");
            reveal_strlit(">");
            reveal_strlit("</");
        }
        let mut s = String::from_str("<");
        s.append(self.tag.as_str());
        let n = self.attributes.len();
        let mut i: usize = 0;
        while i < n
            invariant
                n == self.attributes.len(),
                i <= n,
                s@ == "<"@ + self.tag@ + attributes_text(self.attributes().take(i as int)),
            decreases n - i,
        {
            proof {
                reveal_strlit(" ");
                reveal_strlit("=\"");
                reveal_strlit("\"");
            }
            s.append(" ");
            s.append(self.attributes[i].0.as_str());
            s.append("=\"");
            push_escaped(&mut s, self.attributes[i].1.as_str());
            s.append("\"");
            assert(self.attributes().take(i + 1).drop_last() =~= self.attributes().take(i as int));
            i = i + 1;
        }
        assert(self.attributes().take(n as int) =~= self.attributes());
        s.append(">");
        s.append(self.body.as_str());
        s.append("</");
        s.append(self.tag.as_str());
        s.append(">");
        s
    }

    /// The content id: the hash of the markup.
    pub fn id(&self) -> (h: u64)
        ensures
            h == text_hash(self@),
    {
        let markup = self.to_markup();
        hash_text(markup.as_str())
    }
}

impl View for Definition {
    type V = Seq<char>;

    /// The markup of the element; two definitions with the same markup have the
    /// same content.
    open spec fn view(&self) -> Seq<char> {
        element_text(self.tag(), self.attributes(), self.body())
    }
}

/// Appends `value` with `&`, `<` and `"` written as entities.
fn push_escaped(out: &mut String, value: &str)
    ensures
        final(out)@ == old(out)@ + escaped(value@),
{
    proof {
        reveal_strlit("&amp;");
        reveal_strlit("&lt;");
        reveal_strlit("&quot;");
    }
    let n = value.unicode_len();
    let mut i: usize = 0;
    while i < n
        invariant
            n == value@.len(),
            i <= n,
            out@ == old(out)@ + escaped(value@.take(i as int)),
        decreases n - i,
    {
        let c = value.get_char(i);
        if c == '&' {
            out.append("&amp;");
        } else if c == '<' {
            out.append("&lt;");
        } else if c == '"' {
            out.append("&quot;");
        } else {
            out.append(value.substring_char(i, i + 1));
            assert(value@.subrange(i as int, i + 1) =~= seq![c]);
        }
        assert(value@.take(i + 1).drop_last() =~= value@.take(i as int));
        i = i + 1;
    }
    assert(value@.take(n as int) =~= value@);
}

} // verus!
