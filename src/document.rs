//! The nodes of the rendered tree: materialized definitions, and the instances
//! and containers placed under the root or under a named container.

use crate::definition::Definition;
use crate::text::str_eq;
use vstd::prelude::*;

verus! {

/// What a placed node is: a reference to a definition at a location, or a
/// grouping node.
#[derive(Debug, Clone, Copy, PartialEq, Eq, Structural)]
pub enum ItemKind {
    Use { def_id: u64, x: i32, y: i32 },
    Group,
}

/// A node placed in the tree. `ancestors` names the containers it stands in, the
/// outermost first; it is empty for a node directly under the root.
pub struct Item {
    pub name: Option<String>,
    pub ancestors: Vec<String>,
    pub kind: ItemKind,
    pub hidden: bool,
}

/// The value of an [`Item`].
pub struct ItemView {
    pub name: Option<Seq<char>>,
    pub ancestors: Seq<Seq<char>>,
    pub kind: ItemKind,
    pub hidden: bool,
}

/// The character sequences of a list of strings.
pub open spec fn names_view(names: Seq<String>) -> Seq<Seq<char>> {
    names.map_values(|s: String| s@)
}

impl View for Item {
    type V = ItemView;

    open spec fn view(&self) -> ItemView {
        ItemView {
            name: match self.name {
                Some(n) => Some(n@),
                None => None,
            },
            ancestors: names_view(self.ancestors@),
            kind: self.kind,
            hidden: self.hidden,
        }
    }
}

/// The values of a list of items.
pub open spec fn items_view(items: Seq<Item>) -> Seq<ItemView> {
    items.map_values(|it: Item| it@)
}

/// A materialized definition, under its content id.
pub struct DefinitionNode {
    pub id: u64,
    pub definition: Definition,
}

impl View for DefinitionNode {
    type V = (u64, Seq<char>);

    open spec fn view(&self) -> (u64, Seq<char>) {
        (self.id, self.definition@)
    }
}

/// The values of a list of definition nodes.
pub open spec fn definitions_view(nodes: Seq<DefinitionNode>) -> Seq<(u64, Seq<char>)> {
    nodes.map_values(|d: DefinitionNode| d@)
}

/// Whether an item stays when the items named `name` and every item inside the
/// container path `path` are taken out.
pub open spec fn kept(name: Option<Seq<char>>, path: Seq<Seq<char>>) -> spec_fn(ItemView) -> bool {
    |it: ItemView| (name is None || it.name != name) && !path.is_prefix_of(it.ancestors)
}

/// A copy of a list of strings.
pub fn copy_names(names: &Vec<String>) -> (r: Vec<String>)
    ensures
        names_view(r@) == names_view(names@),
{
    let mut r: Vec<String> = Vec::new();
    let n = names.len();
    let mut i: usize = 0;
    while i < n
        invariant
            n == names.len(),
            i <= n,
            names_view(r@) =~= names_view(names@).take(i as int),
        decreases n - i,
    {
        let c = names[i].clone();
        assert(c@ == names@[i as int]@);
        r.push(c);
        assert(names_view(names@).take(i + 1) =~= names_view(names@).take(i as int).push(c@));
        i = i + 1;
    }
    assert(names_view(names@).take(n as int) =~= names_view(names@));
    r
}

/// Whether `path` is a prefix of `names`.
pub fn starts_with(names: &Vec<String>, path: &Vec<String>) -> (r: bool)
    ensures
        r == names_view(path@).is_prefix_of(names_view(names@)),
{
    let n = path.len();
    if n > names.len() {
        return false;
    }
    let mut i: usize = 0;
    while i < n
        invariant
            n == path.len(),
            n <= names.len(),
            i <= n,
            names_view(path@).take(i as int) =~= names_view(names@).take(i as int),
        decreases n - i,
    {
        if !str_eq(names[i].as_str(), path[i].as_str()) {
            assert(names_view(names@).subrange(0, n as int)[i as int] != names_view(path@)[i as int]);
            return false;
        }
        assert(names_view(path@).take(i + 1) =~= names_view(path@).take(i as int).push(path@[i as int]@));
        assert(names_view(names@).take(i + 1) =~= names_view(names@).take(i as int).push(names@[i as int]@));
        i = i + 1;
    }
    assert(names_view(path@) =~= names_view(path@).take(n as int));
    true
}

/// Where each element of `s.filter(p)` stands in `s`: at strictly increasing
/// positions, and every element that `p` keeps is among them.
pub proof fn lemma_filter_origin<A>(s: Seq<A>, p: spec_fn(A) -> bool) -> (m: Seq<int>)
    ensures
        m.len() == s.filter(p).len(),
        forall|i: int|
            0 <= i < m.len() ==> 0 <= #[trigger] m[i] < s.len() && s.filter(p)[i] == s[m[i]],
        forall|i: int, j: int| 0 <= i < j < m.len() ==> #[trigger] m[i] < #[trigger] m[j],
        forall|k: int| 0 <= k < s.len() && p(#[trigger] s[k]) ==> exists|i: int| 0 <= i < m.len() && m[i] == k,
    decreases s.len(),
{
    if s.len() == 0 {
        Seq::<int>::empty()
    } else {
        let rest = s.drop_last();
        let m0 = lemma_filter_origin(rest, p);
        reveal(Seq::filter);
        assert(s.filter(p) == if p(s.last()) {
            rest.filter(p).push(s.last())
        } else {
            rest.filter(p)
        });
        if p(s.last()) {
            let m = m0.push(s.len() - 1);
            assert forall|k: int| 0 <= k < s.len() && p(#[trigger] s[k]) implies exists|i: int|
                0 <= i < m.len() && m[i] == k by {
                if k == s.len() - 1 {
                    assert(m[m.len() - 1] == k);
                } else {
                    assert(0 <= k < rest.len());
                    assert(rest[k] == s[k]);
                    assert(p(rest[k]));
                    let i = choose|i: int| 0 <= i < m0.len() && m0[i] == k;
                    assert(m[i] == k);
                }
            }
            m
        } else {
            assert forall|k: int| 0 <= k < s.len() && p(#[trigger] s[k]) implies exists|i: int|
                0 <= i < m0.len() && m0[i] == k by {
                assert(k != s.len() - 1);
                assert(rest[k] == s[k]);
            }
            m0
        }
    }
}

/// The items of `items` that `kept(name, path)` keeps, in order.
pub fn filter_items(items: Vec<Item>, name: Option<&str>, path: &Vec<String>) -> (r: Vec<Item>)
    ensures
        items_view(r@) == items_view(items@).filter(
            kept(
                match name {
                    Some(n) => Some(n@),
                    None => None,
                },
                names_view(path@),
            ),
        ),
{
    let ghost name_v = match name {
        Some(n) => Some(n@),
        None => None,
    };
    let ghost pred = kept(name_v, names_view(path@));
    let ghost all = items_view(items@);
    let mut rest = items;
    let mut r: Vec<Item> = Vec::new();
    let ghost mut k: int = 0;
    while rest.len() > 0
        invariant
            0 <= k <= all.len(),
            all == items_view(items@),
            name_v == match name {
                Some(n) => Some(n@),
                None => None,
            },
            pred == kept(name_v, names_view(path@)),
            rest.len() + k == all.len(),
            items_view(rest@) =~= all.skip(k),
            items_view(r@) =~= all.take(k).filter(pred),
        decreases rest.len(),
    {
        let ghost before = rest@;
        let it = rest.remove(0);
        assert(it == before[0]);
        assert(items_view(before)[0] == all.skip(k)[0]);
        assert(it@ == all[k]);
        assert forall|j: int| 0 <= j < rest.len() implies items_view(rest@)[j] == all.skip(k + 1)[j] by {
            assert(rest@[j] == before[j + 1]);
            assert(items_view(before)[j + 1] == all.skip(k)[j + 1]);
        }
        assert(items_view(rest@) =~= all.skip(k + 1));
        let inside = starts_with(&it.ancestors, path);
        let named = match &it.name {
            Some(a) => match name {
                Some(b) => str_eq(a.as_str(), b),
                None => false,
            },
            None => false,
        };
        assert(all.take(k + 1).drop_last() =~= all.take(k));
        assert(all.take(k + 1).last() == all[k]);
        proof {
            reveal(Seq::filter);
        }
        let ghost r_before = r@;
        if !inside && !named {
            assert(it@.ancestors == names_view(it.ancestors@));
            match name {
                Some(b) => {
                    assert(name_v == Some(b@));
                    match &it.name {
                        Some(a) => {
                            assert(a@ != b@);
                            assert(it@.name == Some(a@));
                        },
                        None => {},
                    }
                },
                None => {},
            }
            assert(name_v is None || it@.name != name_v);
            assert(pred(all[k]));
            r.push(it);
            assert(items_view(r@) =~= items_view(r_before).push(all[k]));
        } else {
            assert(!pred(all[k]));
        }
        proof {
            k = k + 1;
        }
    }
    assert(all.take(k) =~= all);
    r
}

} // verus!
