//! What holds of sequences of operations, proved over the state model.

use crate::definition::text_hash;
use crate::document::{kept, lemma_filter_origin, ItemKind};
use crate::errors::RendererErrorView;
use crate::model::{
    append_to_container_spec, clear_named_container_spec, cleared, container_path, create_named_container_spec,
    delete_named_spec, has_definition, id_taken, index_of, is_container_spec, lemma_definition_unique,
    lemma_index_unique, lemma_materialize_wf, lemma_update_wf, lemma_with_item_wf, lemma_without_wf,
    materialize, move_named_spec, name_exists, render_id_spec, render_named_spec, renderer_wf, root_name,
    set_visibility_spec, update_named_spec, use_item, with_item, without, RendererView,
};
use vstd::prelude::*;

verus! {

/// Materializing a definition whose markup is materialized already changes
/// nothing and gives the same content id: equal definitions share one node.
pub proof fn lemma_equal_content_shares_node(v: RendererView, first: Seq<char>, second: Seq<char>)
    requires
        renderer_wf(v),
        first == second,
    ensures
        ({
            let (w, r) = materialize(v, first);
            &&& materialize(w, second) == (w, r)
            &&& r matches Ok(id) ==> has_definition(w, id) && forall|i: int, j: int|
                0 <= i < w.definitions.len() && 0 <= j < w.definitions.len() && #[trigger] w.definitions[i].0 == id
                    && #[trigger] w.definitions[j].0 == id ==> i == j
        }),
{
    lemma_materialize_wf(v, first);
    let (w, r) = materialize(v, first);
    let id = text_hash(first);
    if !has_definition(v, id) {
        let last = v.definitions.len() as int;
        assert(w.definitions[last].0 == id);
        lemma_definition_unique(w, id, last);
    }
}

/// Two definitions of different markup, both materialized, get different
/// content ids and stand as two nodes.
pub proof fn lemma_different_content_two_nodes(v: RendererView, first: Seq<char>, second: Seq<char>)
    requires
        renderer_wf(v),
        first != second,
        materialize(v, first).1 is Ok,
        materialize(materialize(v, first).0, second).1 is Ok,
    ensures
        ({
            let (w, r1) = materialize(v, first);
            let (x, r2) = materialize(w, second);
            &&& r1->Ok_0 != r2->Ok_0
            &&& exists|i: int| 0 <= i < x.definitions.len() && x.definitions[i] == (r1->Ok_0, first)
            &&& exists|j: int| 0 <= j < x.definitions.len() && x.definitions[j] == (r2->Ok_0, second)
        }),
{
    lemma_materialize_wf(v, first);
    let (w, r1) = materialize(v, first);
    lemma_materialize_wf(w, second);
    let (x, r2) = materialize(w, second);
    let id1 = text_hash(first);
    let id2 = text_hash(second);
    let i = if has_definition(v, id1) {
        crate::model::definition_index(v, id1)
    } else {
        v.definitions.len() as int
    };
    assert(w.definitions[i] == (id1, first));
    lemma_definition_unique(w, id1, i);
    assert(x.definitions[i] == (id1, first));
    let j = if has_definition(w, id2) {
        crate::model::definition_index(w, id2)
    } else {
        w.definitions.len() as int
    };
    assert(x.definitions[j] == (id2, second));
}

/// Once `name` is rendered, rendering under it again fails with a name conflict
/// and changes nothing.
pub proof fn lemma_second_render_named_conflicts(
    v: RendererView,
    name: Seq<char>,
    first: Seq<char>,
    second: Seq<char>,
    l1: (i32, i32),
    l2: (i32, i32),
)
    requires
        renderer_wf(v),
        render_named_spec(v, name, first, l1).1 is Ok,
    ensures
        ({
            let w = render_named_spec(v, name, first, l1).0;
            render_named_spec(w, name, second, l2) == (w, Err::<(), _>(
                RendererErrorView::NameAlreadyExists(name),
            ))
        }),
{
    let w = render_named_spec(v, name, first, l1).0;
    let last = w.items.len() - 1;
    assert(w.items[last].name == Some(name));
}

/// A registered container cannot be moved: the move fails with a kind error.
pub proof fn lemma_container_not_movable(v: RendererView, name: Seq<char>, location: (i32, i32))
    requires
        renderer_wf(v),
        name != root_name(),
        is_container_spec(v, name),
    ensures
        move_named_spec(v, name, location) == (v, Err::<(), _>(RendererErrorView::NamedNotUse(name))),
{
}

/// A container created under `parent` is a container, still is one after a
/// definition is appended to it, and then cannot be moved.
pub proof fn lemma_created_container_stays(
    v: RendererView,
    name: Seq<char>,
    parent: Seq<char>,
    markup: Seq<char>,
    location: (i32, i32),
    target: (i32, i32),
)
    requires
        renderer_wf(v),
        create_named_container_spec(v, name, parent).1 is Ok,
        append_to_container_spec(create_named_container_spec(v, name, parent).0, name, markup, location).1 is Ok,
    ensures
        ({
            let w = create_named_container_spec(v, name, parent).0;
            let x = append_to_container_spec(w, name, markup, location).0;
            &&& is_container_spec(w, name)
            &&& is_container_spec(x, name)
            &&& move_named_spec(x, name, target) == (x, Err::<(), _>(RendererErrorView::NamedNotUse(name)))
        }),
{
    let path = container_path(v, parent)->Ok_0;
    let w = create_named_container_spec(v, name, parent).0;
    let last = w.items.len() - 1;
    assert(w.items[last].name == Some(name));
    if path.len() > 0 {
        let j = index_of(v, parent);
        assert(path.last() == parent);
        assert(path.drop_last() =~= v.items[j].ancestors);
    }
    lemma_with_item_wf(v, w.items[last]);
    lemma_index_unique(w, name, last);
    let wpath = container_path(w, name)->Ok_0;
    lemma_materialize_wf(w, markup);
    let (m, r) = materialize(w, markup);
    let id = r->Ok_0;
    let x = append_to_container_spec(w, name, markup, location).0;
    assert(x == with_item(m, use_item(None, wpath, id, location)));
    assert(wpath.last() == name);
    assert(wpath.drop_last() =~= w.items[last].ancestors);
    assert(m.items[last] == w.items[last]);
    lemma_with_item_wf(m, use_item(None, wpath, id, location));
    assert(x.items[last] == w.items[last]);
    lemma_index_unique(x, name, last);
    lemma_container_not_movable(x, name, target);
}

/// After a named node is deleted its name is free, and rendering the same
/// definition under it again succeeds without a new definition node.
pub proof fn lemma_delete_frees_name(
    v: RendererView,
    name: Seq<char>,
    markup: Seq<char>,
    l1: (i32, i32),
    l2: (i32, i32),
)
    requires
        renderer_wf(v),
        render_named_spec(v, name, markup, l1).1 is Ok,
    ensures
        ({
            let w = render_named_spec(v, name, markup, l1).0;
            let x = delete_named_spec(w, name).0;
            let (y, r) = render_named_spec(x, name, markup, l2);
            &&& delete_named_spec(w, name).1 is Ok
            &&& !name_exists(x, name)
            &&& r is Ok
            &&& y.definitions == x.definitions
        }),
{
    let (m, r0) = materialize(v, markup);
    lemma_materialize_wf(v, markup);
    let id = r0->Ok_0;
    let w = render_named_spec(v, name, markup, l1).0;
    let last = w.items.len() - 1;
    assert(w == with_item(m, use_item(Some(name), Seq::empty(), id, l1)));
    assert(crate::model::name_check(m, name) == crate::model::name_check(v, name));
    lemma_with_item_wf(m, use_item(Some(name), Seq::empty(), id, l1));
    assert(w.items[last].name == Some(name));
    lemma_index_unique(w, name, last);
    let path = w.items[last].ancestors.push(name);
    lemma_without_wf(w, Some(name), path);
    let x = delete_named_spec(w, name).0;
    assert(x == without(w, Some(name), path));
    let p = kept(Some(name), path);
    let o = lemma_filter_origin(w.items, p);
    assert forall|i: int| 0 <= i < x.items.len() implies (#[trigger] x.items[i]).name != Some(name) by {
        assert(x.items[i] == w.items[o[i]]);
    }
    assert forall|i: int|
        0 <= i < x.items.len() && (#[trigger] x.items[i]).name is Some implies text_hash(x.items[i].name->0)
        != text_hash(name) by {
        assert(x.items[i] == w.items[o[i]]);
        if text_hash(x.items[i].name->0) == text_hash(name) {
            assert(o[i] == last);
        }
    }
    assert(!id_taken(x, name));
    assert(w.items[last].name != Some(root_name()));
    assert(has_definition(m, id));
    let k = crate::model::definition_index(m, id);
    lemma_definition_unique(m, id, k);
    if !has_definition(v, id) {
        assert(m.definitions[v.definitions.len() as int].0 == id);
        lemma_definition_unique(m, id, v.definitions.len() as int);
    }
    assert(m.definitions[k].1 == markup);
    assert(x.definitions == m.definitions);
}

/// After a clear no name is registered and no content id is materialized, so
/// placing by id fails.
pub proof fn lemma_clear_forgets(v: RendererView, name: Seq<char>, id: u64, location: (i32, i32))
    ensures
        !name_exists(cleared(v), name),
        !has_definition(cleared(v), id),
        render_id_spec(cleared(v), id, location) == (cleared(v), Err::<(), _>(
            RendererErrorView::UnfindableDefinition(id),
        )),
{
}

/// Hiding a node and showing it again leaves it visible, and leaves the state as
/// it was when the node was visible before.
pub proof fn lemma_hide_show_round_trip(v: RendererView, name: Seq<char>)
    requires
        renderer_wf(v),
        name_exists(v, name),
    ensures
        ({
            let (w, r1) = set_visibility_spec(v, name, true);
            let (x, r2) = set_visibility_spec(w, name, false);
            &&& r1 is Ok && r2 is Ok
            &&& x.items[index_of(v, name)].hidden == false
            &&& !v.items[index_of(v, name)].hidden ==> x == v
        }),
{
    let i = index_of(v, name);
    let w = set_visibility_spec(v, name, true).0;
    let it = v.items[i];
    lemma_update_wf(v, i, crate::document::ItemView { hidden: true, ..it });
    assert(w.items[i].name == Some(name));
    lemma_index_unique(w, name, i);
    let x = set_visibility_spec(w, name, false).0;
    if !it.hidden {
        assert(x.items =~= v.items);
    }
}

/// Clearing a container takes out exactly what is inside it: the container
/// stays registered as a container, nothing inside it is left, and everything
/// outside it stays.
pub proof fn lemma_clear_container_keeps_container(v: RendererView, name: Seq<char>)
    requires
        renderer_wf(v),
        name != root_name(),
        is_container_spec(v, name),
    ensures
        ({
            let (w, r) = clear_named_container_spec(v, name);
            let path = v.items[index_of(v, name)].ancestors.push(name);
            &&& r is Ok
            &&& name_exists(w, name)
            &&& is_container_spec(w, name)
            &&& forall|i: int| 0 <= i < w.items.len() ==> !path.is_prefix_of(#[trigger] w.items[i].ancestors)
            &&& forall|j: int|
                0 <= j < v.items.len() && !path.is_prefix_of(#[trigger] v.items[j].ancestors) ==> exists|k: int|
                    0 <= k < w.items.len() && w.items[k] == v.items[j]
        }),
{
    let c = index_of(v, name);
    let path = v.items[c].ancestors.push(name);
    let w = clear_named_container_spec(v, name).0;
    assert(w == without(v, None, path));
    lemma_without_wf(v, None, path);
    let p = kept(None, path);
    assert(p(v.items[c]));
    let k = choose|k: int| 0 <= k < w.items.len() && w.items[k] == v.items[c];
    lemma_index_unique(w, name, k);
    v.items.filter_lemma(p);
    assert forall|i: int| 0 <= i < w.items.len() implies !path.is_prefix_of(#[trigger] w.items[i].ancestors) by {
        assert(p(w.items[i]));
    }
    assert forall|j: int|
        0 <= j < v.items.len() && !path.is_prefix_of(#[trigger] v.items[j].ancestors) implies exists|k: int|
        0 <= k < w.items.len() && w.items[k] == v.items[j] by {
        assert(p(v.items[j]));
    }
}

/// Changing what a name shows keeps its kind: a container stays a container
/// and an instance stays an instance, under the same name.
pub proof fn lemma_update_keeps_kind(v: RendererView, name: Seq<char>, markup: Seq<char>, location: (i32, i32))
    requires
        renderer_wf(v),
        update_named_spec(v, name, markup, location).1 is Ok,
    ensures
        ({
            let w = update_named_spec(v, name, markup, location).0;
            &&& name_exists(w, name)
            &&& is_container_spec(w, name) == is_container_spec(v, name)
        }),
{
    lemma_materialize_wf(v, markup);
    let (m, r) = materialize(v, markup);
    let id = r->Ok_0;
    let i = index_of(v, name);
    lemma_index_unique(v, name, i);
    assert(m.items[i].name == Some(name));
    lemma_index_unique(m, name, i);
    let w = update_named_spec(v, name, markup, location).0;
    let it = m.items[i];
    if it.kind == ItemKind::Group {
        let path = it.ancestors.push(name);
        lemma_without_wf(m, None, path);
        let x = without(m, None, path);
        assert(kept(None, path)(m.items[i]));
        let k = choose|k: int| 0 <= k < x.items.len() && x.items[k] == m.items[i];
        assert(path.last() == name);
        assert(path.drop_last() =~= it.ancestors);
        crate::model::lemma_same_definitions(m, x, id);
        lemma_with_item_wf(x, use_item(None, path, id, location));
        assert(w == with_item(x, use_item(None, path, id, location)));
        assert(w.items[k] == m.items[i]);
        lemma_index_unique(w, name, k);
    } else {
        let updated = crate::document::ItemView {
            kind: ItemKind::Use { def_id: id, x: location.0, y: location.1 },
            ..it
        };
        lemma_update_wf(m, i, updated);
        assert(w.items[i] == updated);
        lemma_index_unique(w, name, i);
    }
}

} // verus!
