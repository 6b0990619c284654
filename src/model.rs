//! The state of a renderer as a value, and what each operation does to it.
//!
//! The definitions are the cache of content ids: one node per id, whose markup
//! hashes to that id. The named items are the registry: a name is registered
//! exactly while a node of that name stands in the tree, and its kind is the
//! kind of that node.

use crate::definition::text_hash;
use crate::document::{kept, lemma_filter_origin, ItemKind, ItemView};
use crate::errors::{DomErrorView, RendererErrorView};
use crate::text::hex_digits;
use vstd::prelude::*;

verus! {

/// The value of a renderer.
pub struct RendererView {
    /// The id of the page element that holds the drawing.
    pub root_id: Seq<char>,
    /// The visible window: x, y, width and height.
    pub view_box: (i32, i32, i32, i32),
    /// The materialized definitions: content id and markup, in order of creation.
    pub definitions: Seq<(u64, Seq<char>)>,
    /// The placed nodes, in document order.
    pub items: Seq<ItemView>,
}

/// The outcome of an operation: the new state and what the caller gets back.
pub type Step<T> = (RendererView, Result<T, RendererErrorView>);

/// The name that stands for the root container; no item can take it.
pub open spec fn root_name() -> Seq<char> {
    "root"@
}

/// The element id of the definition node with content id `id`.
pub open spec fn figure_id_text(id: u64) -> Seq<char> {
    "figure-"@ + hex_digits(id as nat)
}

/// The element id of the node registered under `name`.
pub open spec fn named_id_text(name: Seq<char>) -> Seq<char> {
    "named-"@ + hex_digits(text_hash(name) as nat)
}

/// Whether a definition with content id `id` is materialized.
pub open spec fn has_definition(v: RendererView, id: u64) -> bool {
    exists|i: int| 0 <= i < v.definitions.len() && (#[trigger] v.definitions[i]).0 == id
}

/// Where the definition with content id `id` stands.
pub open spec fn definition_index(v: RendererView, id: u64) -> int {
    choose|i: int| 0 <= i < v.definitions.len() && (#[trigger] v.definitions[i]).0 == id
}

/// Whether `name` is registered.
pub open spec fn name_exists(v: RendererView, name: Seq<char>) -> bool {
    exists|i: int| 0 <= i < v.items.len() && (#[trigger] v.items[i]).name == Some(name)
}

/// Where the node registered under `name` stands.
pub open spec fn index_of(v: RendererView, name: Seq<char>) -> int {
    choose|i: int| 0 <= i < v.items.len() && (#[trigger] v.items[i]).name == Some(name)
}

/// Whether the element id that `name` would get is held by another name's node.
pub open spec fn id_taken(v: RendererView, name: Seq<char>) -> bool {
    exists|i: int|
        0 <= i < v.items.len() && (#[trigger] v.items[i]).name is Some && text_hash(
            v.items[i].name->0,
        ) == text_hash(name)
}

/// Whether `name` denotes a container: the root, or a registered grouping node.
pub open spec fn is_container_spec(v: RendererView, name: Seq<char>) -> bool {
    name == root_name() || (name_exists(v, name) && v.items[index_of(v, name)].kind == ItemKind::Group)
}

/// The state with one more node, placed last.
pub open spec fn with_item(v: RendererView, it: ItemView) -> RendererView {
    RendererView { items: v.items.push(it), ..v }
}

/// The state with only the nodes that `kept(name, path)` keeps.
pub open spec fn without(v: RendererView, name: Option<Seq<char>>, path: Seq<Seq<char>>) -> RendererView {
    RendererView { items: v.items.filter(kept(name, path)), ..v }
}

/// A visible reference to definition `id` at `location`.
pub open spec fn use_item(
    name: Option<Seq<char>>,
    ancestors: Seq<Seq<char>>,
    id: u64,
    location: (i32, i32),
) -> ItemView {
    ItemView {
        name,
        ancestors,
        kind: ItemKind::Use { def_id: id, x: location.0, y: location.1 },
        hidden: false,
    }
}

/// An empty, visible container.
pub open spec fn group_item(name: Seq<char>, ancestors: Seq<Seq<char>>) -> ItemView {
    ItemView { name: Some(name), ancestors, kind: ItemKind::Group, hidden: false }
}

/// A fresh renderer: nothing defined, nothing placed, the default window.
pub open spec fn initial(root_id: Seq<char>) -> RendererView {
    RendererView {
        root_id,
        view_box: (0, 0, 100, 100),
        definitions: Seq::empty(),
        items: Seq::empty(),
    }
}

/// Makes sure that the definition with markup `markup` is materialized, and
/// gives its content id. A different markup already held under the same id is
/// a collision, and fails.
pub open spec fn materialize(v: RendererView, markup: Seq<char>) -> Step<u64> {
    let id = text_hash(markup);
    if has_definition(v, id) {
        if v.definitions[definition_index(v, id)].1 == markup {
            (v, Ok(id))
        } else {
            (v, Err(RendererErrorView::Dom(DomErrorView::IdAlreadyExists(figure_id_text(id)))))
        }
    } else {
        (RendererView { definitions: v.definitions.push((id, markup)), ..v }, Ok(id))
    }
}

/// Why `name` cannot be registered, if it cannot.
pub open spec fn name_check(v: RendererView, name: Seq<char>) -> Option<RendererErrorView> {
    if name == root_name() || name_exists(v, name) {
        Some(RendererErrorView::NameAlreadyExists(name))
    } else if id_taken(v, name) {
        Some(RendererErrorView::Dom(DomErrorView::IdAlreadyExists(named_id_text(name))))
    } else {
        None
    }
}

/// The container path of the nodes placed in container `name`.
pub open spec fn container_path(v: RendererView, name: Seq<char>) -> Result<Seq<Seq<char>>, RendererErrorView> {
    if name == root_name() {
        Ok(Seq::empty())
    } else if !name_exists(v, name) {
        Err(RendererErrorView::UnfindableName(name))
    } else if v.items[index_of(v, name)].kind == ItemKind::Group {
        Ok(v.items[index_of(v, name)].ancestors.push(name))
    } else {
        Err(RendererErrorView::NamedNotContainer(name))
    }
}

/// Places definition `markup` under the root, unnamed.
pub open spec fn render_spec(v: RendererView, markup: Seq<char>, location: (i32, i32)) -> Step<()> {
    let (w, r) = materialize(v, markup);
    match r {
        Ok(id) => (with_item(w, use_item(None, Seq::empty(), id, location)), Ok(())),
        Err(e) => (v, Err(e)),
    }
}

/// Places definition `markup` under the root, named `name`.
pub open spec fn render_named_spec(
    v: RendererView,
    name: Seq<char>,
    markup: Seq<char>,
    location: (i32, i32),
) -> Step<()> {
    match name_check(v, name) {
        Some(e) => (v, Err(e)),
        None => {
            let (w, r) = materialize(v, markup);
            match r {
                Ok(id) => (with_item(w, use_item(Some(name), Seq::empty(), id, location)), Ok(())),
                Err(e) => (v, Err(e)),
            }
        },
    }
}

/// Places the materialized definition `id` under the root, unnamed.
pub open spec fn render_id_spec(v: RendererView, id: u64, location: (i32, i32)) -> Step<()> {
    if !has_definition(v, id) {
        (v, Err(RendererErrorView::UnfindableDefinition(id)))
    } else {
        (with_item(v, use_item(None, Seq::empty(), id, location)), Ok(()))
    }
}

/// Places the materialized definition `id` under the root, named `name`.
pub open spec fn render_named_id_spec(
    v: RendererView,
    name: Seq<char>,
    id: u64,
    location: (i32, i32),
) -> Step<()> {
    if !has_definition(v, id) {
        (v, Err(RendererErrorView::UnfindableDefinition(id)))
    } else {
        match name_check(v, name) {
            Some(e) => (v, Err(e)),
            None => (with_item(v, use_item(Some(name), Seq::empty(), id, location)), Ok(())),
        }
    }
}

/// Nothing defined and nothing placed; the root and the window stay.
pub open spec fn cleared(v: RendererView) -> RendererView {
    RendererView { definitions: Seq::empty(), items: Seq::empty(), ..v }
}

/// Takes out everything inside container `name` (the root included), and
/// keeps the container.
pub open spec fn clear_named_container_spec(v: RendererView, name: Seq<char>) -> Step<()> {
    match container_path(v, name) {
        Err(e) => (v, Err(e)),
        Ok(path) => (without(v, None, path), Ok(())),
    }
}

/// Points the registered `name` at definition `id` and `location`: a container
/// loses its content and gets one reference; an instance is changed in place.
pub open spec fn retarget(v: RendererView, name: Seq<char>, id: u64, location: (i32, i32)) -> RendererView {
    let i = index_of(v, name);
    let it = v.items[i];
    if it.kind == ItemKind::Group {
        let path = it.ancestors.push(name);
        with_item(without(v, None, path), use_item(None, path, id, location))
    } else {
        RendererView {
            items: v.items.update(
                i,
                ItemView { kind: ItemKind::Use { def_id: id, x: location.0, y: location.1 }, ..it },
            ),
            ..v
        }
    }
}

/// Changes what the registered `name` shows to definition `markup` at `location`.
pub open spec fn update_named_spec(
    v: RendererView,
    name: Seq<char>,
    markup: Seq<char>,
    location: (i32, i32),
) -> Step<()> {
    if !name_exists(v, name) {
        (v, Err(RendererErrorView::UnfindableName(name)))
    } else {
        let (w, r) = materialize(v, markup);
        match r {
            Ok(id) => (retarget(w, name, id, location), Ok(())),
            Err(e) => (v, Err(e)),
        }
    }
}

/// Changes what the registered `name` shows to the materialized definition `id`.
pub open spec fn update_named_with_id_spec(
    v: RendererView,
    name: Seq<char>,
    id: u64,
    location: (i32, i32),
) -> Step<()> {
    if !has_definition(v, id) {
        (v, Err(RendererErrorView::UnfindableDefinition(id)))
    } else if !name_exists(v, name) {
        (v, Err(RendererErrorView::UnfindableName(name)))
    } else {
        (retarget(v, name, id, location), Ok(()))
    }
}

/// The state with the node of `name` hidden or shown.
pub open spec fn with_hidden(v: RendererView, name: Seq<char>, hidden: bool) -> RendererView {
    let i = index_of(v, name);
    RendererView { items: v.items.update(i, ItemView { hidden, ..v.items[i] }), ..v }
}

/// Hides (`hidden`) or shows the node registered under `name`.
pub open spec fn set_visibility_spec(v: RendererView, name: Seq<char>, hidden: bool) -> Step<()> {
    if !name_exists(v, name) {
        (v, Err(RendererErrorView::UnfindableName(name)))
    } else {
        (with_hidden(v, name, hidden), Ok(()))
    }
}

/// Places definition `markup` in container `name`, unnamed.
pub open spec fn append_to_container_spec(
    v: RendererView,
    name: Seq<char>,
    markup: Seq<char>,
    location: (i32, i32),
) -> Step<()> {
    match container_path(v, name) {
        Err(e) => (v, Err(e)),
        Ok(path) => {
            let (w, r) = materialize(v, markup);
            match r {
                Ok(id) => (with_item(w, use_item(None, path, id, location)), Ok(())),
                Err(e) => (v, Err(e)),
            }
        },
    }
}

/// Places the materialized definition `id` in container `name`, unnamed.
pub open spec fn append_to_container_with_id_spec(
    v: RendererView,
    name: Seq<char>,
    id: u64,
    location: (i32, i32),
) -> Step<()> {
    if !has_definition(v, id) {
        (v, Err(RendererErrorView::UnfindableDefinition(id)))
    } else {
        match container_path(v, name) {
            Err(e) => (v, Err(e)),
            Ok(path) => (with_item(v, use_item(None, path, id, location)), Ok(())),
        }
    }
}

/// Takes out the node of `name` and, for a container, all that is inside it.
pub open spec fn delete_named_spec(v: RendererView, name: Seq<char>) -> Step<()> {
    if !name_exists(v, name) {
        (v, Err(RendererErrorView::UnfindableName(name)))
    } else {
        let path = v.items[index_of(v, name)].ancestors.push(name);
        (without(v, Some(name), path), Ok(()))
    }
}

/// Registers `name` as an empty container inside container `parent`.
pub open spec fn create_named_container_spec(v: RendererView, name: Seq<char>, parent: Seq<char>) -> Step<()> {
    match container_path(v, parent) {
        Err(e) => (v, Err(e)),
        Ok(path) => match name_check(v, name) {
            Some(e) => (v, Err(e)),
            None => (with_item(v, group_item(name, path)), Ok(())),
        },
    }
}

/// Moves the instance registered under `name` to `location`.
pub open spec fn move_named_spec(v: RendererView, name: Seq<char>, location: (i32, i32)) -> Step<()> {
    if !name_exists(v, name) {
        (v, Err(RendererErrorView::UnfindableName(name)))
    } else {
        let i = index_of(v, name);
        match v.items[i].kind {
            ItemKind::Group => (v, Err(RendererErrorView::NamedNotUse(name))),
            ItemKind::Use { def_id, .. } => (
                RendererView {
                    items: v.items.update(
                        i,
                        ItemView {
                            kind: ItemKind::Use { def_id, x: location.0, y: location.1 },
                            ..v.items[i]
                        },
                    ),
                    ..v
                },
                Ok(()),
            ),
        }
    }
}

/// Whether the node at `j` is the container that the node at `i` stands in.
pub open spec fn is_parent(items: Seq<ItemView>, j: int, i: int) -> bool {
    &&& items[j].name == Some(items[i].ancestors.last())
    &&& items[j].kind == ItemKind::Group
    &&& items[j].ancestors == items[i].ancestors.drop_last()
}

/// The invariant of a renderer.
pub open spec fn renderer_wf(v: RendererView) -> bool {
    // each definition is held under the hash of its markup
    &&& forall|i: int|
        0 <= i < v.definitions.len() ==> (#[trigger] v.definitions[i]).0 == text_hash(v.definitions[i].1)
    // one node per content id
    &&& forall|i: int, j: int|
        0 <= i < v.definitions.len() && 0 <= j < v.definitions.len() && (#[trigger] v.definitions[i]).0
            == (#[trigger] v.definitions[j]).0 ==> i == j
    // element ids of named nodes are unique, and so are their names
    &&& forall|i: int, j: int|
        0 <= i < v.items.len() && 0 <= j < v.items.len() && (#[trigger] v.items[i]).name is Some
            && (#[trigger] v.items[j]).name is Some && text_hash(v.items[i].name->0) == text_hash(
            v.items[j].name->0,
        ) ==> i == j
    // the root name is never registered
    &&& forall|i: int| 0 <= i < v.items.len() ==> (#[trigger] v.items[i]).name != Some(root_name())
    // every reference points at a materialized definition
    &&& forall|i: int|
        0 <= i < v.items.len() ==> match (#[trigger] v.items[i]).kind {
            ItemKind::Use { def_id, .. } => has_definition(v, def_id),
            ItemKind::Group => true,
        }
    // every node stands in the root or in a container that comes before it
    &&& forall|i: int|
        0 <= i < v.items.len() && (#[trigger] v.items[i]).ancestors.len() > 0 ==> exists|j: int|
            0 <= j < i && is_parent(v.items, j, i)
}

/// In a well-formed state a registered name stands at one place only.
pub proof fn lemma_index_unique(v: RendererView, name: Seq<char>, i: int)
    requires
        renderer_wf(v),
        0 <= i < v.items.len(),
        v.items[i].name == Some(name),
    ensures
        name_exists(v, name),
        index_of(v, name) == i,
{
    let j = index_of(v, name);
    assert(v.items[j].name == Some(name));
}

/// In a well-formed state a content id stands at one place only.
pub proof fn lemma_definition_unique(v: RendererView, id: u64, i: int)
    requires
        renderer_wf(v),
        0 <= i < v.definitions.len(),
        v.definitions[i].0 == id,
    ensures
        has_definition(v, id),
        definition_index(v, id) == i,
{
    let j = definition_index(v, id);
    assert(v.definitions[j].0 == id);
}

/// Materialization depends on the definitions alone.
pub proof fn lemma_same_definitions(v: RendererView, w: RendererView, id: u64)
    requires
        w.definitions == v.definitions,
        has_definition(v, id),
    ensures
        has_definition(w, id),
{
    let k = choose|k: int| 0 <= k < v.definitions.len() && (#[trigger] v.definitions[k]).0 == id;
    assert(w.definitions[k].0 == id);
}

/// The invariant depends on the definitions and the nodes alone.
pub proof fn lemma_wf_frame(v: RendererView, w: RendererView)
    requires
        renderer_wf(v),
        w.definitions == v.definitions,
        w.items == v.items,
    ensures
        renderer_wf(w),
{
    assert forall|i: int| 0 <= i < w.items.len() implies match (#[trigger] w.items[i]).kind {
        ItemKind::Use { def_id, .. } => has_definition(w, def_id),
        ItemKind::Group => true,
    } by {
        if let ItemKind::Use { def_id, .. } = w.items[i].kind {
            assert(v.items[i] == w.items[i]);
            lemma_same_definitions(v, w, def_id);
        }
    }
}

/// A fresh state is well formed.
pub proof fn lemma_initial_wf(root_id: Seq<char>)
    ensures
        renderer_wf(initial(root_id)),
{
}

/// An emptied state is well formed.
pub proof fn lemma_cleared_wf(v: RendererView)
    ensures
        renderer_wf(cleared(v)),
{
}

/// Materializing keeps the invariant, and what it returns is materialized.
pub proof fn lemma_materialize_wf(v: RendererView, markup: Seq<char>)
    requires
        renderer_wf(v),
    ensures
        renderer_wf(materialize(v, markup).0),
        materialize(v, markup).0.items == v.items,
        materialize(v, markup).0.root_id == v.root_id,
        materialize(v, markup).0.view_box == v.view_box,
        forall|id: u64| has_definition(v, id) ==> has_definition(materialize(v, markup).0, id),
        materialize(v, markup).1 matches Ok(id) ==> has_definition(materialize(v, markup).0, id),
{
    let w = materialize(v, markup).0;
    let id = text_hash(markup);
    if !has_definition(v, id) {
        assert forall|d: u64| has_definition(v, d) implies has_definition(w, d) by {
            let i = choose|i: int| 0 <= i < v.definitions.len() && (#[trigger] v.definitions[i]).0 == d;
            assert(w.definitions[i] == v.definitions[i]);
        }
        assert(w.definitions[v.definitions.len() as int].0 == id);
        assert forall|i: int, j: int|
            0 <= i < w.definitions.len() && 0 <= j < w.definitions.len() && (#[trigger] w.definitions[i]).0
                == (#[trigger] w.definitions[j]).0 implies i == j by {
            if i < v.definitions.len() && j < v.definitions.len() {
                assert(v.definitions[i] == w.definitions[i]);
                assert(v.definitions[j] == w.definitions[j]);
            } else if i < v.definitions.len() {
                assert(v.definitions[i] == w.definitions[i]);
            } else if j < v.definitions.len() {
                assert(v.definitions[j] == w.definitions[j]);
            }
        }
        assert forall|i: int| 0 <= i < w.items.len() implies match (#[trigger] w.items[i]).kind {
            ItemKind::Use { def_id, .. } => has_definition(w, def_id),
            ItemKind::Group => true,
        } by {
            assert(w.items[i] == v.items[i]);
        }
    }
}

/// Adding a node keeps the invariant when its name is free, what it references
/// is materialized, and the container it stands in is there.
pub proof fn lemma_with_item_wf(v: RendererView, it: ItemView)
    requires
        renderer_wf(v),
        it.name matches Some(n) ==> name_check(v, n) is None,
        it.kind matches ItemKind::Use { def_id, .. } ==> has_definition(v, def_id),
        it.ancestors.len() > 0 ==> exists|j: int|
            0 <= j < v.items.len() && #[trigger] v.items[j].name == Some(it.ancestors.last())
                && v.items[j].kind == ItemKind::Group && v.items[j].ancestors == it.ancestors.drop_last(),
    ensures
        renderer_wf(with_item(v, it)),
{
    let w = with_item(v, it);
    let last = v.items.len() as int;
    assert(w.items[last] == it);
    assert forall|i: int| 0 <= i < v.items.len() implies #[trigger] w.items[i] == v.items[i] by {}
    assert forall|i: int, j: int|
        0 <= i < w.items.len() && 0 <= j < w.items.len() && (#[trigger] w.items[i]).name is Some
            && (#[trigger] w.items[j]).name is Some && text_hash(w.items[i].name->0) == text_hash(
            w.items[j].name->0,
        ) implies i == j by {
        if i == last && j < last {
            assert(id_taken(v, it.name->0));
        } else if j == last && i < last {
            assert(id_taken(v, it.name->0));
        }
    }
    assert forall|i: int| 0 <= i < w.items.len() implies match (#[trigger] w.items[i]).kind {
        ItemKind::Use { def_id, .. } => has_definition(w, def_id),
        ItemKind::Group => true,
    } by {
        if let ItemKind::Use { def_id, .. } = w.items[i].kind {
            if i < last {
                assert(w.items[i] == v.items[i]);
            }
            lemma_same_definitions(v, w, def_id);
        }
    }
    assert forall|i: int| 0 <= i < w.items.len() && (#[trigger] w.items[i]).ancestors.len() > 0 implies exists|j: int|
        0 <= j < i && is_parent(w.items, j, i) by {
        if i == last {
            let j = choose|j: int|
                0 <= j < v.items.len() && #[trigger] v.items[j].name == Some(it.ancestors.last())
                    && v.items[j].kind == ItemKind::Group && v.items[j].ancestors == it.ancestors.drop_last();
            assert(is_parent(w.items, j, i));
        } else {
            let j = choose|j: int| 0 <= j < i && is_parent(v.items, j, i);
            assert(is_parent(w.items, j, i));
        }
    }
}

/// Taking out a subtree keeps the invariant: the named node goes with all that
/// is inside it, so no node is left without its container.
pub proof fn lemma_without_wf(v: RendererView, name: Option<Seq<char>>, path: Seq<Seq<char>>)
    requires
        renderer_wf(v),
        name matches Some(n) ==> name_exists(v, n) && path == v.items[index_of(v, n)].ancestors.push(n),
    ensures
        renderer_wf(without(v, name, path)),
        forall|j: int|
            0 <= j < v.items.len() && kept(name, path)(#[trigger] v.items[j]) ==> exists|k: int|
                0 <= k < without(v, name, path).items.len() && without(v, name, path).items[k] == v.items[j],
{
    let p = kept(name, path);
    let w = without(v, name, path);
    let m = lemma_filter_origin(v.items, p);
    assert forall|j: int| 0 <= j < v.items.len() && p(#[trigger] v.items[j]) implies exists|k: int|
        0 <= k < w.items.len() && w.items[k] == v.items[j] by {
        let k = choose|k: int| 0 <= k < m.len() && m[k] == j;
        assert(w.items[k] == v.items[m[k]]);
    }
    assert forall|i: int, j: int|
        0 <= i < w.items.len() && 0 <= j < w.items.len() && (#[trigger] w.items[i]).name is Some
            && (#[trigger] w.items[j]).name is Some && text_hash(w.items[i].name->0) == text_hash(
            w.items[j].name->0,
        ) implies i == j by {
        assert(w.items[i] == v.items[m[i]]);
        assert(w.items[j] == v.items[m[j]]);
        if i < j {
            assert(m[i] < m[j]);
        } else if j < i {
            assert(m[j] < m[i]);
        }
    }
    assert forall|i: int| 0 <= i < w.items.len() implies (#[trigger] w.items[i]).name != Some(root_name()) by {
        assert(w.items[i] == v.items[m[i]]);
    }
    assert forall|i: int| 0 <= i < w.items.len() implies match (#[trigger] w.items[i]).kind {
        ItemKind::Use { def_id, .. } => has_definition(w, def_id),
        ItemKind::Group => true,
    } by {
        assert(w.items[i] == v.items[m[i]]);
        if let ItemKind::Use { def_id, .. } = w.items[i].kind {
            lemma_same_definitions(v, w, def_id);
        }
    }
    assert forall|i: int| 0 <= i < w.items.len() && (#[trigger] w.items[i]).ancestors.len() > 0 implies exists|k: int|
        0 <= k < i && is_parent(w.items, k, i) by {
        let oi = m[i];
        assert(w.items[i] == v.items[oi]);
        assert(p(v.items[oi]));
        let j = choose|j: int| 0 <= j < oi && is_parent(v.items, j, oi);
        let anc = v.items[oi].ancestors;
        assert(anc =~= v.items[j].ancestors.push(anc.last()));
        if path.is_prefix_of(v.items[j].ancestors) {
            assert(path.is_prefix_of(anc));
        }
        if let Some(n) = name {
            if v.items[j].name == Some(n) {
                lemma_index_unique(v, n, j);
                assert(anc =~= path);
                assert(path.is_prefix_of(anc));
            }
        }
        assert(p(v.items[j]));
        let k = choose|k: int| 0 <= k < m.len() && m[k] == j;
        assert(w.items[k] == v.items[j]);
        if k >= i {
            if k > i {
                assert(m[i] < m[k]);
            }
        }
        assert(is_parent(w.items, k, i));
    }
}

/// Changing a node in place keeps the invariant when its name, container path
/// and kind stay and what it references is materialized.
pub proof fn lemma_update_wf(v: RendererView, i: int, it: ItemView)
    requires
        renderer_wf(v),
        0 <= i < v.items.len(),
        it.name == v.items[i].name,
        it.ancestors == v.items[i].ancestors,
        (it.kind == ItemKind::Group) == (v.items[i].kind == ItemKind::Group),
        it.kind matches ItemKind::Use { def_id, .. } ==> has_definition(v, def_id),
    ensures
        renderer_wf(RendererView { items: v.items.update(i, it), ..v }),
{
    let w = RendererView { items: v.items.update(i, it), ..v };
    assert forall|k: int| 0 <= k < v.items.len() && k != i implies #[trigger] w.items[k] == v.items[k] by {}
    assert forall|a: int, b: int|
        0 <= a < w.items.len() && 0 <= b < w.items.len() && (#[trigger] w.items[a]).name is Some
            && (#[trigger] w.items[b]).name is Some && text_hash(w.items[a].name->0) == text_hash(
            w.items[b].name->0,
        ) implies a == b by {
        assert(w.items[a].name == v.items[a].name);
        assert(w.items[b].name == v.items[b].name);
    }
    assert forall|a: int| 0 <= a < w.items.len() implies match (#[trigger] w.items[a]).kind {
        ItemKind::Use { def_id, .. } => has_definition(w, def_id),
        ItemKind::Group => true,
    } by {
        if let ItemKind::Use { def_id, .. } = w.items[a].kind {
            if a != i {
                assert(w.items[a] == v.items[a]);
            }
            lemma_same_definitions(v, w, def_id);
        }
    }
    assert forall|a: int| 0 <= a < w.items.len() && (#[trigger] w.items[a]).ancestors.len() > 0 implies exists|k: int|
        0 <= k < a && is_parent(w.items, k, a) by {
        assert(w.items[a].ancestors == v.items[a].ancestors);
        let j = choose|j: int| 0 <= j < a && is_parent(v.items, j, a);
        assert(is_parent(w.items, j, a));
    }
}

} // verus!
