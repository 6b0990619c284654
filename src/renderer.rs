//! The renderer: materializes definitions once per content id, places
//! references to them under the root or in named containers, and keeps the
//! registry of names.

use crate::definition::{hash_text, text_hash, Definition};
use crate::document::{
    copy_names, kept, ItemView, definitions_view, filter_items, items_view, names_view, DefinitionNode, Item, ItemKind,
};
use crate::errors::{outcome, DomError, RendererError, RendererErrorView};
use crate::model::{
    append_to_container_spec, append_to_container_with_id_spec, clear_named_container_spec, cleared,
    create_named_container_spec, delete_named_spec, group_item, index_of, initial, is_container_spec,
    lemma_cleared_wf, lemma_initial_wf, move_named_spec, render_id_spec, render_named_id_spec,
    render_named_spec, render_spec, set_visibility_spec, update_named_spec, update_named_with_id_spec,
    with_hidden, container_path, figure_id_text, has_definition, id_taken, lemma_definition_unique, lemma_index_unique,
    lemma_materialize_wf, lemma_same_definitions, lemma_wf_frame, lemma_update_wf, lemma_with_item_wf, lemma_without_wf,
    materialize, name_check, name_exists, named_id_text, renderer_wf, retarget, root_name, use_item, with_item,
    without, RendererView,
};
use crate::text::{push_hex, str_eq};
use vstd::prelude::*;
use vstd::string::*;

verus! {

/// The window that a new renderer shows: x, y, width and height.
pub const DEFAULT_VIEWBOX: [i32; 4] = [0, 0, 100, 100];

/// A drawing: its definitions, the nodes placed under its root, and their names.
pub struct Renderer {
    dom_root_id: String,
    view_box: (i32, i32, i32, i32),
    definitions: Vec<DefinitionNode>,
    items: Vec<Item>,
}

impl View for Renderer {
    type V = RendererView;

    closed spec fn view(&self) -> RendererView {
        RendererView {
            root_id: self.dom_root_id@,
            view_box: self.view_box,
            definitions: definitions_view(self.definitions@),
            items: items_view(self.items@),
        }
    }
}

/// The element id of a definition node: `figure-` and the content id in base 16.
pub fn figure_id_string(id: u64) -> (s: String)
    ensures
        s@ == figure_id_text(id),
{
    let mut s = String::from_str("figure-");
    push_hex(&mut s, id);
    s
}

/// The element id of a named node: `named-` and the hash of the name in base 16.
pub fn named_id_string(name: &str) -> (s: String)
    ensures
        s@ == named_id_text(name@),
{
    let mut s = String::from_str("named-");
    push_hex(&mut s, hash_text(name));
    s
}

fn is_root_name(name: &str) -> (r: bool)
    ensures
        r == (name@ == root_name()),
{
    str_eq(name, "root")
}

impl Renderer {
    /// The invariant: see [`renderer_wf`].
    pub open spec fn wf(&self) -> bool {
        renderer_wf(self@)
    }

    /// Where the definition with content id `id` stands, if it is materialized.
    fn find_definition(&self, id: u64) -> (r: Option<usize>)
        ensures
            match r {
                Some(i) => i < self@.definitions.len() && self@.definitions[i as int].0 == id,
                None => !has_definition(self@, id),
            },
    {
        let n = self.definitions.len();
        let mut i: usize = 0;
        while i < n
            invariant
                n == self.definitions.len(),
                i <= n,
                forall|k: int| 0 <= k < i ==> self@.definitions[k].0 != id,
            decreases n - i,
        {
            if self.definitions[i].id == id {
                return Some(i);
            }
            i = i + 1;
        }
        None
    }

    /// Where the node registered under `name` stands, if it is registered.
    fn find_name(&self, name: &str) -> (r: Option<usize>)
        ensures
            match r {
                Some(i) => i < self@.items.len() && self@.items[i as int].name == Some(name@),
                None => !name_exists(self@, name@),
            },
    {
        let n = self.items.len();
        let mut i: usize = 0;
        while i < n
            invariant
                n == self.items.len(),
                i <= n,
                forall|k: int| 0 <= k < i ==> self@.items[k].name != Some(name@),
            decreases n - i,
        {
            match &self.items[i].name {
                Some(other) => {
                    if str_eq(other.as_str(), name) {
                        return Some(i);
                    }
                },
                None => {},
            }
            i = i + 1;
        }
        None
    }

    /// Whether the element id that `name` would get is held already.
    fn id_in_use(&self, name: &str) -> (r: bool)
        ensures
            r == id_taken(self@, name@),
    {
        let key = hash_text(name);
        let n = self.items.len();
        let mut i: usize = 0;
        while i < n
            invariant
                n == self.items.len(),
                i <= n,
                key == text_hash(name@),
                forall|k: int|
                    0 <= k < i ==> !((#[trigger] self@.items[k]).name is Some && text_hash(
                        self@.items[k].name->0,
                    ) == key),
            decreases n - i,
        {
            match &self.items[i].name {
                Some(other) => {
                    if hash_text(other.as_str()) == key {
                        assert(self@.items[i as int].name is Some);
                        return true;
                    }
                },
                None => {},
            }
            i = i + 1;
        }
        false
    }

    /// Why `name` cannot be registered, if it cannot.
    fn check_name(&self, name: &str) -> (r: Option<RendererError>)
        ensures
            match r {
                Some(e) => name_check(self@, name@) == Some(e@),
                None => name_check(self@, name@) is None,
            },
    {
        if is_root_name(name) || self.find_name(name).is_some() {
            return Some(RendererError::NameAlreadyExists(String::from_str(name)));
        }
        if self.id_in_use(name) {
            return Some(RendererError::Dom(DomError::IdAlreadyExists(named_id_string(name))));
        }
        None
    }

    /// The container path of the nodes placed in container `name`.
    fn path_of(&self, name: &str) -> (r: Result<Vec<String>, RendererError>)
        requires
            self.wf(),
        ensures
            match r {
                Ok(p) => container_path(self@, name@) == Ok::<_, RendererErrorView>(
                    names_view(p@),
                ),
                Err(e) => container_path(self@, name@) == Err::<Seq<Seq<char>>, _>(e@),
            },
    {
        if is_root_name(name) {
            let p: Vec<String> = Vec::new();
            assert(names_view(p@) =~= Seq::<Seq<char>>::empty());
            return Ok(p);
        }
        match self.find_name(name) {
            None => Err(RendererError::UnfindableName(String::from_str(name))),
            Some(i) => {
                proof {
                    lemma_index_unique(self@, name@, i as int);
                }
                let it = &self.items[i];
                if it.kind == ItemKind::Group {
                    let mut p = copy_names(&it.ancestors);
                    p.push(String::from_str(name));
                    assert(names_view(p@) =~= self@.items[i as int].ancestors.push(name@));
                    Ok(p)
                } else {
                    Err(RendererError::NamedNotContainer(String::from_str(name)))
                }
            },
        }
    }

    /// Materializes `figure` unless its content id is materialized already.
    fn materialize(&mut self, figure: Definition) -> (r: Result<u64, RendererError>)
        requires
            old(self).wf(),
        ensures
            final(self).wf(),
            (final(self)@, outcome(r)) == materialize(old(self)@, figure@),
    {
        let id = figure.id();
        proof {
            lemma_materialize_wf(self@, figure@);
        }
        match self.find_definition(id) {
            Some(i) => {
                proof {
                    lemma_definition_unique(self@, id, i as int);
                }
                let held = self.definitions[i].definition.to_markup();
                let given = figure.to_markup();
                if str_eq(held.as_str(), given.as_str()) {
                    Ok(id)
                } else {
                    Err(RendererError::Dom(DomError::IdAlreadyExists(figure_id_string(id))))
                }
            },
            None => {
                self.definitions.push(DefinitionNode { id, definition: figure });
                assert(self@.definitions =~= old(self)@.definitions.push((id, figure@)));
                Ok(id)
            },
        }
    }

    /// Adds a node after all others.
    fn push_item(&mut self, it: Item)
        ensures
            final(self)@ == with_item(old(self)@, it@),
    {
        self.items.push(it);
        assert(self@.items =~= old(self)@.items.push(it@));
    }

    /// Takes out the nodes named `name` and all nodes inside container path `path`.
    fn remove_items(&mut self, name: Option<&str>, path: &Vec<String>)
        ensures
            final(self)@ == without(
                old(self)@,
                match name {
                    Some(n) => Some(n@),
                    None => None,
                },
                names_view(path@),
            ),
    {
        let mut taken: Vec<Item> = Vec::new();
        std::mem::swap(&mut taken, &mut self.items);
        self.items = filter_items(taken, name, path);
    }

    /// Points the registered node at `i`, named `name`, at definition `id` and `location`.
    fn retarget(&mut self, i: usize, name: &str, id: u64, location: (i32, i32))
        requires
            old(self).wf(),
            i < old(self)@.items.len(),
            old(self)@.items[i as int].name == Some(name@),
            has_definition(old(self)@, id),
        ensures
            final(self).wf(),
            final(self)@ == retarget(old(self)@, name@, id, location),
    {
        proof {
            lemma_index_unique(self@, name@, i as int);
        }
        if self.items[i].kind == ItemKind::Group {
            let mut path = copy_names(&self.items[i].ancestors);
            path.push(String::from_str(name));
            let ghost v = self@;
            let ghost p = v.items[i as int].ancestors.push(name@);
            assert(names_view(path@) =~= p);
            self.remove_items(None, &path);
            proof {
                lemma_without_wf(v, None, p);
                let w = without(v, None, p);
                assert(kept(None, p)(v.items[i as int]));
                let k = choose|k: int| 0 <= k < w.items.len() && w.items[k] == v.items[i as int];
                assert(p.last() == name@);
                assert(p.drop_last() =~= v.items[i as int].ancestors);
                lemma_same_definitions(v, w, id);
                lemma_with_item_wf(w, use_item(None, p, id, location));
            }
            let it = Item { name: None, ancestors: path, kind: ItemKind::Use { def_id: id, x: location.0, y: location.1 }, hidden: false };
            self.push_item(it);
        } else {
            let ghost v = self@;
            let ghost updated = ItemView {
                kind: ItemKind::Use { def_id: id, x: location.0, y: location.1 },
                ..v.items[i as int]
            };
            proof {
                lemma_update_wf(v, i as int, updated);
            }
            self.items[i].kind = ItemKind::Use { def_id: id, x: location.0, y: location.1 };
            assert(self@.items =~= v.items.update(i as int, updated));
        }
    }

    /// A renderer drawing into the page element with id `dom_root_id`: nothing
    /// defined, nothing placed, the default window.
    pub fn new(dom_root_id: &str) -> (r: Renderer)
        ensures
            r.wf(),
            r@ == initial(dom_root_id@),
    {
        let r = Renderer {
            dom_root_id: String::from_str(dom_root_id),
            view_box: (DEFAULT_VIEWBOX[0], DEFAULT_VIEWBOX[1], DEFAULT_VIEWBOX[2], DEFAULT_VIEWBOX[3]),
            definitions: Vec::new(),
            items: Vec::new(),
        };
        assert(r@.definitions =~= Seq::<(u64, Seq<char>)>::empty());
        assert(r@.items =~= Seq::<ItemView>::empty());
        proof {
            lemma_initial_wf(dom_root_id@);
        }
        r
    }

    /// Places `figure` at `location` under the root, materializing it first if
    /// its content id is new.
    pub fn render(&mut self, figure: Definition, location: (i32, i32)) -> (r: Result<(), RendererError>)
        requires
            old(self).wf(),
        ensures
            final(self).wf(),
            (final(self)@, outcome(r)) == render_spec(old(self)@, figure@, location),
    {
        let ghost v = self@;
        let id = match self.materialize(figure) {
            Ok(id) => id,
            Err(e) => return Err(e),
        };
        proof {
            lemma_materialize_wf(v, figure@);
            lemma_with_item_wf(self@, use_item(None, Seq::empty(), id, location));
        }
        let it = Item {
            name: None,
            ancestors: Vec::new(),
            kind: ItemKind::Use { def_id: id, x: location.0, y: location.1 },
            hidden: false,
        };
        assert(it@.ancestors =~= Seq::<Seq<char>>::empty());
        assert(it@ == use_item(None, Seq::empty(), id, location));
        self.push_item(it);
        Ok(())
    }

    /// Places `figure` at `location` under the root and registers it as `name`.
    pub fn render_named(&mut self, name: &str, figure: Definition, location: (i32, i32)) -> (r: Result<
        (),
        RendererError,
    >)
        requires
            old(self).wf(),
        ensures
            final(self).wf(),
            (final(self)@, outcome(r)) == render_named_spec(old(self)@, name@, figure@, location),
    {
        if let Some(e) = self.check_name(name) {
            return Err(e);
        }
        let ghost v = self@;
        let id = match self.materialize(figure) {
            Ok(id) => id,
            Err(e) => return Err(e),
        };
        proof {
            lemma_materialize_wf(v, figure@);
            assert(name_check(self@, name@) == name_check(v, name@));
            lemma_with_item_wf(self@, use_item(Some(name@), Seq::empty(), id, location));
        }
        let it = Item {
            name: Some(String::from_str(name)),
            ancestors: Vec::new(),
            kind: ItemKind::Use { def_id: id, x: location.0, y: location.1 },
            hidden: false,
        };
        assert(it@.ancestors =~= Seq::<Seq<char>>::empty());
        assert(it@ == use_item(Some(name@), Seq::empty(), id, location));
        self.push_item(it);
        Ok(())
    }

    /// Places the materialized definition `figure_id` at `location` under the root.
    pub fn render_id(&mut self, figure_id: u64, location: (i32, i32)) -> (r: Result<(), RendererError>)
        requires
            old(self).wf(),
        ensures
            final(self).wf(),
            (final(self)@, outcome(r)) == render_id_spec(old(self)@, figure_id, location),
    {
        if self.find_definition(figure_id).is_none() {
            return Err(RendererError::UnfindableDefinition(figure_id));
        }
        proof {
            lemma_with_item_wf(self@, use_item(None, Seq::empty(), figure_id, location));
        }
        let it = Item {
            name: None,
            ancestors: Vec::new(),
            kind: ItemKind::Use { def_id: figure_id, x: location.0, y: location.1 },
            hidden: false,
        };
        assert(it@.ancestors =~= Seq::<Seq<char>>::empty());
        assert(it@ == use_item(None, Seq::empty(), figure_id, location));
        self.push_item(it);
        Ok(())
    }

    /// Places the materialized definition `figure_id` at `location` under the
    /// root and registers it as `name`.
    pub fn render_named_id(&mut self, name: &str, figure_id: u64, location: (i32, i32)) -> (r: Result<
        (),
        RendererError,
    >)
        requires
            old(self).wf(),
        ensures
            final(self).wf(),
            (final(self)@, outcome(r)) == render_named_id_spec(old(self)@, name@, figure_id, location),
    {
        if self.find_definition(figure_id).is_none() {
            return Err(RendererError::UnfindableDefinition(figure_id));
        }
        if let Some(e) = self.check_name(name) {
            return Err(e);
        }
        proof {
            lemma_with_item_wf(self@, use_item(Some(name@), Seq::empty(), figure_id, location));
        }
        let it = Item {
            name: Some(String::from_str(name)),
            ancestors: Vec::new(),
            kind: ItemKind::Use { def_id: figure_id, x: location.0, y: location.1 },
            hidden: false,
        };
        assert(it@.ancestors =~= Seq::<Seq<char>>::empty());
        assert(it@ == use_item(Some(name@), Seq::empty(), figure_id, location));
        self.push_item(it);
        Ok(())
    }

    /// Materializes `figure` without placing it, and gives its content id.
    pub fn define_render(&mut self, figure: Definition) -> (r: Result<u64, RendererError>)
        requires
            old(self).wf(),
        ensures
            final(self).wf(),
            (final(self)@, outcome(r)) == materialize(old(self)@, figure@),
    {
        self.materialize(figure)
    }

    /// Takes out every definition and every node; names become free again.
    pub fn clear(&mut self)
        ensures
            final(self).wf(),
            final(self)@ == cleared(old(self)@),
    {
        self.definitions = Vec::new();
        self.items = Vec::new();
        assert(self@.definitions =~= Seq::<(u64, Seq<char>)>::empty());
        assert(self@.items =~= Seq::<ItemView>::empty());
        proof {
            lemma_cleared_wf(old(self)@);
        }
    }

    /// Takes out everything inside the container `container_name` (or the root)
    /// and keeps the container itself.
    pub fn clear_named_container(&mut self, container_name: &str) -> (r: Result<(), RendererError>)
        requires
            old(self).wf(),
        ensures
            final(self).wf(),
            (final(self)@, outcome(r)) == clear_named_container_spec(old(self)@, container_name@),
    {
        let path = match self.path_of(container_name) {
            Ok(p) => p,
            Err(e) => return Err(e),
        };
        proof {
            lemma_without_wf(self@, None, names_view(path@));
        }
        self.remove_items(None, &path);
        Ok(())
    }

    /// Shows `figure` at `location` through the registered `name`: a container
    /// is emptied and gets one reference, an instance is changed in place.
    pub fn update_named(&mut self, name: &str, figure: Definition, location: (i32, i32)) -> (r: Result<
        (),
        RendererError,
    >)
        requires
            old(self).wf(),
        ensures
            final(self).wf(),
            (final(self)@, outcome(r)) == update_named_spec(old(self)@, name@, figure@, location),
    {
        let i = match self.find_name(name) {
            Some(i) => i,
            None => return Err(RendererError::UnfindableName(String::from_str(name))),
        };
        let ghost v = self@;
        let id = match self.materialize(figure) {
            Ok(id) => id,
            Err(e) => return Err(e),
        };
        proof {
            lemma_materialize_wf(v, figure@);
        }
        self.retarget(i, name, id, location);
        Ok(())
    }

    /// Shows the materialized definition `figure_id` at `location` through the
    /// registered `name`.
    pub fn update_named_with_id(&mut self, name: &str, figure_id: u64, location: (i32, i32)) -> (r: Result<
        (),
        RendererError,
    >)
        requires
            old(self).wf(),
        ensures
            final(self).wf(),
            (final(self)@, outcome(r)) == update_named_with_id_spec(old(self)@, name@, figure_id, location),
    {
        if self.find_definition(figure_id).is_none() {
            return Err(RendererError::UnfindableDefinition(figure_id));
        }
        let i = match self.find_name(name) {
            Some(i) => i,
            None => return Err(RendererError::UnfindableName(String::from_str(name))),
        };
        self.retarget(i, name, figure_id, location);
        Ok(())
    }

    fn set_hidden(&mut self, name: &str, hidden: bool) -> (r: Result<(), RendererError>)
        requires
            old(self).wf(),
        ensures
            final(self).wf(),
            (final(self)@, outcome(r)) == set_visibility_spec(old(self)@, name@, hidden),
    {
        let i = match self.find_name(name) {
            Some(i) => i,
            None => return Err(RendererError::UnfindableName(String::from_str(name))),
        };
        let ghost v = self@;
        proof {
            lemma_index_unique(v, name@, i as int);
            lemma_update_wf(v, i as int, ItemView { hidden, ..v.items[i as int] });
        }
        self.items[i].hidden = hidden;
        assert(self@.items =~= with_hidden(v, name@, hidden).items);
        Ok(())
    }

    /// Hides the node registered under `name`.
    pub fn hide_named(&mut self, name: &str) -> (r: Result<(), RendererError>)
        requires
            old(self).wf(),
        ensures
            final(self).wf(),
            (final(self)@, outcome(r)) == set_visibility_spec(old(self)@, name@, true),
    {
        self.set_hidden(name, true)
    }

    /// Shows the node registered under `name` again.
    pub fn show_named(&mut self, name: &str) -> (r: Result<(), RendererError>)
        requires
            old(self).wf(),
        ensures
            final(self).wf(),
            (final(self)@, outcome(r)) == set_visibility_spec(old(self)@, name@, false),
    {
        self.set_hidden(name, false)
    }

    /// Places `figure` at `location` in the container `name` (or the root).
    pub fn append_to_container(&mut self, name: &str, figure: Definition, location: (i32, i32)) -> (r:
        Result<(), RendererError>)
        requires
            old(self).wf(),
        ensures
            final(self).wf(),
            (final(self)@, outcome(r)) == append_to_container_spec(old(self)@, name@, figure@, location),
    {
        let path = match self.path_of(name) {
            Ok(p) => p,
            Err(e) => return Err(e),
        };
        let ghost v = self@;
        let id = match self.materialize(figure) {
            Ok(id) => id,
            Err(e) => return Err(e),
        };
        proof {
            lemma_materialize_wf(v, figure@);
            assert(container_path(self@, name@) == container_path(v, name@));
        }
        self.place_in(path, id, location);
        Ok(())
    }

    /// Places the materialized definition `figure_id` at `location` in the
    /// container `name` (or the root).
    pub fn append_to_container_with_id(&mut self, name: &str, figure_id: u64, location: (i32, i32)) -> (r:
        Result<(), RendererError>)
        requires
            old(self).wf(),
        ensures
            final(self).wf(),
            (final(self)@, outcome(r)) == append_to_container_with_id_spec(
                old(self)@,
                name@,
                figure_id,
                location,
            ),
    {
        if self.find_definition(figure_id).is_none() {
            return Err(RendererError::UnfindableDefinition(figure_id));
        }
        let path = match self.path_of(name) {
            Ok(p) => p,
            Err(e) => return Err(e),
        };
        assert(container_path(self@, name@) == Ok::<_, RendererErrorView>(names_view(path@)));
        self.place_in(path, figure_id, location);
        Ok(())
    }

    /// Adds an unnamed reference to `id` in the container whose path is `path`.
    fn place_in(&mut self, path: Vec<String>, id: u64, location: (i32, i32))
        requires
            old(self).wf(),
            has_definition(old(self)@, id),
            exists|name: Seq<char>| container_path(old(self)@, name) == Ok::<_, RendererErrorView>(names_view(path@)),
        ensures
            final(self).wf(),
            final(self)@ == with_item(old(self)@, use_item(None, names_view(path@), id, location)),
    {
        let ghost v = self@;
        let ghost p = names_view(path@);
        proof {
            let name = choose|name: Seq<char>| container_path(v, name) == Ok::<_, RendererErrorView>(p);
            if p.len() > 0 {
                let j = index_of(v, name);
                assert(name != root_name());
                assert(p == v.items[j].ancestors.push(name));
                assert(p.last() == name);
                assert(p.drop_last() =~= v.items[j].ancestors);
            }
            lemma_with_item_wf(v, use_item(None, p, id, location));
        }
        let it = Item { name: None, ancestors: path, kind: ItemKind::Use { def_id: id, x: location.0, y: location.1 }, hidden: false };
        assert(it@ == use_item(None, p, id, location));
        self.push_item(it);
    }

    /// Takes out the node registered under `name`, with all that is inside it;
    /// definitions stay.
    pub fn delete_named(&mut self, name: &str) -> (r: Result<(), RendererError>)
        requires
            old(self).wf(),
        ensures
            final(self).wf(),
            (final(self)@, outcome(r)) == delete_named_spec(old(self)@, name@),
    {
        let i = match self.find_name(name) {
            Some(i) => i,
            None => return Err(RendererError::UnfindableName(String::from_str(name))),
        };
        let mut path = copy_names(&self.items[i].ancestors);
        path.push(String::from_str(name));
        let ghost v = self@;
        proof {
            lemma_index_unique(v, name@, i as int);
            assert(names_view(path@) =~= v.items[i as int].ancestors.push(name@));
            lemma_without_wf(v, Some(name@), names_view(path@));
        }
        self.remove_items(Some(name), &path);
        Ok(())
    }

    /// Whether a definition with content id `figure_id` is materialized.
    pub fn contains_id(&self, figure_id: u64) -> (r: bool)
        ensures
            r == has_definition(self@, figure_id),
    {
        self.find_definition(figure_id).is_some()
    }

    /// Whether a definition with the content id of `figure` is materialized.
    pub fn contains_figure(&self, figure: &Definition) -> (r: bool)
        ensures
            r == has_definition(self@, text_hash(figure@)),
    {
        self.contains_id(figure.id())
    }

    /// Whether `name` is registered.
    pub fn does_name_exist(&self, name: &str) -> (r: bool)
        ensures
            r == name_exists(self@, name@),
    {
        self.find_name(name).is_some()
    }

    /// Registers `name` as an empty container inside the container `parent`
    /// (or the root).
    pub fn create_named_container(&mut self, name: &str, parent: &str) -> (r: Result<(), RendererError>)
        requires
            old(self).wf(),
        ensures
            final(self).wf(),
            (final(self)@, outcome(r)) == create_named_container_spec(old(self)@, name@, parent@),
    {
        let path = match self.path_of(parent) {
            Ok(p) => p,
            Err(e) => return Err(e),
        };
        if let Some(e) = self.check_name(name) {
            return Err(e);
        }
        let ghost v = self@;
        let ghost p = names_view(path@);
        proof {
            if p.len() > 0 {
                let j = index_of(v, parent@);
                assert(parent@ != root_name());
                assert(p.last() == parent@);
                assert(p.drop_last() =~= v.items[j].ancestors);
            }
            lemma_with_item_wf(v, group_item(name@, p));
        }
        let it = Item { name: Some(String::from_str(name)), ancestors: path, kind: ItemKind::Group, hidden: false };
        assert(it@ == group_item(name@, p));
        self.push_item(it);
        Ok(())
    }

    /// Moves the instance registered under `name` to `loc`.
    pub fn move_named(&mut self, name: &str, loc: (i32, i32)) -> (r: Result<(), RendererError>)
        requires
            old(self).wf(),
        ensures
            final(self).wf(),
            (final(self)@, outcome(r)) == move_named_spec(old(self)@, name@, loc),
    {
        let i = match self.find_name(name) {
            Some(i) => i,
            None => return Err(RendererError::UnfindableName(String::from_str(name))),
        };
        let ghost v = self@;
        proof {
            lemma_index_unique(v, name@, i as int);
        }
        match self.items[i].kind {
            ItemKind::Group => Err(RendererError::NamedNotUse(String::from_str(name))),
            ItemKind::Use { def_id, .. } => {
                let ghost updated = ItemView {
                    kind: ItemKind::Use { def_id, x: loc.0, y: loc.1 },
                    ..v.items[i as int]
                };
                proof {
                    lemma_update_wf(v, i as int, updated);
                }
                self.items[i].kind = ItemKind::Use { def_id, x: loc.0, y: loc.1 };
                assert(self@.items =~= v.items.update(i as int, updated));
                Ok(())
            },
        }
    }

    /// Whether `name` denotes a container: the root or a registered container.
    pub fn is_container(&self, name: &str) -> (r: bool)
        requires
            self.wf(),
        ensures
            r == is_container_spec(self@, name@),
    {
        if is_root_name(name) {
            return true;
        }
        match self.find_name(name) {
            None => false,
            Some(i) => {
                proof {
                    lemma_index_unique(self@, name@, i as int);
                }
                self.items[i].kind == ItemKind::Group
            },
        }
    }

    /// Sets the visible window of the drawing.
    pub fn adjust_viewbox(&mut self, x: i32, y: i32, width: i32, height: i32)
        requires
            old(self).wf(),
        ensures
            final(self).wf(),
            final(self)@ == (RendererView { view_box: (x, y, width, height), ..old(self)@ }),
    {
        let ghost v = self@;
        self.view_box = (x, y, width, height);
        proof {
            lemma_wf_frame(v, self@);
        }
    }

    /// The id of the page element that holds the drawing.
    pub fn dom_root_id(&self) -> (r: &str)
        ensures
            r@ == self@.root_id,
    {
        self.dom_root_id.as_str()
    }

    /// The visible window: x, y, width and height.
    pub fn view_box(&self) -> (r: (i32, i32, i32, i32))
        ensures
            r == self@.view_box,
    {
        self.view_box
    }

    /// The materialized definitions, in order of creation.
    pub fn definitions(&self) -> (r: &Vec<DefinitionNode>)
        ensures
            definitions_view(r@) == self@.definitions,
    {
        &self.definitions
    }

    /// The placed nodes, in document order.
    pub fn items(&self) -> (r: &Vec<Item>)
        ensures
            items_view(r@) == self@.items,
    {
        &self.items
    }
}

} // verus!
