//! What can go wrong while rendering, as values.

use vstd::prelude::*;
use vstd::string::*;

verus! {

/// A failure of the document tree: a node that is missing or in the wrong place.
#[derive(Debug, Clone)]
pub enum DomError {
    NoWindow,
    NoDocument,
    UncreatableElement,
    UncreatableNSElement,
    UnappendableElement,
    /// (Attribute, Value)
    UnsetableAttribute(String, String),
    EmptyContainer,
    /// (Id)
    UnfindableId(String),
    /// (Tag Name)
    UnfindableTag(String),
    /// (Id)
    IdAlreadyExists(String),
    NoParent,
    UnremoveableChild,
}

/// A failure of a rendering operation.
#[derive(Debug, Clone)]
pub enum RendererError {
    /// No item is registered under the name.
    UnfindableName(String),
    /// The name is registered already, or is the reserved root name.
    NameAlreadyExists(String),
    /// The name belongs to an instance where a container is needed.
    NamedNotContainer(String),
    /// The name belongs to a container where an instance is needed.
    NamedNotUse(String),
    /// No definition with this id has been materialized.
    UnfindableDefinition(u64),
    /// The document tree refused the operation.
    Dom(DomError),
}

/// The value of a [`DomError`], its texts as character sequences.
pub enum DomErrorView {
    NoWindow,
    NoDocument,
    UncreatableElement,
    UncreatableNSElement,
    UnappendableElement,
    UnsetableAttribute(Seq<char>, Seq<char>),
    EmptyContainer,
    UnfindableId(Seq<char>),
    UnfindableTag(Seq<char>),
    IdAlreadyExists(Seq<char>),
    NoParent,
    UnremoveableChild,
}

/// The value of a [`RendererError`], its texts as character sequences.
pub enum RendererErrorView {
    UnfindableName(Seq<char>),
    NameAlreadyExists(Seq<char>),
    NamedNotContainer(Seq<char>),
    NamedNotUse(Seq<char>),
    UnfindableDefinition(u64),
    Dom(DomErrorView),
}

impl View for DomError {
    type V = DomErrorView;

    open spec fn view(&self) -> DomErrorView {
        match self {
            DomError::NoWindow => DomErrorView::NoWindow,
            DomError::NoDocument => DomErrorView::NoDocument,
            DomError::UncreatableElement => DomErrorView::UncreatableElement,
            DomError::UncreatableNSElement => DomErrorView::UncreatableNSElement,
            DomError::UnappendableElement => DomErrorView::UnappendableElement,
            DomError::UnsetableAttribute(a, v) => DomErrorView::UnsetableAttribute(a@, v@),
            DomError::EmptyContainer => DomErrorView::EmptyContainer,
            DomError::UnfindableId(i) => DomErrorView::UnfindableId(i@),
            DomError::UnfindableTag(t) => DomErrorView::UnfindableTag(t@),
            DomError::IdAlreadyExists(i) => DomErrorView::IdAlreadyExists(i@),
            DomError::NoParent => DomErrorView::NoParent,
            DomError::UnremoveableChild => DomErrorView::UnremoveableChild,
        }
    }
}

impl View for RendererError {
    type V = RendererErrorView;

    open spec fn view(&self) -> RendererErrorView {
        match self {
            RendererError::UnfindableName(n) => RendererErrorView::UnfindableName(n@),
            RendererError::NameAlreadyExists(n) => RendererErrorView::NameAlreadyExists(n@),
            RendererError::NamedNotContainer(n) => RendererErrorView::NamedNotContainer(n@),
            RendererError::NamedNotUse(n) => RendererErrorView::NamedNotUse(n@),
            RendererError::UnfindableDefinition(id) => RendererErrorView::UnfindableDefinition(*id),
            RendererError::Dom(e) => RendererErrorView::Dom(e@),
        }
    }
}

/// What each kind of tree failure means, in words.
pub open spec fn dom_description(e: DomErrorView) -> Seq<char> {
    match e {
        DomErrorView::NoWindow => "Unable to find window"@,
        DomErrorView::NoDocument => "Unable to find document contained in window"@,
        DomErrorView::UncreatableElement => "Unable to create element in DOM"@,
        DomErrorView::UncreatableNSElement => "Unable to create element with namespace in DOM"@,
        DomErrorView::UnappendableElement => "Unable to append child to container"@,
        DomErrorView::EmptyContainer => "Container which is supposed to contain children does in fact not"@,
        DomErrorView::UnfindableId(_) => "Unable to find id in container"@,
        DomErrorView::UnfindableTag(_) => "Unable to find tag in container"@,
        DomErrorView::UnsetableAttribute(_, _) => "Unable to set attribute"@,
        DomErrorView::IdAlreadyExists(_) => "The given ID already exists within the dom"@,
        DomErrorView::NoParent => "Container has no parent element"@,
        DomErrorView::UnremoveableChild => "Unable to remove child"@,
    }
}

/// What each kind of rendering failure means, in words.
pub open spec fn renderer_description(e: RendererErrorView) -> Seq<char> {
    match e {
        RendererErrorView::UnfindableName(_) => "The name is unable to be found"@,
        RendererErrorView::NameAlreadyExists(_) => "The name is already being used"@,
        RendererErrorView::NamedNotContainer(_) => "The name is not being used for a container"@,
        RendererErrorView::NamedNotUse(_) => "The name is not being used for a use element"@,
        RendererErrorView::UnfindableDefinition(_) => "The definition is unable to be found"@,
        RendererErrorView::Dom(d) => dom_description(d),
    }
}

/// `Error '<description>' with argument '<argument>'`.
pub open spec fn one_argument_text(description: Seq<char>, argument: Seq<char>) -> Seq<char> {
    "Error '"@ + description + "' with argument '"@ + argument + "'"@
}

/// The message of a tree failure.
pub open spec fn dom_message(e: DomErrorView) -> Seq<char> {
    match e {
        DomErrorView::UnfindableId(a) => one_argument_text(dom_description(e), a),
        DomErrorView::UnfindableTag(a) => one_argument_text(dom_description(e), a),
        DomErrorView::IdAlreadyExists(a) => one_argument_text(dom_description(e), a),
        DomErrorView::UnsetableAttribute(a, v) => "Error '"@ + dom_description(e)
            + "' with arguments '"@ + a + "' and '"@ + v + "'"@,
        _ => "Error: "@ + dom_description(e),
    }
}

/// The message of a rendering failure.
pub open spec fn renderer_message(e: RendererErrorView) -> Seq<char> {
    match e {
        RendererErrorView::Dom(d) => dom_message(d),
        RendererErrorView::UnfindableName(a) => one_argument_text(renderer_description(e), a),
        RendererErrorView::NameAlreadyExists(a) => one_argument_text(renderer_description(e), a),
        RendererErrorView::NamedNotContainer(a) => one_argument_text(renderer_description(e), a),
        RendererErrorView::NamedNotUse(a) => one_argument_text(renderer_description(e), a),
        RendererErrorView::UnfindableDefinition(_) => "Error: "@ + renderer_description(e),
    }
}

fn one_argument(description: &str, argument: &str) -> (s: String)
    ensures
        s@ == one_argument_text(description@, argument@),
{
    let mut s = String::from_str("Error '");
    s.append(description);
    s.append("' with argument '");
    s.append(argument);
    s.append("'");
    s
}

impl DomError {
    /// What this kind of failure means, in words.
    pub fn description(&self) -> (s: &'static str)
        ensures
            s@ == dom_description(self@),
    {
        match self {
            DomError::NoWindow => "Unable to find window",
            DomError::NoDocument => "Unable to find document contained in window",
            DomError::UncreatableElement => "Unable to create element in DOM",
            DomError::UncreatableNSElement => "Unable to create element with namespace in DOM",
            DomError::UnappendableElement => "Unable to append child to container",
            DomError::EmptyContainer => "Container which is supposed to contain children does in fact not",
            DomError::UnfindableId(_) => "Unable to find id in container",
            DomError::UnfindableTag(_) => "Unable to find tag in container",
            DomError::UnsetableAttribute(_, _) => "Unable to set attribute",
            DomError::IdAlreadyExists(_) => "The given ID already exists within the dom",
            DomError::NoParent => "Container has no parent element",
            DomError::UnremoveableChild => "Unable to remove child",
        }
    }

    /// The failure as a message, with its arguments.
    pub fn to_string(&self) -> (s: String)
        ensures
            s@ == dom_message(self@),
    {
        let description = self.description();
        match self {
            DomError::UnfindableId(a) => one_argument(description, a.as_str()),
            DomError::UnfindableTag(a) => one_argument(description, a.as_str()),
            DomError::IdAlreadyExists(a) => one_argument(description, a.as_str()),
            DomError::UnsetableAttribute(a, v) => {
                let mut s = String::from_str("Error '");
                s.append(description);
                s.append("' with arguments '");
                s.append(a.as_str());
                s.append("' and '");
                s.append(v.as_str());
                s.append("'");
                s
            },
            _ => {
                let mut s = String::from_str("Error: ");
                s.append(description);
                s
            },
        }
    }
}

impl RendererError {
    /// What this kind of failure means, in words.
    pub fn description(&self) -> (s: &'static str)
        ensures
            s@ == renderer_description(self@),
    {
        match self {
            RendererError::UnfindableName(_) => "The name is unable to be found",
            RendererError::NameAlreadyExists(_) => "The name is already being used",
            RendererError::NamedNotContainer(_) => "The name is not being used for a container",
            RendererError::NamedNotUse(_) => "The name is not being used for a use element",
            RendererError::UnfindableDefinition(_) => "The definition is unable to be found",
            RendererError::Dom(d) => d.description(),
        }
    }

    /// The failure as a message, with its arguments.
    pub fn to_string(&self) -> (s: String)
        ensures
            s@ == renderer_message(self@),
    {
        let description = self.description();
        match self {
            RendererError::Dom(d) => d.to_string(),
            RendererError::UnfindableName(a) => one_argument(description, a.as_str()),
            RendererError::NameAlreadyExists(a) => one_argument(description, a.as_str()),
            RendererError::NamedNotContainer(a) => one_argument(description, a.as_str()),
            RendererError::NamedNotUse(a) => one_argument(description, a.as_str()),
            RendererError::UnfindableDefinition(_) => {
                let mut s = String::from_str("Error: ");
                s.append(description);
                s
            },
        }
    }
}

} // verus!

verus! {

/// The value of an operation's result, its error as an [`RendererErrorView`].
pub open spec fn outcome<T>(r: Result<T, RendererError>) -> Result<T, RendererErrorView> {
    match r {
        Ok(t) => Ok(t),
        Err(e) => Err(e@),
    }
}

} // verus!
