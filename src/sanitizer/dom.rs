//! The parsed-HTML model that the selector stage works on, and the trusted
//! items through which it reads `scraper`'s parser and selector engine.
//!
//! A fragment is modelled as its root id and a map from node id to the
//! node's content and child ids. What the parser builds, which selectors it
//! accepts and which elements a selector picks are named by spec functions
//! without a body: each depends on its text arguments alone.

use vstd::prelude::*;

use ego_tree::NodeId;
use scraper::node::Node;
use scraper::{Html, Selector};

verus! {

#[verifier::external_type_specification]
#[verifier::external_body]
pub struct ExNodeId(ego_tree::NodeId);

#[verifier::external_type_specification]
#[verifier::external_body]
pub struct ExHtml(scraper::Html);

#[verifier::external_type_specification]
#[verifier::external_body]
pub struct ExSelector(scraper::Selector);

/// What a node holds, apart from its children.
pub enum ContentView {
    /// The document or fragment root.
    Container,
    Element { name: Seq<char>, attrs: Seq<(Seq<char>, Seq<char>)> },
    Text(Seq<char>),
    Comment(Seq<char>),
    /// A doctype or a processing instruction.
    Other,
}

pub struct NodeView {
    pub content: ContentView,
    pub children: Seq<NodeId>,
}

pub struct FragmentView {
    pub root: NodeId,
    pub nodes: Map<NodeId, NodeView>,
}

/// The tree that `scraper::Html::parse_fragment` builds from `html`.
pub uninterp spec fn fragment_of(html: Seq<char>) -> FragmentView;

/// Whether `scraper::Selector::parse` accepts `selector`.
pub uninterp spec fn selector_parses(selector: Seq<char>) -> bool;

/// The ids of the elements, in document order, that `scraper::Html::select`
/// yields for `selector` on the fragment parsed from `html`.
pub uninterp spec fn selection_of(selector: Seq<char>, html: Seq<char>) -> Seq<NodeId>;

/// Executable form of a node's content.
pub enum NodeContent {
    Container,
    Element { name: String, attrs: Vec<(String, String)> },
    Text(String),
    Comment(String),
    Other,
}

pub open spec fn attrs_view(attrs: Seq<(String, String)>) -> Seq<(Seq<char>, Seq<char>)> {
    attrs.map_values(|a: (String, String)| (a.0@, a.1@))
}

impl View for NodeContent {
    type V = ContentView;

    open spec fn view(&self) -> ContentView {
        match self {
            NodeContent::Container => ContentView::Container,
            NodeContent::Element { name, attrs } => ContentView::Element {
                name: name@,
                attrs: attrs_view(attrs@),
            },
            NodeContent::Text(t) => ContentView::Text(t@),
            NodeContent::Comment(c) => ContentView::Comment(c@),
            NodeContent::Other => ContentView::Other,
        }
    }
}

/// A fragment parsed by `scraper`, kept with the text it was parsed from.
pub(crate) struct ParsedFragment {
    text: String,
    html: Html,
}

impl ParsedFragment {
    pub closed spec fn text(&self) -> Seq<char> {
        self.text@
    }

    pub open spec fn tree(&self) -> FragmentView {
        fragment_of(self.text())
    }
}

/// A selector compiled by `scraper`, kept with its source text.
pub(crate) struct CompiledSelector {
    text: String,
    selector: Selector,
}

impl CompiledSelector {
    pub closed spec fn text(&self) -> Seq<char> {
        self.text@
    }
}

/// Relies on `scraper::Html::parse_fragment`, which parses `html` in the
/// context of a `body` element.
#[verifier::external_body]
pub(crate) fn parse_fragment(html: &str) -> (r: ParsedFragment)
    ensures
        r.text() == html@,
{
    ParsedFragment { text: html.to_string(), html: Html::parse_fragment(html) }
}

/// Relies on `scraper::Selector::parse`, which fails on text that is not a
/// selector list.
#[verifier::external_body]
pub(crate) fn parse_selector(selector: &str) -> (r: Option<CompiledSelector>)
    ensures
        r is Some <==> selector_parses(selector@),
        r matches Some(c) ==> c.text() == selector@,
{
    Selector::parse(selector).ok().map(|s| CompiledSelector { text: selector.to_string(), selector: s })
}

/// Relies on `ego_tree::Tree::root`: the id of the fragment's root node.
#[verifier::external_body]
pub(crate) fn root_id(doc: &ParsedFragment) -> (r: NodeId)
    ensures
        r == fragment_of(doc.text()).root,
        fragment_of(doc.text()).nodes.contains_key(r),
{
    doc.html.tree.root().id()
}

/// Relies on `ego_tree::NodeRef::value`: what the node with id `id` holds.
#[verifier::external_body]
pub(crate) fn node_content(doc: &ParsedFragment, id: NodeId) -> (r: NodeContent)
    requires
        fragment_of(doc.text()).nodes.contains_key(id),
    ensures
        r@ == fragment_of(doc.text()).nodes[id].content,
{
    match doc.html.tree.get(id).unwrap().value() {
        Node::Document => NodeContent::Container,
        Node::Fragment => NodeContent::Container,
        Node::Element(e) => NodeContent::Element {
            name: e.name().to_string(),
            attrs: e.attrs().map(|(k, v)| (k.to_string(), v.to_string())).collect(),
        },
        Node::Text(t) => NodeContent::Text((**t).to_string()),
        Node::Comment(c) => NodeContent::Comment((**c).to_string()),
        _ => NodeContent::Other,
    }
}

/// Relies on `ego_tree::NodeRef::children`: the ids of the node's children,
/// in order. Every child is a node of the same tree.
#[verifier::external_body]
pub(crate) fn child_ids(doc: &ParsedFragment, id: NodeId) -> (r: Vec<NodeId>)
    requires
        fragment_of(doc.text()).nodes.contains_key(id),
    ensures
        r@ == fragment_of(doc.text()).nodes[id].children,
        forall|k: int| 0 <= k < r@.len() ==> fragment_of(doc.text()).nodes.contains_key(#[trigger] r@[k]),
{
    doc.html.tree.get(id).unwrap().children().map(|c| c.id()).collect()
}

/// Relies on `scraper::Html::select`: the ids of the elements that the
/// selector matches.
#[verifier::external_body]
pub(crate) fn select_ids(doc: &ParsedFragment, selector: &CompiledSelector) -> (r: Vec<NodeId>)
    ensures
        r@ == selection_of(selector.text(), doc.text()),
{
    doc.html.select(&selector.selector).map(|e| e.id()).collect()
}

/// Relies on the `PartialEq` that `ego_tree::NodeId` derives: ids are equal
/// when they index the same node.
#[verifier::external_body]
pub(crate) fn same_node(a: NodeId, b: NodeId) -> (r: bool)
    ensures
        r == (a == b),
{
    a == b
}

} // verus!
