//! The parsed document. Parsing and querying are the work of the `scraper`
//! crate; this module gives each query a name for what it returns and a
//! function that makes the call. A node is known by its position in the
//! document's table of nodes, in the order in which the parser made them.
//!
//! Nothing here is proved: every contract in this module is believed.

use crate::models::opt_view;
use crate::text::views;
use scraper::{ElementRef, Html, Selector};
use vstd::prelude::*;

verus! {

#[verifier::external_type_specification]
#[verifier::external_body]
pub struct ExHtml(scraper::Html);

/// The markup that a document was parsed from. A document does not hold
/// its markup: `parse_document` is the one function that makes a document,
/// and no contract compares two documents.
pub uninterp spec fn markup_of(doc: Html) -> Seq<char>;

/// In the document parsed from `markup`: the elements that match `selector`,
/// in the order of the table of nodes; none where `selector` is no selector.
pub uninterp spec fn matches_of(markup: Seq<char>, selector: Seq<char>) -> Seq<usize>;

/// In the document parsed from `markup`: the elements below `scope` that
/// match `selector`, in document order; none where `scope` is no element or
/// `selector` no selector.
pub uninterp spec fn matches_under(markup: Seq<char>, scope: usize, selector: Seq<char>) -> Seq<
    usize,
>;

/// In the document parsed from `markup`: the text nodes below the element
/// `node`, in document order; none where `node` is no element.
pub uninterp spec fn texts_of(markup: Seq<char>, node: usize) -> Seq<Seq<char>>;

/// In the document parsed from `markup`: what lies inside the element
/// `node`, written as markup again; nothing where `node` is no element.
pub uninterp spec fn inner_html_of(markup: Seq<char>, node: usize) -> Seq<char>;

/// In the document parsed from `markup`: the value of the attribute `name`
/// of the element `node`.
pub uninterp spec fn attr_of(markup: Seq<char>, node: usize, name: Seq<char>) -> Option<Seq<char>>;

/// In the document parsed from `markup`: the children of `node`, first to last.
pub uninterp spec fn children_of(markup: Seq<char>, node: usize) -> Seq<usize>;

/// In the document parsed from `markup`: the text of `node` where it is a text node.
pub uninterp spec fn text_of(markup: Seq<char>, node: usize) -> Option<Seq<char>>;

/// In the document parsed from `markup`: the tag name of `node` where it is an element.
pub uninterp spec fn name_of(markup: Seq<char>, node: usize) -> Option<Seq<char>>;

/// In the document parsed from `markup`: the parent of `node`.
pub uninterp spec fn parent_of(markup: Seq<char>, node: usize) -> Option<usize>;

/// In the document parsed from `markup`: the siblings that follow `node`, nearest first.
pub uninterp spec fn following_of(markup: Seq<char>, node: usize) -> Seq<usize>;

/// The number of nodes in the document parsed from `markup`.
pub uninterp spec fn count_of(markup: Seq<char>) -> usize;

/// Calls `scraper::Html::parse_document`. Believed: the document is the one
/// that the queries below speak of under the name of `markup`.
#[verifier::external_body]
pub(crate) fn parse_document(markup: &str) -> (doc: Html)
    ensures
        markup_of(doc) == markup@,
{
    Html::parse_document(markup)
}

/// Calls `scraper::Selector::parse` and `scraper::Html::select`. Believed:
/// the positions returned are those that `matches_of` names.
#[verifier::external_body]
pub(crate) fn select_all(doc: &Html, selector: &str) -> (found: Vec<usize>)
    ensures
        found@ == matches_of(markup_of(*doc), selector@),
{
    match Selector::parse(selector) {
        Ok(sel) => doc.select(&sel).map(
            |e| doc.tree.nodes().position(|n| n.id() == e.id()).unwrap_or_default(),
        ).collect(),
        Err(_) => Vec::new(),
    }
}

/// Calls `scraper::Selector::parse` and `scraper::ElementRef::select`.
/// Believed: the positions returned are those that `matches_under` names.
#[verifier::external_body]
pub(crate) fn select_under(doc: &Html, scope: usize, selector: &str) -> (found: Vec<usize>)
    ensures
        found@ == matches_under(markup_of(*doc), scope, selector@),
{
    match (doc.tree.nodes().nth(scope).and_then(ElementRef::wrap), Selector::parse(selector)) {
        (Some(el), Ok(sel)) => el.select(&sel).map(
            |e| doc.tree.nodes().position(|n| n.id() == e.id()).unwrap_or_default(),
        ).collect(),
        _ => Vec::new(),
    }
}

/// Calls `scraper::ElementRef::text`. Believed: the fragments returned are
/// those that `texts_of` names.
#[verifier::external_body]
pub(crate) fn text_fragments(doc: &Html, node: usize) -> (found: Vec<String>)
    ensures
        views(found@) == texts_of(markup_of(*doc), node),
{
    match doc.tree.nodes().nth(node).and_then(ElementRef::wrap) {
        Some(el) => el.text().map(|t| t.to_string()).collect(),
        None => Vec::new(),
    }
}

/// Calls `scraper::ElementRef::inner_html`. Believed: the markup returned is
/// what `inner_html_of` names.
#[verifier::external_body]
pub(crate) fn inner_html(doc: &Html, node: usize) -> (inner: String)
    ensures
        inner@ == inner_html_of(markup_of(*doc), node),
{
    match doc.tree.nodes().nth(node).and_then(ElementRef::wrap) {
        Some(el) => el.inner_html(),
        None => String::new(),
    }
}

/// Calls `scraper::ElementRef::attr`. Believed: the value returned is what
/// `attr_of` names.
#[verifier::external_body]
pub(crate) fn attr(doc: &Html, node: usize, name: &str) -> (value: Option<String>)
    ensures
        opt_view(value) == attr_of(markup_of(*doc), node, name@),
{
    doc.tree.nodes().nth(node).and_then(ElementRef::wrap).and_then(|el| el.attr(name)).map(
        |v| v.to_string(),
    )
}

/// Calls `ego_tree::NodeRef::children` on a node of the document. Believed:
/// the positions returned are those that `children_of` names.
#[verifier::external_body]
pub(crate) fn child_nodes(doc: &Html, node: usize) -> (found: Vec<usize>)
    ensures
        found@ == children_of(markup_of(*doc), node),
{
    match doc.tree.nodes().nth(node) {
        Some(parent) => parent.children().map(
            |c| doc.tree.nodes().position(|n| n.id() == c.id()).unwrap_or_default(),
        ).collect(),
        None => Vec::new(),
    }
}

/// Calls `scraper::Node::as_text`. Believed: the text returned is what
/// `text_of` names.
#[verifier::external_body]
pub(crate) fn node_text(doc: &Html, node: usize) -> (value: Option<String>)
    ensures
        opt_view(value) == text_of(markup_of(*doc), node),
{
    doc.tree.nodes().nth(node).and_then(|n| n.value().as_text().map(|t| t.to_string()))
}

/// Calls `scraper::Node::as_element` and `scraper::node::Element::name`.
/// Believed: the name returned is what `name_of` names.
#[verifier::external_body]
pub(crate) fn element_name(doc: &Html, node: usize) -> (value: Option<String>)
    ensures
        opt_view(value) == name_of(markup_of(*doc), node),
{
    doc.tree.nodes().nth(node).and_then(|n| n.value().as_element().map(|e| e.name().to_string()))
}

/// Calls `ego_tree::NodeRef::parent` on a node of the document. Believed:
/// the position returned is what `parent_of` names.
#[verifier::external_body]
pub(crate) fn parent(doc: &Html, node: usize) -> (found: Option<usize>)
    ensures
        found == parent_of(markup_of(*doc), node),
{
    doc.tree.nodes().nth(node).and_then(|n| n.parent()).and_then(
        |p| doc.tree.nodes().position(|n| n.id() == p.id()),
    )
}

/// Calls `ego_tree::NodeRef::next_siblings` on a node of the document.
/// Believed: the positions returned are those that `following_of` names.
#[verifier::external_body]
pub(crate) fn next_siblings(doc: &Html, node: usize) -> (found: Vec<usize>)
    ensures
        found@ == following_of(markup_of(*doc), node),
{
    match doc.tree.nodes().nth(node) {
        Some(first) => first.next_siblings().map(
            |c| doc.tree.nodes().position(|n| n.id() == c.id()).unwrap_or_default(),
        ).collect(),
        None => Vec::new(),
    }
}

/// Calls `ego_tree::Tree::nodes` and takes the length. Believed: the number
/// returned is what `count_of` names.
#[verifier::external_body]
pub(crate) fn node_count(doc: &Html) -> (count: usize)
    ensures
        count == count_of(markup_of(*doc)),
{
    doc.tree.nodes().len()
}

} // verus!
