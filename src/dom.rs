//! The parsed document, as kuchiki holds it. A node is opaque here: each
//! operation the extractor needs is a call into kuchiki, and nothing is assumed
//! of what it returns.

use vstd::prelude::*;
use kuchiki::traits::TendrilSink;

verus! {

#[verifier::external_type_specification]
#[verifier::external_body]
pub struct ExNodeRef(kuchiki::NodeRef);

/// Relies on kuchiki::parse_html: the document tree of `html`.
#[verifier::external_body]
pub(crate) fn parse_document(html: &str) -> kuchiki::NodeRef {
    kuchiki::parse_html().one(html)
}

/// Relies on kuchiki's NodeRef::select: the elements under `node` that match
/// `selector`, in document order; `None` when the selector does not parse.
#[verifier::external_body]
pub(crate) fn select_all(node: &kuchiki::NodeRef, selector: &str) -> Option<Vec<kuchiki::NodeRef>> {
    match node.select(selector) {
        Ok(found) => Some(found.map(|e| e.as_node().clone()).collect()),
        Err(_) => None,
    }
}

/// Relies on kuchiki's NodeRef::select_first: the first element under `node`
/// that matches `selector`; `None` when there is none or the selector does not
/// parse.
#[verifier::external_body]
pub(crate) fn select_first(node: &kuchiki::NodeRef, selector: &str) -> Option<kuchiki::NodeRef> {
    node.select_first(selector).ok().map(|e| e.as_node().clone())
}

/// Relies on kuchiki's Attributes::get: the value of attribute `name` of an
/// element; `None` for a missing attribute or a node that is no element.
#[verifier::external_body]
pub(crate) fn attribute(node: &kuchiki::NodeRef, name: &str) -> Option<String> {
    node.as_element().and_then(|e| e.attributes.borrow().get(name).map(|v| v.to_string()))
}

/// Relies on kuchiki's ElementData::name: the local tag name of an element.
#[verifier::external_body]
pub(crate) fn local_name(node: &kuchiki::NodeRef) -> Option<String> {
    node.as_element().map(|e| e.name.local.to_string())
}

/// Relies on kuchiki's NodeRef::first_child.
#[verifier::external_body]
pub(crate) fn first_child(node: &kuchiki::NodeRef) -> Option<kuchiki::NodeRef> {
    node.first_child()
}

/// Relies on kuchiki's NodeRef::as_text: the text of a text node.
#[verifier::external_body]
pub(crate) fn text_of(node: &kuchiki::NodeRef) -> Option<String> {
    node.as_text().map(|t| t.borrow().clone())
}

/// Relies on kuchiki's NodeRef::detach: removes the node from its parent.
#[verifier::external_body]
pub(crate) fn detach(node: &kuchiki::NodeRef) {
    node.detach()
}

/// Relies on kuchiki's NodeRef::append: adds a text node as the last child.
#[verifier::external_body]
pub(crate) fn append_text(node: &kuchiki::NodeRef, text: &str) {
    node.append(kuchiki::NodeRef::new_text(text))
}

/// Relies on kuchiki's NodeRef::prepend: adds a text node as the first child.
#[verifier::external_body]
pub(crate) fn prepend_text(node: &kuchiki::NodeRef, text: &str) {
    node.prepend(kuchiki::NodeRef::new_text(text))
}

/// Relies on kuchiki's NodeRef::text_contents: the text of all descendant
/// text nodes, concatenated in document order.
#[verifier::external_body]
pub(crate) fn text_contents(node: &kuchiki::NodeRef) -> String {
    node.text_contents()
}

} // verus!
