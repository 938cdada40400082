//! The XML documents that are linted, as `roxmltree` parses them.
//!
//! Everything in this module is trusted: the contracts below describe what
//! `roxmltree` does and are not proved.

use vstd::prelude::*;

verus! {

/// A parsed document of `roxmltree`. Verus sees nothing inside it.
#[verifier::external_type_specification]
#[verifier::external_body]
pub struct ExDocument<'input>(roxmltree::Document<'input>);

/// A node of a parsed document. Verus sees nothing inside it.
#[verifier::external_type_specification]
#[verifier::external_body]
pub struct ExNode<'a, 'input: 'a>(roxmltree::Node<'a, 'input>);

/// What the linter reads of one node.
pub ghost struct NodeView {
    /// Whether the node is an element (and not text, a comment, ...).
    pub element: bool,
    /// The local part of the tag name.
    pub tag: Seq<char>,
    /// The expanded names of its attributes: namespace URI, local name.
    pub attributes: Set<(Option<Seq<char>>, Seq<char>)>,
    /// The line on which the node starts, counted from 1.
    pub line: u32,
    /// The column at which the node starts, counted from 1.
    pub column: u32,
}

/// What the linter reads of one document.
pub ghost struct DocumentView {
    /// The nodes, in document order.
    pub nodes: Seq<NodeView>,
    /// The namespace prefixes that the root element binds, each with its URI.
    pub root_namespaces: Map<Seq<char>, Seq<char>>,
}

/// What one node holds.
pub uninterp spec fn node_view(node: roxmltree::Node) -> NodeView;

/// What one document holds.
pub uninterp spec fn document_view(doc: roxmltree::Document) -> DocumentView;

/// The document that `roxmltree` reads from a text; none where it rejects
/// the text.
pub uninterp spec fn parsed_text(text: Seq<char>) -> Option<DocumentView>;

/// The URI that bindings give a prefix, if they bind it.
pub open spec fn bound(bindings: Map<Seq<char>, Seq<char>>, prefix: Seq<char>) -> Option<Seq<char>> {
    if bindings.contains_key(prefix) {
        Some(bindings[prefix])
    } else {
        None
    }
}

/// `roxmltree::Document::parse`: the document that a text describes, or the
/// description that `roxmltree` gives of what is wrong with the text. The
/// same text always gives the same outcome.
#[verifier::external_body]
pub(crate) fn parse_document<'input>(text: &'input str) -> (parsed: Result<roxmltree::Document<'input>, String>)
    ensures
        match parsed {
            Ok(doc) => parsed_text(text@) == Some(document_view(doc)),
            Err(_) => parsed_text(text@) is None,
        },
{
    roxmltree::Document::parse(text).map_err(|error| error.to_string())
}

/// `Document::descendants`: all nodes of the document, in document order.
#[verifier::external_body]
pub(crate) fn descendants<'a>(doc: &'a roxmltree::Document) -> (nodes: Vec<roxmltree::Node<'a, 'a>>)
    ensures
        nodes@.len() == document_view(*doc).nodes.len(),
        forall|i: int| 0 <= i < nodes@.len() ==> node_view(#[trigger] nodes@[i]) == document_view(*doc).nodes[i],
{
    doc.descendants().collect()
}

/// `Node::is_element`.
#[verifier::external_body]
pub(crate) fn is_element(node: &roxmltree::Node) -> (element: bool)
    ensures
        element == node_view(*node).element,
{
    node.is_element()
}

/// `Node::tag_name` and `ExpandedName::name`: the local part of the tag name.
#[verifier::external_body]
pub(crate) fn tag_name(node: &roxmltree::Node) -> (tag: String)
    ensures
        tag@ == node_view(*node).tag,
{
    node.tag_name().name().to_string()
}

/// `Node::has_attribute`, asked with a namespace URI and a local name:
/// whether an attribute of the node has exactly this namespace and this
/// local name.
#[verifier::external_body]
pub(crate) fn has_attribute_in(node: &roxmltree::Node, uri: &str, name: &str) -> (found: bool)
    ensures
        found == node_view(*node).attributes.contains((Some(uri@), name@)),
{
    node.has_attribute((uri, name))
}

/// `Node::has_attribute`, asked with a local name alone: whether an
/// attribute of the node has no namespace and this local name.
#[verifier::external_body]
pub(crate) fn has_plain_attribute(node: &roxmltree::Node, name: &str) -> (found: bool)
    ensures
        found == node_view(*node).attributes.contains((None, name@)),
{
    node.has_attribute(name)
}

/// `Node::range` and `Document::text_pos_at`: line and column at which the
/// node starts in the text. Both are counted from 1.
#[verifier::external_body]
pub(crate) fn position(node: &roxmltree::Node) -> (pos: (u32, u32))
    ensures
        pos.0 == node_view(*node).line,
        pos.1 == node_view(*node).column,
        pos.0 >= 1,
        pos.1 >= 1,
{
    let at = node.document().text_pos_at(node.range().start);
    (at.row, at.col)
}

/// `Document::root_element` and `Node::lookup_namespace_uri`: the URI that
/// the root element binds to a prefix, if it binds one.
#[verifier::external_body]
pub(crate) fn lookup_root_namespace<'a>(doc: &'a roxmltree::Document, prefix: &'a str) -> (uri: Option<String>)
    ensures
        crate::xml::namespace_view(uri) == crate::xml::bound(document_view(*doc).root_namespaces, prefix@),
{
    doc.root_element().lookup_namespace_uri(Some(prefix)).map(|uri| uri.to_string())
}

/// An optional string as a mathematical value.
pub open spec fn namespace_view(namespace: Option<String>) -> Option<Seq<char>> {
    match namespace {
        Some(uri) => Some(uri@),
        None => None,
    }
}

} // verus!
