//! A read-only XML document as the SVD reader consumes it: a flat table of
//! nodes in document order, each naming its children by their positions, so
//! that no nesting depth is too deep to read. The table is produced by
//! `roxmltree`; everything that reads it is verified.

use vstd::prelude::*;
use crate::text::{push_str, string_of};

verus! {

/// One node of a parsed XML document: an element (tag name, attributes in
/// document order, direct text, children) or some other node kind.
pub struct XmlNode {
    pub is_element: bool,
    /// local tag name ("" for a node that is not an element)
    pub name: String,
    /// (local name, value) in document order
    pub attributes: Vec<(String, String)>,
    /// an element's text is that of its first child when that child is
    /// text; a text or comment node's text is its own
    pub text: Option<String>,
    /// the positions of its children in the document's table, in order
    pub children: Vec<usize>,
}

/// A parsed document: its nodes in document order and the position of its
/// root element.
pub struct XmlDocument {
    pub nodes: Vec<XmlNode>,
    pub root: usize,
}

/// Every position in `ids` lies within `nodes`.
pub open spec fn ids_in(nodes: Seq<XmlNode>, ids: Seq<usize>) -> bool {
    forall|j: int| 0 <= j < ids.len() ==> #[trigger] ids[j] < nodes.len()
}

/// Every child position of `n` lies within `nodes`.
pub open spec fn kids_in(nodes: Seq<XmlNode>, n: XmlNode) -> bool {
    ids_in(nodes, n.children@)
}

/// Every child position in the table lies within it.
pub open spec fn table_ok(nodes: Seq<XmlNode>) -> bool {
    forall|i: int| 0 <= i < nodes.len() ==> kids_in(nodes, #[trigger] nodes[i])
}

/// The nodes at positions `ids`, in order.
pub open spec fn nodes_at(nodes: Seq<XmlNode>, ids: Seq<usize>) -> Seq<XmlNode> {
    Seq::new(ids.len(), |j: int| nodes[ids[j] as int])
}

/// The children of `n`, in order.
pub open spec fn kids(nodes: Seq<XmlNode>, n: XmlNode) -> Seq<XmlNode> {
    nodes_at(nodes, n.children@)
}

impl XmlDocument {
    /// The root and every child position lie within the table.
    pub open spec fn wf(&self) -> bool {
        &&& self.root < self.nodes@.len()
        &&& table_ok(self.nodes@)
    }
}

/// What `roxmltree::Document::parse` makes of `xml`: its nodes in document
/// order (the document node first), each converted into an [`XmlNode`] whose
/// children are given by position, with the position of the root element; or
/// the parser's error message.
pub uninterp spec fn xml_parse(xml: Seq<char>) -> Result<(Seq<XmlNode>, usize), Seq<char>>;

/// What reading `xml` gives: its node table and root element, or the error,
/// prefixed, that the parser reports.
pub open spec fn xml_document(xml: Seq<char>) -> Result<(Seq<XmlNode>, usize), Seq<char>> {
    match xml_parse(xml) {
        Ok(d) => Ok(d),
        Err(e) => Err("XML parse error: "@ + e),
    }
}

/// `roxmltree::Node`, carried through the conversion only.
#[verifier::external_type_specification]
#[verifier::external_body]
pub struct ExNode<'a, 'input: 'a>(roxmltree::Node<'a, 'input>);

/// Converts one `roxmltree` node, one field for one; its children are given
/// by their `NodeId`s, not converted.
#[verifier::external_body]
fn node_of(n: roxmltree::Node) -> XmlNode {
    XmlNode {
        is_element: n.is_element(),
        name: n.tag_name().name().to_string(),
        attributes: n.attributes().map(|a| (a.name().to_string(), a.value().to_string())).collect(),
        text: n.text().map(|t| t.to_string()),
        children: n.children().map(|c| c.id().get_usize()).collect(),
    }
}

/// `roxmltree::Document::parse`, then every node of the document in document
/// order (`Document::descendants`, which walks the node table by `NodeId`, so
/// a node's position is its id) and the id of the root element; or the parse
/// error's message. The contract claims that this is `xml_parse`, and that
/// the root and every child id lie within the table (they are ids of the same
/// document).
#[verifier::external_body]
fn parse_document(xml: &str) -> (r: Result<(Vec<XmlNode>, usize), String>)
    ensures
        match r {
            Ok(d) => xml_parse(xml@) == Ok::<(Seq<XmlNode>, usize), Seq<char>>((d.0@, d.1))
                && d.1 < d.0@.len() && table_ok(d.0@),
            Err(e) => xml_parse(xml@) == Err::<(Seq<XmlNode>, usize), Seq<char>>(e@),
        },
{
    match roxmltree::Document::parse(xml) {
        Ok(doc) => Ok((doc.descendants().map(node_of).collect(), doc.root_element().id().get_usize())),
        Err(e) => Err(e.to_string()),
    }
}

/// Reads `xml` into its node table; a parse error becomes
/// `"XML parse error: <message>"`.
pub fn parse_xml(xml: &str) -> (r: Result<XmlDocument, String>)
    ensures
        match r {
            Ok(d) => d.wf() && xml_document(xml@) == Ok::<(Seq<XmlNode>, usize), Seq<char>>(
                (d.nodes@, d.root),
            ),
            Err(e) => xml_document(xml@) == Err::<(Seq<XmlNode>, usize), Seq<char>>(e@),
        },
{
    match parse_document(xml) {
        Err(e) => {
            let mut msg: Vec<char> = Vec::new();
            push_str(&mut msg, "XML parse error: ");
            push_str(&mut msg, e.as_str());
            Err(string_of(&msg))
        },
        Ok((nodes, root)) => Ok(XmlDocument { nodes, root }),
    }
}

} // verus!
