//! The parsed page: select's node arena read into plain values, and the
//! questions that the extraction asks of a node.
use vstd::prelude::*;
use crate::text::{same_text, words, words_of};

verus! {

/// One node of a parsed page.
#[derive(Debug)]
pub struct DocNode {
    /// The element's name, for an element node.
    pub name: Option<String>,
    /// The element's `id` attribute.
    pub id: Option<String>,
    /// The element's `class` attribute.
    pub class: Option<String>,
    /// The text of the node and of all its descendants, in document order.
    pub text: String,
    /// The index of the next sibling.
    pub next: Option<usize>,
    /// The indices of the children, in order.
    pub children: Vec<usize>,
}

/// The content of a node.
pub struct DocNodeView {
    pub name: Option<Seq<char>>,
    pub id: Option<Seq<char>>,
    pub class: Option<Seq<char>>,
    pub text: Seq<char>,
    pub next: Option<usize>,
    pub children: Seq<usize>,
}

impl View for DocNode {
    type V = DocNodeView;

    open spec fn view(&self) -> DocNodeView {
        DocNodeView {
            name: self.name.deep_view(),
            id: self.id.deep_view(),
            class: self.class.deep_view(),
            text: self.text@,
            next: self.next,
            children: self.children@,
        }
    }
}

/// The contents of a sequence of nodes.
pub open spec fn nodes_view(v: Seq<DocNode>) -> Seq<DocNodeView> {
    v.map_values(|n: DocNode| n@)
}

/// The nodes, in the parser's order, that select makes of the markup `html`.
pub uninterp spec fn markup_nodes(html: Seq<char>) -> Seq<DocNodeView>;

/// Relies on select's `Document::from`, which parses the markup, and on the
/// accessors of its `Node` (`name`, `attr`, `text`, `next`, `children`,
/// `index`), read here for each node in the document's order.
#[verifier::external_body]
pub(crate) fn parse_markup(html: &str) -> (r: Vec<DocNode>)
    ensures
        nodes_view(r@) == markup_nodes(html@),
{
    let doc = select::document::Document::from(html);
    doc.find(select::predicate::Any).map(|n| DocNode {
        name: n.name().map(String::from),
        id: n.attr("id").map(String::from),
        class: n.attr("class").map(String::from),
        text: n.text(),
        next: n.next().map(|m| m.index()),
        children: n.children().map(|c| c.index()).collect(),
    }).collect()
}

/// Whether the node's classes include `c`.
pub open spec fn has_class(n: DocNodeView, c: Seq<char>) -> bool {
    match n.class {
        Some(cl) => words(cl).contains(c),
        None => false,
    }
}

/// The index of the node that follows node `i` as its next sibling.
pub open spec fn next_of(nv: Seq<DocNodeView>, i: int) -> Option<int> {
    if 0 <= i < nv.len() {
        match nv[i].next {
            Some(j) => if j < nv.len() {
                Some(j as int)
            } else {
                None
            },
            None => None,
        }
    } else {
        None
    }
}

/// The text of the node after node `i`, where that node is a doc block.
pub open spec fn next_docblock(nv: Seq<DocNodeView>, i: int) -> Option<Seq<char>> {
    match next_of(nv, i) {
        Some(j) => if has_class(nv[j], "docblock"@) {
            Some(nv[j].text)
        } else {
            None
        },
        None => None,
    }
}

/// Whether the node's classes include `c`.
pub fn node_has_class(n: &DocNode, c: &str) -> (r: bool)
    ensures
        r == has_class(n@, c@),
{
    match &n.class {
        None => false,
        Some(cl) => {
            let ws = words_of(cl.as_str());
            let mut i: usize = 0;
            while i < ws.len()
                invariant
                    i <= ws.len(),
                    n@.class == Some(cl@),
                    ws.deep_view() == words(cl@),
                    forall|j: int| 0 <= j < i ==> ws.deep_view()[j] != c@,
                decreases ws.len() - i,
            {
                assert(ws.deep_view()[i as int] == ws[i as int]@);
                if same_text(ws[i].as_str(), c) {
                    assert(words(cl@)[i as int] == c@);

                    return true;
                }
                i += 1;
            }
            false
        },
    }
}

/// The index of the next sibling of node `i`, if it is a node of `nodes`.
pub fn next_index(nodes: &Vec<DocNode>, i: usize) -> (r: Option<usize>)
    requires
        i < nodes.len(),
    ensures
        r is Some <==> next_of(nodes_view(nodes@), i as int) is Some,
        r is Some ==> r->0 < nodes.len() && next_of(nodes_view(nodes@), i as int) == Some(
            r->0 as int,
        ),
{
    match nodes[i].next {
        Some(j) => if j < nodes.len() {
            Some(j)
        } else {
            None
        },
        None => None,
    }
}

/// The text of the node after node `i`, where that node is a doc block.
pub fn next_docblock_text(nodes: &Vec<DocNode>, i: usize) -> (r: Option<String>)
    requires
        i < nodes.len(),
    ensures
        r.deep_view() == next_docblock(nodes_view(nodes@), i as int),
{
    match next_index(nodes, i) {
        Some(j) => {
            if node_has_class(&nodes[j], "docblock") {
                Some(nodes[j].text.clone())
            } else {
                None
            }
        },
        None => None,
    }
}

/// Whether the node's `id` is `id`.
pub fn id_is(n: &DocNode, id: &str) -> (r: bool)
    ensures
        r == (n@.id == Some(id@)),
{
    match &n.id {
        Some(s) => same_text(s.as_str(), id),
        None => false,
    }
}

} // verus!
