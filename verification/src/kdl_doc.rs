//! A KDL document as plain values: the node tree that the `kdl` crate reads
//! from text, holding of each entry what the impact-map reader uses of it.

use crate::text::same_text;
use vstd::prelude::*;

verus! {

/// An entry of a node: an argument when `name` is `None`, else a property.
/// Of its value it holds what `KdlValue::as_string` and `KdlValue::as_i64`
/// give: the text of a string (plain or raw) and the number of an integer
/// (in any base); both are `None` for any other value.
#[derive(Debug)]
pub struct Entry {
    pub name: Option<String>,
    pub text: Option<String>,
    pub integer: Option<i64>,
}

/// A node: its name, its entries in document order, and its child block.
#[derive(Debug)]
pub struct Node {
    pub name: String,
    pub entries: Vec<Entry>,
    pub children: Option<Vec<Node>>,
}

/// The model of an [`Entry`].
pub struct EntryView {
    pub name: Option<Seq<char>>,
    pub text: Option<Seq<char>>,
    pub integer: Option<int>,
}

/// The model of a [`Node`].
pub struct NodeView {
    pub name: Seq<char>,
    pub entries: Seq<EntryView>,
    pub children: Option<Seq<NodeView>>,
}

impl View for Entry {
    type V = EntryView;

    open spec fn view(&self) -> EntryView {
        EntryView {
            name: match self.name {
                Some(n) => Some(n@),
                None => None,
            },
            text: match self.text {
                Some(t) => Some(t@),
                None => None,
            },
            integer: match self.integer {
                Some(i) => Some(i as int),
                None => None,
            },
        }
    }
}

/// The model of a node.
pub open spec fn node_model(n: Node) -> NodeView
    decreases n,
{
    NodeView {
        name: n.name@,
        entries: n.entries@.map_values(|e: Entry| e@),
        children: match n.children {
            Some(c) => Some(nodes_model(c@)),
            None => None,
        },
    }
}

/// The models of a sequence of nodes.
pub open spec fn nodes_model(ns: Seq<Node>) -> Seq<NodeView>
    decreases ns,
{
    if ns.len() == 0 {
        Seq::empty()
    } else {
        nodes_model(ns.drop_last()).push(node_model(ns.last()))
    }
}

impl View for Node {
    type V = NodeView;

    open spec fn view(&self) -> NodeView {
        node_model(*self)
    }
}

/// The models of a sequence of nodes are the models of its nodes, one by one.
pub proof fn lemma_nodes_model(ns: Seq<Node>)
    ensures
        nodes_model(ns).len() == ns.len(),
        forall|i: int| 0 <= i < ns.len() ==> #[trigger] nodes_model(ns)[i] == ns[i]@,
    decreases ns.len(),
{
    if ns.len() > 0 {
        lemma_nodes_model(ns.drop_last());
    }
}

#[verifier::external_type_specification]
#[verifier::external_body]
pub struct ExKdlNode(kdl::KdlNode);

/// The node tree that the `kdl` crate (KDL 4) reads from a text, or the
/// message of its parse error.
pub uninterp spec fn kdl_document(text: Seq<char>) -> Result<Seq<NodeView>, Seq<char>>;

/// Parses `text` as a KDL document.
///
/// Trusted: calls `<kdl::KdlDocument as FromStr>::from_str` and converts the
/// top-level nodes of the document with [`Node::from_kdl_nodes`], or the error
/// with its `Display` text. The contract claims only that the outcome is the one
/// the crate determines for this text: `kdl_document` names it.
#[verifier::external_body]
pub(crate) fn parse_document(text: &str) -> (r: Result<Vec<Node>, String>)
    ensures
        match r {
            Ok(nodes) => kdl_document(text@) == Ok::<Seq<NodeView>, Seq<char>>(nodes_model(nodes@)),
            Err(m) => kdl_document(text@) == Err::<Seq<NodeView>, Seq<char>>(m@),
        },
{
    match text.parse::<kdl::KdlDocument>() {
        Ok(doc) => Ok(Node::from_kdl_nodes(doc.nodes())),
        Err(e) => Err(e.to_string()),
    }
}

impl Node {
    /// Converts nodes of the `kdl` crate, with their child blocks, one for one:
    /// the name is `KdlNode::name().value()`, the entries are `KdlNode::entries()`
    /// in order (name by `KdlEntry::name`, value read by `as_string` and
    /// `as_i64`), and the child block is `KdlNode::children()`.
    ///
    /// Trusted: it only reads the `kdl` values; its result is the one that
    /// [`parse_document`] states through `kdl_document`.
    #[verifier::external_body]
    fn from_kdl_nodes(nodes: &[kdl::KdlNode]) -> Vec<Node> {
        nodes.iter().map(|n| Node {
            name: n.name().value().to_string(),
            entries: n.entries().iter().map(|e| Entry {
                name: e.name().map(|i| i.value().to_string()),
                text: e.value().as_string().map(|t| t.to_string()),
                integer: e.value().as_i64(),
            }).collect(),
            children: n.children().map(|c| Node::from_kdl_nodes(c.nodes())),
        }).collect()
    }
}

/// The first argument among the entries (`KdlNode::get(0)`).
pub open spec fn first_argument(entries: Seq<EntryView>) -> Option<EntryView>
    decreases entries.len(),
{
    if entries.len() == 0 {
        None
    } else if entries[0].name is None {
        Some(entries[0])
    } else {
        first_argument(entries.drop_first())
    }
}

/// The last property named `key` among the entries (`KdlNode::get(key)`).
pub open spec fn property(entries: Seq<EntryView>, key: Seq<char>) -> Option<EntryView>
    decreases entries.len(),
{
    if entries.len() == 0 {
        None
    } else if entries.last().name == Some(key) {
        Some(entries.last())
    } else {
        property(entries.drop_last(), key)
    }
}

/// The model of an optional borrowed entry.
pub open spec fn entry_model(e: Option<&Entry>) -> Option<EntryView> {
    match e {
        Some(x) => Some(x@),
        None => None,
    }
}

impl Node {
    /// The first argument of the node, as `KdlNode::get(0)` finds it.
    pub fn first_argument(&self) -> (r: Option<&Entry>)
        ensures
            entry_model(r) == first_argument(self@.entries),
    {
        let ghost es = self@.entries;
        let mut i: usize = 0;
        assert(es.skip(0) =~= es);
        while i < self.entries.len()
            invariant
                es == self.entries@.map_values(|e: Entry| e@),
                i <= es.len(),
                first_argument(es) == first_argument(es.skip(i as int)),
            decreases es.len() - i,
        {
            assert(es.skip(i as int).drop_first() =~= es.skip(i + 1));
            if self.entries[i].name.is_none() {
                return Some(&self.entries[i]);
            }
            i = i + 1;
        }
        None
    }

    /// The last property of the node named `key`, as `KdlNode::get(key)` finds it.
    pub fn property(&self, key: &str) -> (r: Option<&Entry>)
        ensures
            entry_model(r) == property(self@.entries, key@),
    {
        let ghost es = self@.entries;
        let mut found: Option<&Entry> = None;
        let mut i: usize = 0;
        while i < self.entries.len()
            invariant
                es == self.entries@.map_values(|e: Entry| e@),
                i <= es.len(),
                entry_model(found) == property(es.take(i as int), key@),
            decreases es.len() - i,
        {
            let matches = match &self.entries[i].name {
                Some(n) => same_text(n.as_str(), key),
                None => false,
            };
            if matches {
                found = Some(&self.entries[i]);
            }
            assert(es.take(i + 1).drop_last() =~= es.take(i as int));
            i = i + 1;
        }
        assert(es.take(i as int) =~= es);
        found
    }
}

} // verus!
