//! The element tree that the writer reads, and its mathematical model.

use vstd::prelude::*;
use vstd::string::StringExecFns;

verus! {

/// A child of an element, as a mathematical value.
pub enum NodeModel {
    /// A nested element.
    Element(ElementModel),
    /// Character data.
    Text(Seq<char>),
    /// A comment; the writer never emits it.
    Comment(Seq<char>),
}

/// An element as a mathematical value: what [`Element`] denotes.
pub struct ElementModel {
    /// The local name.
    pub name: Seq<char>,
    /// The namespace prefix, if the element carries one.
    pub prefix: Option<Seq<char>>,
    /// The attributes as key and value, in the order in which they are written.
    pub attrs: Seq<(Seq<char>, Seq<char>)>,
    /// The children, in document order.
    pub nodes: Seq<NodeModel>,
}

impl NodeModel {
    /// The number of element levels in the node: none for text and comments.
    pub open spec fn height(self) -> nat
        decreases self,
    {
        match self {
            NodeModel::Element(e) => e.height(),
            _ => 0,
        }
    }

}

impl ElementModel {
    /// The name as it is displayed in the tags: `prefix:name` with a prefix,
    /// the bare name without one.
    pub open spec fn tag_name(self) -> Seq<char> {
        match self.prefix {
            Some(prefix) => prefix + seq![':'] + self.name,
            None => self.name,
        }
    }

    /// The number of element levels: one more than the tallest child.
    pub open spec fn height(self) -> nat
        decreases self,
    {
        1 + height_of(self.nodes)
    }

    /// The same tree with every comment taken out, at every depth.
    pub open spec fn without_comments(self) -> ElementModel
        decreases self,
    {
        ElementModel { nodes: without_comments(self.nodes), ..self }
    }

    /// Whether no comment stands anywhere in the tree.
    pub open spec fn comment_free(self) -> bool
        decreases self,
    {
        comment_free(self.nodes)
    }
}

/// A run of sibling nodes with every comment taken out, at every depth.
pub open spec fn without_comments(nodes: Seq<NodeModel>) -> Seq<NodeModel>
    decreases nodes,
{
    if nodes.len() == 0 {
        Seq::empty()
    } else {
        let before = without_comments(nodes.drop_last());
        match nodes.last() {
            NodeModel::Element(e) => before.push(NodeModel::Element(e.without_comments())),
            NodeModel::Text(text) => before.push(NodeModel::Text(text)),
            NodeModel::Comment(_) => before,
        }
    }
}

/// Whether no comment stands anywhere in a run of sibling nodes.
pub open spec fn comment_free(nodes: Seq<NodeModel>) -> bool
    decreases nodes,
{
    nodes.len() == 0 || (comment_free(nodes.drop_last()) && match nodes.last() {
        NodeModel::Element(e) => e.comment_free(),
        NodeModel::Text(_) => true,
        NodeModel::Comment(_) => false,
    })
}

/// The height of the tallest node of a run of siblings.
pub open spec fn height_of(nodes: Seq<NodeModel>) -> nat
    decreases nodes,
{
    if nodes.len() == 0 {
        0
    } else if height_of(nodes.drop_last()) >= nodes.last().height() {
        height_of(nodes.drop_last())
    } else {
        nodes.last().height()
    }
}

/// No node of a run of siblings is taller than the run.
pub proof fn lemma_height_of_bounds(nodes: Seq<NodeModel>, k: int)
    requires
        0 <= k < nodes.len(),
    ensures
        nodes[k].height() <= height_of(nodes),
    decreases nodes.len(),
{
    if k < nodes.len() - 1 {
        lemma_height_of_bounds(nodes.drop_last(), k);
    }
}

/// A run of sibling nodes extended by the next one is as tall as the taller
/// of the two.
pub proof fn lemma_height_of_next(nodes: Seq<NodeModel>, k: int)
    requires
        0 <= k < nodes.len(),
    ensures
        height_of(nodes.take(k + 1)) == if height_of(nodes.take(k)) >= nodes[k].height() {
            height_of(nodes.take(k))
        } else {
            nodes[k].height()
        },
{
    assert(nodes.take(k + 1).drop_last() =~= nodes.take(k));
}

/// A child node of an [`Element`].
#[derive(Debug)]
pub enum Node {
    /// A nested element.
    Element(Element),
    /// Character data, written escaped.
    Text(String),
    /// A comment. It is kept in the tree and left out of every document.
    Comment(String),
}

/// A named node with an optional namespace prefix, attributes and ordered
/// children.
#[derive(Debug)]
pub struct Element {
    /// The local name.
    pub name: String,
    /// The namespace prefix, if any.
    pub prefix: Option<String>,
    /// The attributes as key and value, in the order in which they are written.
    pub attrs: Vec<(String, String)>,
    /// The children, in document order.
    pub nodes: Vec<Node>,
}

impl View for Node {
    type V = NodeModel;

    open spec fn view(&self) -> NodeModel
        decreases self,
    {
        match self {
            Node::Element(e) => NodeModel::Element(e.view()),
            Node::Text(t) => NodeModel::Text(t@),
            Node::Comment(c) => NodeModel::Comment(c@),
        }
    }
}

impl View for Element {
    type V = ElementModel;

    open spec fn view(&self) -> ElementModel
        decreases self,
    {
        ElementModel {
            name: self.name@,
            prefix: match self.prefix {
                Some(p) => Some(p@),
                None => None,
            },
            attrs: self.attrs.deep_view(),
            nodes: Seq::new(
                self.nodes@.len(),
                |i: int|
                    if 0 <= i < self.nodes@.len() {
                        self.nodes@[i].view()
                    } else {
                        arbitrary()
                    },
            ),
        }
    }
}

impl Element {
    /// The model of an element holds the views of its fields, child by child.
    pub proof fn lemma_view(self)
        ensures
            self@.name == self.name@,
            self@.prefix == match self.prefix {
                Some(p) => Some(p@),
                None => None,
            },
            self@.attrs == self.attrs.deep_view(),
            self@.nodes.len() == self.nodes@.len(),
            forall|i: int| 0 <= i < self.nodes@.len() ==> #[trigger] self@.nodes[i] == self.nodes@[i]@,
    {
        reveal_with_fuel(<Element as View>::view, 2);
    }

    /// An element with the given name, without prefix, attributes or
    /// children.
    pub fn bare(name: &str) -> (element: Element)
        ensures
            element@ == (ElementModel {
                name: name@,
                prefix: None,
                attrs: Seq::empty(),
                nodes: Seq::empty(),
            }),
            element@.height() == 1,
    {
        let element = Element {
            name: name.to_owned(),
            prefix: None,
            attrs: Vec::new(),
            nodes: Vec::new(),
        };
        proof {
            element.lemma_view();
            assert(element@.attrs =~= Seq::empty());
            assert(element@.nodes =~= Seq::empty());
        }
        element
    }

    /// The same element with the namespace prefix `prefix`.
    pub fn with_prefix(self, prefix: &str) -> (element: Element)
        ensures
            element@ == (ElementModel { prefix: Some(prefix@), ..self@ }),
            element@.height() == self@.height(),
    {
        let element = Element {
            name: self.name,
            prefix: Some(prefix.to_owned()),
            attrs: self.attrs,
            nodes: self.nodes,
        };
        proof {
            element.lemma_view();
            self.lemma_view();
        }
        element
    }

    /// The same element with one more attribute, written after those it has.
    pub fn attr(self, key: &str, value: &str) -> (element: Element)
        ensures
            element@ == (ElementModel { attrs: self@.attrs.push((key@, value@)), ..self@ }),
            element@.height() == self@.height(),
    {
        let mut attrs = self.attrs;
        attrs.push((key.to_owned(), value.to_owned()));
        let element = Element { name: self.name, prefix: self.prefix, attrs, nodes: self.nodes };
        proof {
            element.lemma_view();
            self.lemma_view();
            assert(element@.attrs =~= self@.attrs.push((key@, value@)));
        }
        element
    }

    /// The same element with one more child, after those it has.
    pub fn append(self, node: Node) -> (element: Element)
        ensures
            element@ == (ElementModel { nodes: self@.nodes.push(node@), ..self@ }),
            element@.height() == if self@.height() > node@.height() {
                self@.height()
            } else {
                node@.height() + 1
            },
    {
        let mut nodes = self.nodes;
        nodes.push(node);
        let element = Element { name: self.name, prefix: self.prefix, attrs: self.attrs, nodes };
        proof {
            element.lemma_view();
            self.lemma_view();
            assert(element@.nodes =~= self@.nodes.push(node@));
            assert(element@.nodes.drop_last() =~= self@.nodes);
        }
        element
    }

    /// The number of element levels of the tree, or `None` where `usize`
    /// cannot hold it.
    pub fn height(&self) -> (levels: Option<usize>)
        ensures
            levels matches Some(h) ==> h == self@.height(),
            levels is None ==> self@.height() > usize::MAX,
        decreases self,
    {
        proof {
            self.lemma_view();
        }
        let mut tallest: usize = 0;
        let mut index: usize = 0;
        while index < self.nodes.len()
            invariant
                index <= self.nodes.len(),
                self@.nodes.len() == self.nodes.len(),
                tallest == height_of(self@.nodes.take(index as int)),
            decreases self.nodes.len() - index,
        {
            proof {
                self.lemma_view();
                lemma_height_of_next(self@.nodes, index as int);
                lemma_height_of_bounds(self@.nodes, index as int);
            }
            match &self.nodes[index] {
                Node::Element(child) => {
                    match child.height() {
                        Some(levels) => {
                            if levels > tallest {
                                tallest = levels;
                            }
                        },
                        None => {
                            return None;
                        },
                    }
                },
                _ => {},
            }
            index += 1;
        }
        assert(self@.nodes.take(index as int) =~= self@.nodes);
        if tallest == usize::MAX {
            None
        } else {
            Some(tallest + 1)
        }
    }

    /// The name as it is displayed in the tags of the element: `prefix:name`
    /// where it carries a prefix, the bare name where it carries none.
    pub fn tag_name(&self) -> (name: String)
        ensures
            name@ == self@.tag_name(),
    {
        proof {
            self.lemma_view();
        }
        match &self.prefix {
            Some(prefix) => {
                proof {
                    reveal_strlit(":");
                }
                let mut name = prefix.clone();
                name.append(":");
                name.append(self.name.as_str());
                name
            },
            None => self.name.clone(),
        }
    }
}

} // verus!
