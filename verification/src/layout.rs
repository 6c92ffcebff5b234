//! What a document looks like: the declaration, and the tree as compact or
//! as indented markup.

use crate::element::{ElementModel, NodeModel};
use crate::encoding::{ascii, attributes, escaped};
use vstd::prelude::*;
use vstd::utf8::encode_utf8;

verus! {

/// The version that every declaration names.
pub const XML_VERSION: &'static str = "1.0";

/// The encoding that every declaration names.
pub const ENCODING: &'static str = "UTF-8";

/// The byte that fills the margin of an indented document: a tab.
pub const INDENT_CHAR: u8 = 9;

/// The byte that ends a line of an indented document.
pub const LINE_FEED: u8 = 10;

/// The number of fill bytes for each level of nesting.
pub const INDENT_SIZE: usize = 1;

impl NodeModel {
    /// The node as compact markup: that of a nested element, the escaped
    /// text of character data, nothing for a comment.
    pub open spec fn markup(self) -> Seq<u8>
        decreases self,
    {
        match self {
            NodeModel::Element(e) => e.markup(),
            NodeModel::Text(text) => escaped(encode_utf8(text)),
            NodeModel::Comment(_) => Seq::empty(),
        }
    }

    /// The node as indented markup at the nesting depth `depth`, where
    /// `due` says whether a line break is due before it: that of a nested
    /// element, the escaped text of character data as it is, nothing for a
    /// comment.
    pub open spec fn indented(self, depth: nat, due: bool) -> Seq<u8>
        decreases self,
    {
        match self {
            NodeModel::Element(e) => e.indented(depth, due),
            NodeModel::Text(text) => escaped(encode_utf8(text)),
            NodeModel::Comment(_) => Seq::empty(),
        }
    }
}

impl ElementModel {
    /// The start tag as bytes: `<name`, the attributes, `>`.
    pub open spec fn open_tag(self) -> Seq<u8> {
        ascii("<") + encode_utf8(self.tag_name()) + attributes(self.attrs) + ascii(">")
    }

    /// The end tag as bytes: `</name>`.
    pub open spec fn close_tag(self) -> Seq<u8> {
        ascii("</") + encode_utf8(self.tag_name()) + ascii(">")
    }

    /// The element as compact markup: the start tag, the markup of the
    /// children in their order, the end tag, with nothing in between.
    pub open spec fn markup(self) -> Seq<u8>
        decreases self,
    {
        self.open_tag() + markup_of(self.nodes) + self.close_tag()
    }

    /// The element as indented markup at the nesting depth `depth`, where
    /// `due` says whether a line break is due before its start tag. The
    /// children stand one level deeper. The end tag starts a new line unless
    /// it follows text directly.
    pub open spec fn indented(self, depth: nat, due: bool) -> Seq<u8>
        decreases self,
    {
        line_start(depth, due) + self.open_tag() + indented_of(self.nodes, depth + 1, true)
            + line_start(depth, break_due_after(self.nodes, true)) + self.close_tag()
    }
}

/// The compact markup of a run of sibling nodes, in their order.
pub open spec fn markup_of(nodes: Seq<NodeModel>) -> Seq<u8>
    decreases nodes,
{
    if nodes.len() == 0 {
        Seq::empty()
    } else {
        markup_of(nodes.drop_last()) + nodes.last().markup()
    }
}

/// What stands before a tag at the nesting depth `depth`: a line feed and one
/// tab for each level where a line break is due, else nothing.
pub open spec fn line_start(depth: nat, due: bool) -> Seq<u8> {
    if due {
        seq![LINE_FEED] + Seq::new(depth, |k: int| INDENT_CHAR)
    } else {
        Seq::empty()
    }
}

/// Whether a line break is due after a run of sibling nodes, where `due`
/// says whether one was due before it: after an element one is due, after
/// text none is, and a comment changes nothing.
pub open spec fn break_due_after(nodes: Seq<NodeModel>, due: bool) -> bool
    decreases nodes.len(),
{
    if nodes.len() == 0 {
        due
    } else {
        match nodes.last() {
            NodeModel::Element(_) => true,
            NodeModel::Text(_) => false,
            NodeModel::Comment(_) => break_due_after(nodes.drop_last(), due),
        }
    }
}

/// The indented markup of a run of sibling nodes at the nesting depth
/// `depth`, where `due` says whether a line break is due before the first.
pub open spec fn indented_of(nodes: Seq<NodeModel>, depth: nat, due: bool) -> Seq<u8>
    decreases nodes,
{
    if nodes.len() == 0 {
        Seq::empty()
    } else {
        indented_of(nodes.drop_last(), depth, due) + nodes.last().indented(
            depth,
            break_due_after(nodes.drop_last(), due),
        )
    }
}

/// The declaration as it stands at the head of every document.
pub open spec fn declaration_text() -> Seq<u8> {
    ascii("<?xml version=\"1.0\" encoding=\"UTF-8\"?>")
}

/// The bytes of the document of `root`: the declaration, then the tree as
/// compact markup or, where `indents` holds, as indented markup that begins
/// on a new line at depth 0.
pub open spec fn document(indents: bool, root: ElementModel) -> Seq<u8> {
    declaration_text() + if indents {
        root.indented(0, true)
    } else {
        root.markup()
    }
}

} // verus!
