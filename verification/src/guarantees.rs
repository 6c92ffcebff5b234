//! What holds of every document, proved from the definitions that the
//! contracts of the writer use.

use crate::element::{comment_free, without_comments, ElementModel, NodeModel};
use crate::encoding::{ascii, attributes};
use crate::layout::{break_due_after, document, indented_of, markup_of};
use vstd::prelude::*;
use vstd::utf8::encode_utf8;

verus! {

/// The attributes of a start tag are written in their order: those of two
/// runs, one after the other, are the bytes of the first run followed by
/// those of the second.
pub proof fn lemma_attributes_in_order(
    first: Seq<(Seq<char>, Seq<char>)>,
    second: Seq<(Seq<char>, Seq<char>)>,
)
    ensures
        attributes(first + second) == attributes(first) + attributes(second),
    decreases second.len(),
{
    if second.len() > 0 {
        assert((first + second).drop_last() =~= first + second.drop_last());
        lemma_attributes_in_order(first, second.drop_last());
    }
}

/// The children of an element are written in their order. In a compact
/// document the markup of two runs of siblings, one after the other, is the
/// markup of the first run followed by that of the second. In an indented
/// document it is too, and the first run decides whether the second begins
/// on a new line.
pub proof fn lemma_children_in_order(
    first: Seq<NodeModel>,
    second: Seq<NodeModel>,
    depth: nat,
    due: bool,
)
    ensures
        markup_of(first + second) == markup_of(first) + markup_of(second),
        indented_of(first + second, depth, due) == indented_of(first, depth, due) + indented_of(
            second,
            depth,
            break_due_after(first, due),
        ),
        break_due_after(first + second, due) == break_due_after(
            second,
            break_due_after(first, due),
        ),
    decreases second.len(),
{
    if second.len() > 0 {
        assert((first + second).drop_last() =~= first + second.drop_last());
        lemma_children_in_order(first, second.drop_last(), depth, due);
    }
}

/// Both tags of an element show the same name: `prefix:name` where the
/// element has a prefix, the bare name where it has none.
pub proof fn lemma_tags_show_prefix_and_name(element: ElementModel)
    ensures
        element.prefix matches Some(prefix) ==> {
            &&& element.open_tag() == ascii("<") + encode_utf8(prefix + seq![':'] + element.name)
                + attributes(element.attrs) + ascii(">")
            &&& element.close_tag() == ascii("</") + encode_utf8(
                prefix + seq![':'] + element.name,
            ) + ascii(">")
        },
        element.prefix is None ==> {
            &&& element.open_tag() == ascii("<") + encode_utf8(element.name) + attributes(
                element.attrs,
            ) + ascii(">")
            &&& element.close_tag() == ascii("</") + encode_utf8(element.name) + ascii(">")
        },
{
}

/// Taking the comments out of a run of siblings changes nothing of its
/// markup, compact or indented.
proof fn lemma_nodes_without_comments(nodes: Seq<NodeModel>, depth: nat, due: bool)
    ensures
        comment_free(without_comments(nodes)),
        markup_of(without_comments(nodes)) == markup_of(nodes),
        indented_of(without_comments(nodes), depth, due) == indented_of(nodes, depth, due),
        break_due_after(without_comments(nodes), due) == break_due_after(nodes, due),
    decreases nodes,
{
    if nodes.len() > 0 {
        let before = without_comments(nodes.drop_last());
        let middle = break_due_after(nodes.drop_last(), due);
        lemma_nodes_without_comments(nodes.drop_last(), depth, due);
        match nodes.last() {
            NodeModel::Element(e) => {
                lemma_element_without_comments(e, depth, middle);
                let kept = NodeModel::Element(e.without_comments());
                assert(before.push(kept).drop_last() =~= before);
                assert(kept.markup() == nodes.last().markup());
                assert(kept.indented(depth, middle) == nodes.last().indented(depth, middle));
            },
            NodeModel::Text(text) => {
                let kept = NodeModel::Text(text);
                assert(before.push(kept).drop_last() =~= before);
            },
            NodeModel::Comment(_) => {
                assert(markup_of(nodes.drop_last()) + nodes.last().markup() =~= markup_of(
                    nodes.drop_last(),
                ));
                assert(indented_of(nodes.drop_last(), depth, due) + nodes.last().indented(
                    depth,
                    middle,
                ) =~= indented_of(nodes.drop_last(), depth, due));
            },
        }
    }
}

/// Taking the comments out of a tree changes nothing of its markup, compact
/// or indented.
proof fn lemma_element_without_comments(element: ElementModel, depth: nat, due: bool)
    ensures
        element.without_comments().comment_free(),
        element.without_comments().markup() == element.markup(),
        element.without_comments().indented(depth, due) == element.indented(depth, due),
    decreases element,
{
    lemma_nodes_without_comments(element.nodes, depth + 1, true);
}

/// A comment leaves no trace: the document of a tree is the document of the
/// same tree with every comment taken out, in both modes.
pub proof fn lemma_comments_leave_no_trace(indents: bool, root: ElementModel)
    ensures
        root.without_comments().comment_free(),
        document(indents, root.without_comments()) == document(indents, root),
{
    lemma_element_without_comments(root, 0, true);
}

} // verus!
