//! The writer: one declaration and one tree for each call of `write`.

use crate::element::{lemma_height_of_bounds, Element, ElementModel, Node, NodeModel};
use crate::encoder::{indentation, written, Encoder};
use crate::encoding::{accepts, encoded, indent_after, Event, Indentation};
use crate::error::{outcome, Error};
use crate::layout::{
    break_due_after, declaration_text, document, indented_of, line_start, markup_of, ENCODING,
    INDENT_CHAR, INDENT_SIZE, XML_VERSION,
};
use vstd::prelude::*;
use vstd::utf8::is_ascii_chars_encode_utf8;

verus! {

/// A writer as a mathematical value.
pub struct WriterModel {
    /// The bytes that the sink holds.
    pub bytes: Seq<u8>,
    /// Whether documents are indented.
    pub indents: bool,
}

/// Writes element trees as XML documents into a byte sink.
pub struct ElementWriter {
    sink: Vec<u8>,
    indents: bool,
}

impl View for ElementWriter {
    type V = WriterModel;

    closed spec fn view(&self) -> WriterModel {
        WriterModel { bytes: self.sink@, indents: self.indents }
    }
}

/// The declaration event that `write` hands to the encoder.
spec fn declaration() -> Event {
    Event::Declaration { version: XML_VERSION@, encoding: ENCODING@ }
}

/// The start tag of `element` as an event.
spec fn start(element: ElementModel) -> Event {
    Event::Start { name: element.tag_name(), attrs: element.attrs }
}

/// The end tag of `element` as an event.
spec fn end(element: ElementModel) -> Event {
    Event::End { name: element.tag_name() }
}

/// The indentation of an encoder that fills its margin with one tab for each
/// level, at the nesting depth `depth`.
spec fn tabs(depth: nat, due: bool) -> Option<Indentation> {
    Some(
        Indentation { line_break: due, fill: INDENT_CHAR, step: INDENT_SIZE as nat, width: depth },
    )
}

/// Whether an encoder with the indentation `indent` has room for a tree of
/// the given height: it indents by one tab for each level, and margin and
/// height together fit in `usize`.
spec fn has_room(indent: Option<Indentation>, height: nat) -> bool {
    indent matches Some(i) ==> indent == tabs(i.width, i.line_break) && i.width + height
        <= usize::MAX
}

/// The markup of `element` as an encoder with the indentation `indent` lays
/// it out.
spec fn laid_out(indent: Option<Indentation>, element: ElementModel) -> Seq<u8> {
    match indent {
        Some(i) => element.indented(i.width, i.line_break),
        None => element.markup(),
    }
}

/// The part of [`laid_out`] up to and without the child `count`: the start
/// tag and the children before that one.
spec fn laid_out_before(indent: Option<Indentation>, element: ElementModel, count: int) -> Seq<u8> {
    match indent {
        Some(i) => line_start(i.width, i.line_break) + element.open_tag() + indented_of(
            element.nodes.take(count),
            i.width + 1,
            true,
        ),
        None => element.open_tag() + markup_of(element.nodes.take(count)),
    }
}

/// The indentation of the encoder before it writes the child `count`, where
/// it had the indentation `indent` before the start tag.
spec fn indent_before(indent: Option<Indentation>, element: ElementModel, count: int) -> Option<
    Indentation,
> {
    match indent {
        Some(i) => tabs(i.width + 1, break_due_after(element.nodes.take(count), true)),
        None => None,
    }
}

/// The indentation of the encoder after an element that it began to write
/// with the indentation `indent`: the same margin, and a line break due.
spec fn indent_behind(indent: Option<Indentation>) -> Option<Indentation> {
    match indent {
        Some(i) => Some(Indentation { line_break: true, ..i }),
        None => None,
    }
}

/// Where no line break is due, the declaration event is written as
/// [`declaration_text`].
proof fn lemma_declaration(indent: Option<Indentation>)
    requires
        indent matches Some(i) ==> !i.line_break,
    ensures
        encoded(indent, declaration()) == declaration_text(),
{
    reveal_strlit("<?xml version=\"1.0\" encoding=\"UTF-8\"?>");
    reveal_strlit("<?");
    reveal_strlit("xml version=\"");
    reveal_strlit("1.0");
    reveal_strlit("\" encoding=\"");
    reveal_strlit("UTF-8");
    reveal_strlit("\"");
    reveal_strlit("?>");
    is_ascii_chars_encode_utf8(XML_VERSION@);
    is_ascii_chars_encode_utf8(ENCODING@);
}

/// The start tag opens the layout of an element, and an encoder with room
/// for the element accepts it.
proof fn lemma_open(indent: Option<Indentation>, element: ElementModel)
    requires
        has_room(indent, element.height()),
    ensures
        accepts(indent, start(element)),
        encoded(indent, start(element)) == laid_out_before(indent, element, 0),
        indent_after(indent, start(element)) == indent_before(indent, element, 0),
{
}

/// The child `k` extends the layout of the children before it, and an
/// encoder with room for the element has room for the child.
proof fn lemma_child(indent: Option<Indentation>, element: ElementModel, k: int)
    requires
        0 <= k < element.nodes.len(),
        has_room(indent, element.height()),
    ensures
        has_room(indent_before(indent, element, k), element.nodes[k].height()),
        match element.nodes[k] {
            NodeModel::Element(child) => {
                &&& laid_out_before(indent, element, k + 1) == laid_out_before(indent, element, k)
                    + laid_out(indent_before(indent, element, k), child)
                &&& indent_before(indent, element, k + 1) == indent_behind(
                    indent_before(indent, element, k),
                )
            },
            NodeModel::Text(text) => {
                &&& laid_out_before(indent, element, k + 1) == laid_out_before(indent, element, k)
                    + encoded(indent_before(indent, element, k), Event::Text { text })
                &&& indent_before(indent, element, k + 1) == indent_after(
                    indent_before(indent, element, k),
                    Event::Text { text },
                )
            },
            NodeModel::Comment(_) => {
                &&& laid_out_before(indent, element, k + 1) == laid_out_before(indent, element, k)
                &&& indent_before(indent, element, k + 1) == indent_before(indent, element, k)
            },
        },
{
    let nodes = element.nodes;
    assert(nodes.take(k + 1).drop_last() =~= nodes.take(k));
    lemma_height_of_bounds(nodes, k);
    match indent {
        Some(i) => {
            let due = break_due_after(nodes.take(k), true);
            assert(laid_out_before(indent, element, k + 1) =~= laid_out_before(indent, element, k)
                + nodes[k].indented(i.width + 1, due));
        },
        None => {
            assert(laid_out_before(indent, element, k + 1) =~= laid_out_before(indent, element, k)
                + nodes[k].markup());
        },
    }
}

/// The end tag closes the layout of an element, and an encoder that had room
/// for the element has a step to give back.
proof fn lemma_close(indent: Option<Indentation>, element: ElementModel)
    requires
        has_room(indent, element.height()),
    ensures
        accepts(indent_before(indent, element, element.nodes.len() as int), end(element)),
        laid_out(indent, element) == laid_out_before(
            indent,
            element,
            element.nodes.len() as int,
        ) + encoded(indent_before(indent, element, element.nodes.len() as int), end(element)),
        indent_after(indent_before(indent, element, element.nodes.len() as int), end(element))
            == indent_behind(indent),
{
    assert(element.nodes.take(element.nodes.len() as int) =~= element.nodes);
}

impl ElementWriter {
    /// A writer over `sink` that writes compact documents, with no white
    /// space between tags and text.
    pub fn plain(sink: Vec<u8>) -> (writer: ElementWriter)
        ensures
            writer@ == (WriterModel { bytes: sink@, indents: false }),
    {
        ElementWriter { sink, indents: false }
    }

    /// A writer over `sink` that writes indented documents: tags start on a
    /// new line, behind one tab for each level of nesting.
    pub fn pretty(sink: Vec<u8>) -> (writer: ElementWriter)
        ensures
            writer@ == (WriterModel { bytes: sink@, indents: true }),
    {
        ElementWriter { sink, indents: true }
    }

    /// Gives the sink back with all that was written into it.
    pub fn into_inner(self) -> (sink: Vec<u8>)
        ensures
            sink@ == self@.bytes,
    {
        self.sink
    }

    /// Appends the document of `element` to the sink: one declaration, then
    /// the tree. What the sink held stays in front, and a second call puts
    /// its document directly behind that of the first.
    ///
    /// The encoder of an indented document counts its margin in a `usize`,
    /// so the tree must not be taller than that; [`Element::height`] tells.
    ///
    /// The call succeeds: the encoder fails only where its sink does, and
    /// the sink is a vector. What is written depends on nothing but the mode
    /// and the tree.
    pub fn write(&mut self, element: &Element) -> (result: Result<(), Error>)
        requires
            old(self)@.indents ==> element@.height() <= usize::MAX,
        ensures
            result is Ok,
            final(self)@.indents == old(self)@.indents,
            final(self)@.bytes == old(self)@.bytes + document(old(self)@.indents, element@),
    {
        let mut sink: Vec<u8> = Vec::new();
        core::mem::swap(&mut self.sink, &mut sink);
        let mut encoder = if self.indents {
            Encoder::indenting(sink, INDENT_CHAR, INDENT_SIZE)
        } else {
            Encoder::compact(sink)
        };
        proof {
            lemma_declaration(indentation(encoder));
        }
        let result = match outcome(encoder.declaration(XML_VERSION, ENCODING)) {
            Ok(()) => Self::write_element(&mut encoder, element),
            Err(error) => Err(error),
        };
        self.sink = encoder.into_sink();
        result
    }

    /// Writes the start tag of `element`, its children in their order and
    /// its end tag. Comments are passed over.
    fn write_element(encoder: &mut Encoder, element: &Element) -> (result: Result<(), Error>)
        requires
            has_room(indentation(*old(encoder)), element@.height()),
        ensures
            result is Ok,
            written(*final(encoder)) == written(*old(encoder)) + laid_out(
                indentation(*old(encoder)),
                element@,
            ),
            indentation(*final(encoder)) == indent_behind(indentation(*old(encoder))),
        decreases element,
    {
        let ghost indent = indentation(*encoder);
        let ghost before = written(*encoder);
        proof {
            element.lemma_view();
            lemma_open(indent, element@);
        }
        let name = element.tag_name();
        match outcome(encoder.start_tag(name.as_str(), &element.attrs)) {
            Ok(()) => {},
            Err(error) => {
                return Err(error);
            },
        }
        let mut index: usize = 0;
        while index < element.nodes.len()
            invariant
                index <= element.nodes.len(),
                element@.nodes.len() == element.nodes.len(),
                has_room(indent, element@.height()),
                before == written(*old(encoder)),
                written(*encoder) == before + laid_out_before(indent, element@, index as int),
                indentation(*encoder) == indent_before(indent, element@, index as int),
            decreases element.nodes.len() - index,
        {
            proof {
                element.lemma_view();
                lemma_child(indent, element@, index as int);
            }
            match &element.nodes[index] {
                Node::Element(child) => {
                    match Self::write_element(encoder, child) {
                        Ok(()) => {},
                        Err(error) => {
                            return Err(error);
                        },
                    }
                },
                Node::Text(text) => {
                    match outcome(encoder.text(text.as_str())) {
                        Ok(()) => {},
                        Err(error) => {
                            return Err(error);
                        },
                    }
                },
                Node::Comment(_) => {},
            }
            index += 1;
        }
        proof {
            lemma_close(indent, element@);
        }
        outcome(encoder.end_tag(name.as_str()))
    }
}

} // verus!
