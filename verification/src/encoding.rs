//! The events that the encoder takes, and what it does with each.
//!
//! Everything here is specification: [`encoded`] gives the bytes that one
//! event adds to the sink, [`indent_after`] the indentation that it leaves,
//! and [`accepts`] says in which state the encoder can take it.

use vstd::prelude::*;
use vstd::utf8::encode_utf8;

verus! {

/// One instruction to the encoder.
pub enum Event {
    /// The XML declaration with its version and encoding.
    Declaration { version: Seq<char>, encoding: Seq<char> },
    /// A start tag with the name as it is displayed and its attributes.
    Start { name: Seq<char>, attrs: Seq<(Seq<char>, Seq<char>)> },
    /// Character data, not yet escaped.
    Text { text: Seq<char> },
    /// An end tag with the name as it is displayed.
    End { name: Seq<char> },
}

/// The indentation state of an encoder that indents.
pub struct Indentation {
    /// Whether the next tag or declaration starts on a new line.
    pub line_break: bool,
    /// The byte that fills the margin.
    pub fill: u8,
    /// By how many bytes the margin grows with each open element.
    pub step: nat,
    /// The current width of the margin in bytes.
    pub width: nat,
}

/// The bytes of a text of ASCII characters.
pub open spec fn ascii(text: &str) -> Seq<u8> {
    text@.map_values(|c: char| c as u8)
}

/// What stands for one byte of text or of an attribute value: the five
/// characters `<`, `>`, `'`, `&` and `"` become entity references, every other
/// byte stays.
pub open spec fn escaped_byte(byte: u8) -> Seq<u8> {
    if byte == '<' as u8 {
        ascii("&lt;")
    } else if byte == '>' as u8 {
        ascii("&gt;")
    } else if byte == '\'' as u8 {
        ascii("&apos;")
    } else if byte == '&' as u8 {
        ascii("&amp;")
    } else if byte == '"' as u8 {
        ascii("&quot;")
    } else {
        seq![byte]
    }
}

/// The escaped form of a byte string.
pub open spec fn escaped(raw: Seq<u8>) -> Seq<u8> {
    raw.map_values(|byte: u8| escaped_byte(byte)).flatten()
}

/// One attribute inside a start tag: a space, the key, and the escaped value
/// in double quotes.
pub open spec fn attribute(key: Seq<char>, value: Seq<char>) -> Seq<u8> {
    ascii(" ") + encode_utf8(key) + ascii("=\"") + escaped(encode_utf8(value)) + ascii("\"")
}

/// All attributes of a start tag, in their order.
pub open spec fn attributes(attrs: Seq<(Seq<char>, Seq<char>)>) -> Seq<u8>
    decreases attrs.len(),
{
    if attrs.len() == 0 {
        Seq::empty()
    } else {
        attributes(attrs.drop_last()) + attribute(attrs.last().0, attrs.last().1)
    }
}

/// What precedes a tag or a declaration: nothing without indentation or when
/// no line break is due, else a line feed and the margin.
pub open spec fn margin(indent: Option<Indentation>) -> Seq<u8> {
    match indent {
        Some(i) if i.line_break => seq![0x0au8] + Seq::new(i.width, |k: int| i.fill),
        _ => Seq::empty(),
    }
}

/// The indentation with a margin one step narrower.
pub open spec fn narrowed(indent: Option<Indentation>) -> Option<Indentation> {
    match indent {
        Some(i) => Some(Indentation { width: (i.width - i.step) as nat, ..i }),
        None => None,
    }
}

/// The bytes that the encoder writes for `event` when its indentation is
/// `indent`. A declaration and a start tag stand behind the margin as it is,
/// an end tag behind the margin one step narrower, and text stands alone.
pub open spec fn encoded(indent: Option<Indentation>, event: Event) -> Seq<u8> {
    match event {
        Event::Declaration { version, encoding } => {
            margin(indent) + ascii("<?") + ascii("xml version=\"") + encode_utf8(version) + ascii(
                "\" encoding=\"",
            ) + encode_utf8(encoding) + ascii("\"") + ascii("?>")
        },
        Event::Start { name, attrs } => {
            margin(indent) + ascii("<") + encode_utf8(name) + attributes(attrs) + ascii(">")
        },
        Event::Text { text } => escaped(encode_utf8(text)),
        Event::End { name } => {
            margin(narrowed(indent)) + ascii("</") + encode_utf8(name) + ascii(">")
        },
    }
}

/// The indentation of the encoder after `event`: a start tag widens the
/// margin by one step, an end tag narrows it by one, and only text leaves no
/// line break due.
pub open spec fn indent_after(indent: Option<Indentation>, event: Event) -> Option<Indentation> {
    match indent {
        None => None,
        Some(i) => Some(
            match event {
                Event::Declaration { .. } => Indentation { line_break: true, ..i },
                Event::Start { .. } => Indentation {
                    line_break: true,
                    width: i.width + i.step,
                    ..i
                },
                Event::Text { .. } => Indentation { line_break: false, ..i },
                Event::End { .. } => Indentation {
                    line_break: true,
                    width: (i.width - i.step) as nat,
                    ..i
                },
            },
        ),
    }
}

/// Whether the encoder can take `event` in the state `indent`: the margin of
/// an indenting encoder must stay within `usize`, and an end tag must have a
/// step to give back.
pub open spec fn accepts(indent: Option<Indentation>, event: Event) -> bool {
    match (indent, event) {
        (Some(i), Event::Start { .. }) => i.width + i.step <= usize::MAX,
        (Some(i), Event::End { .. }) => i.step <= i.width,
        _ => true,
    }
}

} // verus!
