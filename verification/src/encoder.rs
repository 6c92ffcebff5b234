//! The `quick-xml` event encoder over a byte vector.
//!
//! Nothing in this file is proved. Each function makes one kind of call into
//! `quick-xml`, and its contract says over [`written`] and [`indentation`]
//! what that call does.
//!
//! The encoder reports an error only where the `write` of its sink does. The
//! sink here is a `Vec<u8>`, whose `write` appends and reports none, so every
//! event is written whole and answered with `Ok`.

use crate::encoding::{accepts, encoded, indent_after, Event, Indentation};
use quick_xml::events::{BytesDecl, BytesEnd, BytesStart, BytesText};
use quick_xml::Error as EncoderError;
use quick_xml::Writer;
use vstd::prelude::*;

verus! {

/// `quick_xml::Error`, the one error type that the encoder reports. Nothing is
/// claimed of its contents.
#[verifier::external_type_specification]
#[verifier::external_body]
pub struct ExEncoderError(EncoderError);

/// A `quick_xml::Writer` whose sink is a byte vector. Verus does not take a
/// declaration of `Writer<W>` with its bound `W: Write`, so the writer stands
/// in a field that Verus does not read, and all that is known of it is what
/// the functions below say over [`written`] and [`indentation`].
#[verifier::external_body]
pub struct Encoder {
    writer: Writer<Vec<u8>>,
}

/// The bytes that the sink of `encoder` holds.
pub uninterp spec fn written(encoder: Encoder) -> Seq<u8>;

/// The indentation state of `encoder`: `None` where it was made without
/// indentation, else the fill byte and step that it was made with, the width
/// of the margin, and whether a line break is due.
pub uninterp spec fn indentation(encoder: Encoder) -> Option<Indentation>;

impl Encoder {
    /// `Writer::new`: an encoder over `sink` that never indents. It keeps what
    /// the sink holds.
    #[verifier::external_body]
    pub(crate) fn compact(sink: Vec<u8>) -> (encoder: Encoder)
        ensures
            written(encoder) == sink@,
            indentation(encoder) is None,
    {
        Encoder { writer: Writer::new(sink) }
    }

    /// `Writer::new_with_indent`: an encoder over `sink` that indents with
    /// `step` bytes `fill` for each open element. It keeps what the sink
    /// holds, starts with an empty margin and owes no line break.
    #[verifier::external_body]
    pub(crate) fn indenting(sink: Vec<u8>, fill: u8, step: usize) -> (encoder: Encoder)
        ensures
            written(encoder) == sink@,
            indentation(encoder) == Some(
                Indentation { line_break: false, fill, step: step as nat, width: 0 },
            ),
    {
        Encoder { writer: Writer::new_with_indent(sink, fill, step) }
    }

    /// `Writer::into_inner`: gives the sink back with all that was written.
    #[verifier::external_body]
    pub(crate) fn into_sink(self) -> (sink: Vec<u8>)
        ensures
            sink@ == written(self),
    {
        self.writer.into_inner()
    }

    /// `Writer::write_event` on `Event::Decl` of `BytesDecl::new` with a
    /// version, an encoding and no standalone flag. It returns `Ok`, the sink
    /// has grown by the margin and the declaration, and a line break is due.
    #[verifier::external_body]
    pub(crate) fn declaration(&mut self, version: &str, encoding: &str) -> (result: Result<
        usize,
        EncoderError,
    >)
        ensures
            result is Ok,
            indentation(*final(self)) == indent_after(
                indentation(*old(self)),
                Event::Declaration { version: version@, encoding: encoding@ },
            ),
            written(*final(self)) == written(*old(self)) + encoded(
                indentation(*old(self)),
                Event::Declaration { version: version@, encoding: encoding@ },
            ),
    {
        let decl = BytesDecl::new(version.as_bytes(), Some(encoding.as_bytes()), None);
        self.writer.write_event(quick_xml::events::Event::Decl(decl))
    }

    /// `Writer::write_event` on `Event::Start` of `BytesStart::borrowed` with
    /// the attributes added by `extend_attributes`, which escapes each value.
    /// An indenting encoder adds a step to its margin, so the sum must fit in
    /// `usize`. It returns `Ok`, the sink has grown by the margin before the
    /// call and the tag, the margin is one step wider and a line break is due.
    #[verifier::external_body]
    pub(crate) fn start_tag(&mut self, name: &str, attrs: &Vec<(String, String)>) -> (result:
        Result<usize, EncoderError>)
        requires
            accepts(
                indentation(*old(self)),
                Event::Start { name: name@, attrs: attrs.deep_view() },
            ),
        ensures
            result is Ok,
            indentation(*final(self)) == indent_after(
                indentation(*old(self)),
                Event::Start { name: name@, attrs: attrs.deep_view() },
            ),
            written(*final(self)) == written(*old(self)) + encoded(
                indentation(*old(self)),
                Event::Start { name: name@, attrs: attrs.deep_view() },
            ),
    {
        let mut start = BytesStart::borrowed(name.as_bytes(), name.len());
        start.extend_attributes(attrs.iter().map(|attr| (attr.0.as_str(), attr.1.as_str())));
        self.writer.write_event(quick_xml::events::Event::Start(start))
    }

    /// `Writer::write_event` on `Event::Text` of `BytesText::from_plain_str`,
    /// which escapes the text. It returns `Ok`, the sink has grown by the
    /// escaped text, and no line break is due.
    #[verifier::external_body]
    pub(crate) fn text(&mut self, text: &str) -> (result: Result<usize, EncoderError>)
        ensures
            result is Ok,
            indentation(*final(self)) == indent_after(
                indentation(*old(self)),
                Event::Text { text: text@ },
            ),
            written(*final(self)) == written(*old(self)) + encoded(
                indentation(*old(self)),
                Event::Text { text: text@ },
            ),
    {
        self.writer.write_event(quick_xml::events::Event::Text(BytesText::from_plain_str(text)))
    }

    /// `Writer::write_event` on `Event::End` of `BytesEnd::borrowed`. An
    /// indenting encoder first takes a step from its margin, so the margin
    /// must hold one. It returns `Ok`, the sink has grown by the narrowed
    /// margin and the tag, and a line break is due.
    #[verifier::external_body]
    pub(crate) fn end_tag(&mut self, name: &str) -> (result: Result<usize, EncoderError>)
        requires
            accepts(indentation(*old(self)), Event::End { name: name@ }),
        ensures
            result is Ok,
            indentation(*final(self)) == indent_after(
                indentation(*old(self)),
                Event::End { name: name@ },
            ),
            written(*final(self)) == written(*old(self)) + encoded(
                indentation(*old(self)),
                Event::End { name: name@ },
            ),
    {
        self.writer.write_event(quick_xml::events::Event::End(BytesEnd::borrowed(name.as_bytes())))
    }
}

} // verus!
