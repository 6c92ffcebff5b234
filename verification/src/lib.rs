//! Serialises a tree of XML elements into a UTF-8 document, compact or
//! tab-indented, through the `quick-xml` event encoder.
//!
//! The tree is an [`Element`]. An [`ElementWriter`] owns a byte sink and
//! appends one declaration and one serialised tree for each call of
//! [`ElementWriter::write`].
//!
//! - [`element`]: the tree and its mathematical model.
//! - [`layout`]: what a document looks like, byte for byte.
//! - [`encoding`]: what the encoder does with one event.
//! - [`encoder`]: the calls into `quick-xml`, with contracts that are not
//!   proved.
//! - [`writer`]: the traversal, proved to produce the layout.
//! - [`guarantees`]: what follows for every document.

pub mod element;
pub mod encoder;
pub mod encoding;
pub mod error;
pub mod guarantees;
pub mod layout;
pub mod writer;

pub use element::{Element, Node};
pub use error::Error;
pub use writer::ElementWriter;
