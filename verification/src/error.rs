//! The error of the writer.

use vstd::prelude::*;
use vstd::std_specs::convert::FromSpecImpl;

verus! {

/// Why a document could not be written.
#[derive(Debug)]
pub enum Error {
    /// The encoder failed to write an event; the field is what it reported.
    WriteEventError(quick_xml::Error),
}

impl From<quick_xml::Error> for Error {
    fn from(source: quick_xml::Error) -> (error: Error) {
        Error::WriteEventError(source)
    }
}

impl FromSpecImpl<quick_xml::Error> for Error {
    open spec fn obeys_from_spec() -> bool {
        true
    }

    open spec fn from_spec(source: quick_xml::Error) -> Error {
        Error::WriteEventError(source)
    }
}

impl Error {
    /// The text that describes the error.
    pub fn message(&self) -> (text: String)
        ensures
            text@ == "Error writing an XML tag with quick-xml"@,
    {
        "Error writing an XML tag with quick-xml".to_owned()
    }
}

/// What one answer of the encoder means for the writer: the count of bytes is
/// dropped, a failure is handed on as [`Error::WriteEventError`].
pub fn outcome(answer: Result<usize, quick_xml::Error>) -> (result: Result<(), Error>)
    ensures
        answer is Ok ==> result is Ok,
        answer matches Err(source) ==> result == Err::<(), Error>(Error::WriteEventError(source)),
{
    match answer {
        Ok(_) => Ok(()),
        Err(source) => Err(Error::from(source)),
    }
}

} // verus!
