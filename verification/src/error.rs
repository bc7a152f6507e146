//! The failures of the content service's client.

use vstd::prelude::*;
use vstd::string::StringExecFns;

verus! {

/// Why a request to the content service came to nothing. None of these ends
/// the application: the feature that asked stays empty and the user is told.
#[derive(Clone, Debug, PartialEq, Eq)]
pub enum GbError {
    /// The transfer failed; the text says how.
    Network(String),
    /// The answer is not of the expected shape. `body` is the answer as it
    /// came, for whoever has to find out what the service sent.
    Decode { reason: String, body: String },
    /// What was asked for is not there.
    NotFound,
    /// The picture could not be decoded or does not fit; the text says why.
    Image(String),
}

impl GbError {
    /// What [`GbError::message`] says.
    pub open spec fn message_text(&self) -> Seq<char> {
        match self {
            GbError::Network(reason) => reason@,
            GbError::Decode { reason, body } => reason@,
            GbError::NotFound => "Not found"@,
            GbError::Image(reason) => reason@,
        }
    }

    /// The notice to show to the user.
    pub fn message(&self) -> (out: String)
        ensures
            out@ == self.message_text(),
    {
        match self {
            GbError::Network(reason) => reason.clone(),
            GbError::Decode { reason, body } => reason.clone(),
            GbError::NotFound => String::from_str("Not found"),
            GbError::Image(reason) => reason.clone(),
        }
    }
}

} // verus!
