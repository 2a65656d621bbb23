//! The one error that an entry point of the bridge hands to the host.

use crate::image_processing::{DecodeError, ResizeError};
use crate::inference::{SessionError, SessionErrorView};
use crate::loader::{LoadError, LoadErrorView};
use vstd::prelude::*;
use vstd::string::*;

verus! {

/// Whatever went wrong inside the bridge.
#[derive(Debug, PartialEq, Eq)]
pub enum BridgeError {
    /// The pixel buffer was not decoded.
    Decode(DecodeError),
    /// The image was not resized.
    Resize(ResizeError),
    /// No model handle was obtained.
    Load(LoadError),
    /// The generation session failed.
    Session(SessionError),
    /// A call on the host failed, with the host's reason.
    Host(String),
}

/// What a [`BridgeError`] holds.
pub enum BridgeErrorView {
    Decode(DecodeError),
    Resize(ResizeError),
    Load(LoadErrorView),
    Session(SessionErrorView),
    Host(Seq<char>),
}

impl View for BridgeError {
    type V = BridgeErrorView;

    open spec fn view(&self) -> BridgeErrorView {
        match *self {
            BridgeError::Decode(e) => BridgeErrorView::Decode(e),
            BridgeError::Resize(e) => BridgeErrorView::Resize(e),
            BridgeError::Load(e) => BridgeErrorView::Load(e@),
            BridgeError::Session(e) => BridgeErrorView::Session(e@),
            BridgeError::Host(reason) => BridgeErrorView::Host(reason@),
        }
    }
}

impl BridgeErrorView {
    /// The error in words.
    pub open spec fn description(self) -> Seq<char> {
        match self {
            BridgeErrorView::Decode(DecodeError::LengthMismatch) => {
                "pixel buffer length is not width * height"@
            },
            BridgeErrorView::Resize(ResizeError::InvalidDimensions) => {
                "image width or height is zero"@
            },
            BridgeErrorView::Resize(ResizeError::TooLarge) => {
                "image is too large to be scaled"@
            },
            BridgeErrorView::Load(LoadErrorView::Loader(reason)) => {
                "model load failed: "@ + reason
            },
            BridgeErrorView::Load(LoadErrorView::AlreadyInitialized) => {
                "model slot is already initialized"@
            },
            BridgeErrorView::Load(LoadErrorView::WorkerFailed) => {
                "model load worker ended without a result"@
            },
            BridgeErrorView::Load(LoadErrorView::Cancelled) => "model load was cancelled"@,
            BridgeErrorView::Load(LoadErrorView::MissingParent) => {
                "path of the weights has no parent"@
            },
            BridgeErrorView::Load(LoadErrorView::MissingFileName) => {
                "path of the weights has no file name"@
            },
            BridgeErrorView::Session(SessionErrorView::StreamFailed(reason)) => {
                "model stream failed: "@ + reason
            },
            BridgeErrorView::Session(SessionErrorView::UnexpectedItem) => {
                "model stream gave a response that is not a chunk"@
            },
            BridgeErrorView::Session(SessionErrorView::MalformedDelta) => {
                "model stream gave a delta without content"@
            },
            BridgeErrorView::Session(SessionErrorView::Cancelled) => "session was cancelled"@,
            BridgeErrorView::Host(reason) => "host call failed: "@ + reason,
        }
    }

    /// The message of the exception that the host is given.
    pub open spec fn exception_message(self) -> Seq<char> {
        "Rust Error: "@ + self.description()
    }
}

impl BridgeError {
    /// Writes the error in words.
    pub fn describe(&self) -> (s: String)
        ensures
            s@ == self@.description(),
    {
        match self {
            BridgeError::Decode(DecodeError::LengthMismatch) => String::from_str(
                "pixel buffer length is not width * height",
            ),
            BridgeError::Resize(ResizeError::InvalidDimensions) => String::from_str(
                "image width or height is zero",
            ),
            BridgeError::Resize(ResizeError::TooLarge) => String::from_str(
                "image is too large to be scaled",
            ),
            BridgeError::Load(LoadError::Loader(reason)) => {
                let mut s: String = String::from_str("model load failed: ");
                s.append(reason.as_str());
                s
            },
            BridgeError::Load(LoadError::AlreadyInitialized) => String::from_str(
                "model slot is already initialized",
            ),
            BridgeError::Load(LoadError::WorkerFailed) => String::from_str(
                "model load worker ended without a result",
            ),
            BridgeError::Load(LoadError::Cancelled) => String::from_str("model load was cancelled"),
            BridgeError::Load(LoadError::MissingParent) => String::from_str(
                "path of the weights has no parent",
            ),
            BridgeError::Load(LoadError::MissingFileName) => String::from_str(
                "path of the weights has no file name",
            ),
            BridgeError::Session(SessionError::StreamFailed(reason)) => {
                let mut s: String = String::from_str("model stream failed: ");
                s.append(reason.as_str());
                s
            },
            BridgeError::Session(SessionError::UnexpectedItem) => String::from_str(
                "model stream gave a response that is not a chunk",
            ),
            BridgeError::Session(SessionError::MalformedDelta) => String::from_str(
                "model stream gave a delta without content",
            ),
            BridgeError::Session(SessionError::Cancelled) => String::from_str(
                "session was cancelled",
            ),
            BridgeError::Host(reason) => {
                let mut s: String = String::from_str("host call failed: ");
                s.append(reason.as_str());
                s
            },
        }
    }

    /// Writes the message of the exception that the host is given.
    pub fn exception_message(&self) -> (s: String)
        ensures
            s@ == self@.exception_message(),
    {
        let mut s: String = String::from_str("Rust Error: ");
        let words: String = self.describe();
        s.append(words.as_str());
        s
    }
}

} // verus!
