//! The errors of the library.

use crate::cesr::{DecodeError, EncodeError};
use crate::crypto::CryptoError;
use crate::vid::{VidError, VidErrorView};
use vstd::prelude::*;
use vstd::string::StringExecFns;

verus! {

/// Why an operation of the store failed.
#[derive(Clone, Debug, PartialEq, Eq)]
pub enum Error {
    /// A message could not be encoded.
    Encode(EncodeError),
    /// Bytes are no message.
    Decode(DecodeError),
    /// Sealing, signing, opening or verifying failed.
    Crypto(CryptoError),
    /// An identifier could not be made or resolved.
    Vid(VidError),
    /// An identifier in a message is not UTF-8.
    Utf8,
    /// A route is not acceptable, for the reason given.
    InvalidRoute(String),
    /// A relationship message does not fit the state of the relationship,
    /// for the reason given.
    Relationship(String),
    /// The identifier is not in the store.
    UnverifiedVid(String),
    /// The identifier is in the store, and not as one of ours.
    MissingPrivateVid(String),
}

/// The texts that an `Error` holds.
pub enum ErrorView {
    Encode(EncodeError),
    Decode(DecodeError),
    Crypto(CryptoError),
    Vid(VidErrorView),
    Utf8,
    InvalidRoute(Seq<char>),
    Relationship(Seq<char>),
    UnverifiedVid(Seq<char>),
    MissingPrivateVid(Seq<char>),
}

impl View for Error {
    type V = ErrorView;

    open spec fn view(&self) -> ErrorView {
        match *self {
            Error::Encode(e) => ErrorView::Encode(e),
            Error::Decode(e) => ErrorView::Decode(e),
            Error::Crypto(e) => ErrorView::Crypto(e),
            Error::Vid(e) => ErrorView::Vid(e@),
            Error::Utf8 => ErrorView::Utf8,
            Error::InvalidRoute(reason) => ErrorView::InvalidRoute(reason@),
            Error::Relationship(reason) => ErrorView::Relationship(reason@),
            Error::UnverifiedVid(id) => ErrorView::UnverifiedVid(id@),
            Error::MissingPrivateVid(id) => ErrorView::MissingPrivateVid(id@),
        }
    }
}

/// What went wrong, in words.
pub open spec fn detail(error: ErrorView) -> Seq<char> {
    match error {
        ErrorView::Encode(_) => "failed to encode message"@,
        ErrorView::Decode(_) => "failed to decode message"@,
        ErrorView::Crypto(CryptoError::Verify) => "could not verify signature"@,
        ErrorView::Crypto(CryptoError::UnexpectedRecipient) => "unexpected recipient"@,
        ErrorView::Crypto(CryptoError::MissingCiphertext) => "no ciphertext found in encrypted message"@,
        ErrorView::Crypto(_) => "encryption or decryption failed"@,
        ErrorView::Vid(VidErrorView::InvalidVid(id)) => "invalid VID "@ + id,
        ErrorView::Vid(VidErrorView::ResolveVid(reason)) => "could not resolve VID: "@ + reason,
        ErrorView::Vid(VidErrorView::InvalidEndpoint(endpoint)) => "invalid endpoint "@ + endpoint,
        ErrorView::Utf8 => "invalid UTF-8 in an identifier"@,
        ErrorView::InvalidRoute(reason) => reason,
        ErrorView::Relationship(reason) => reason,
        ErrorView::UnverifiedVid(id) => "unresolved vid "@ + id,
        ErrorView::MissingPrivateVid(id) => "no private vid "@ + id,
    }
}

impl Error {
    /// A sentence that says what went wrong.
    pub fn message(&self) -> (r: String)
        ensures
            r@ == "Error: "@ + detail(self@),
    {
        let mut text = "Error: ".to_owned();
        match self {
            Error::Encode(_) => text.append("failed to encode message"),
            Error::Decode(_) => text.append("failed to decode message"),
            Error::Crypto(CryptoError::Verify) => text.append("could not verify signature"),
            Error::Crypto(CryptoError::UnexpectedRecipient) => text.append("unexpected recipient"),
            Error::Crypto(CryptoError::MissingCiphertext) => text.append(
                "no ciphertext found in encrypted message",
            ),
            Error::Crypto(_) => text.append("encryption or decryption failed"),
            Error::Vid(VidError::InvalidVid(id)) => {
                text.append("invalid VID ");
                text.append(id.as_str());
            },
            Error::Vid(VidError::ResolveVid(reason)) => {
                text.append("could not resolve VID: ");
                text.append(reason);
            },
            Error::Vid(VidError::InvalidEndpoint(endpoint)) => {
                text.append("invalid endpoint ");
                text.append(endpoint.as_str());
            },
            Error::Utf8 => text.append("invalid UTF-8 in an identifier"),
            Error::InvalidRoute(reason) => text.append(reason.as_str()),
            Error::Relationship(reason) => text.append(reason.as_str()),
            Error::UnverifiedVid(id) => {
                text.append("unresolved vid ");
                text.append(id.as_str());
            },
            Error::MissingPrivateVid(id) => {
                text.append("no private vid ");
                text.append(id.as_str());
            },
        }
        assert(text@ =~= "Error: "@ + detail(self@));
        text
    }
}

} // verus!
