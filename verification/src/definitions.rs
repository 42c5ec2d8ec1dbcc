//! Shared data types of the protocol, and what a verified identifier must
//! be able to tell.

pub use crate::payload::Payload;
use vstd::prelude::*;

verus! {

/// A 32-byte key, public or private.
pub type KeyData = [u8; 32];

/// A SHA-256 digest.
pub type Digest = [u8; 32];

/// How a received message was protected.
#[derive(Clone, Copy, Debug, PartialEq, Eq, Structural)]
pub enum MessageType {
    Signed,
    SignedAndEncrypted,
}

/// What is publicly known of a verified identifier.
pub struct VidView {
    /// The identifier.
    pub identifier: Seq<char>,
    /// The transport endpoint, a URL in its normal form.
    pub endpoint: Seq<char>,
    /// The Ed25519 key that checks its signatures.
    pub verifying_key: Seq<u8>,
    /// The X25519 key to encrypt to.
    pub encryption_key: Seq<u8>,
}

/// A verified identifier: a name bound to a verifying key, an encryption
/// key and a transport endpoint.
pub trait VerifiedVid {
    /// What is known of the identifier.
    spec fn vid_view(&self) -> VidView;

    /// The identifier, as it stands in messages.
    fn identifier(&self) -> (r: &str)
        ensures
            r@ == self.vid_view().identifier,
    ;

    /// The transport endpoint of the identifier.
    fn endpoint(&self) -> (r: &str)
        ensures
            r@ == self.vid_view().endpoint,
    ;

    /// The key that checks signatures made by the identifier.
    fn verifying_key(&self) -> (r: &KeyData)
        ensures
            r@ == self.vid_view().verifying_key,
    ;

    /// The key to encrypt to the identifier.
    fn encryption_key(&self) -> (r: &KeyData)
        ensures
            r@ == self.vid_view().encryption_key,
    ;
}

/// An identifier whose decryption key is held here.
pub trait Receiver: VerifiedVid {
    /// The private key that decrypts.
    spec fn decryption_key_view(&self) -> Seq<u8>;

    /// The private key that decrypts.
    fn decryption_key(&self) -> (r: &KeyData)
        ensures
            r@ == self.decryption_key_view(),
    ;
}

/// An identifier whose signing key is held here.
pub trait Sender: Receiver {
    /// The private key that signs.
    spec fn signing_key_view(&self) -> Seq<u8>;

    /// The private key that signs.
    fn signing_key(&self) -> (r: &KeyData)
        ensures
            r@ == self.signing_key_view(),
    ;
}


/// What opening a received message gives.
#[derive(Clone, Debug, PartialEq, Eq)]
pub enum ReceivedTspMessage {
    /// A user message.
    GenericMessage {
        sender: String,
        nonconfidential_data: Option<Vec<u8>>,
        message: Vec<u8>,
        message_type: MessageType,
    },
    /// The sender asks for a relationship; the thread identifier names the
    /// request.
    RequestRelationship { sender: String, thread_id: Digest },
    /// The sender accepts the relationship that we asked for.
    AcceptRelationship { sender: String },
    /// The sender ends the relationship.
    CancelRelationship { sender: String },
    /// A routed message to pass on to the next hop.
    ForwardRequest { sender: String, next_hop: String, route: Vec<Vec<u8>>, opaque_payload: Vec<u8> },
}

/// The mathematical content of a `ReceivedTspMessage`.
pub enum ReceivedView {
    GenericMessage {
        sender: Seq<char>,
        nonconfidential_data: Option<Seq<u8>>,
        message: Seq<u8>,
        message_type: MessageType,
    },
    RequestRelationship { sender: Seq<char>, thread_id: Seq<u8> },
    AcceptRelationship { sender: Seq<char> },
    CancelRelationship { sender: Seq<char> },
    ForwardRequest {
        sender: Seq<char>,
        next_hop: Seq<char>,
        route: Seq<Seq<u8>>,
        opaque_payload: Seq<u8>,
    },
}

impl View for ReceivedTspMessage {
    type V = ReceivedView;

    open spec fn view(&self) -> ReceivedView {
        match *self {
            ReceivedTspMessage::GenericMessage {
                sender,
                nonconfidential_data,
                message,
                message_type,
            } => ReceivedView::GenericMessage {
                sender: sender@,
                nonconfidential_data: match nonconfidential_data {
                    Some(data) => Some(data@),
                    None => None,
                },
                message: message@,
                message_type,
            },
            ReceivedTspMessage::RequestRelationship { sender, thread_id } => ReceivedView::RequestRelationship {
                sender: sender@,
                thread_id: thread_id@,
            },
            ReceivedTspMessage::AcceptRelationship { sender } => ReceivedView::AcceptRelationship {
                sender: sender@,
            },
            ReceivedTspMessage::CancelRelationship { sender } => ReceivedView::CancelRelationship {
                sender: sender@,
            },
            ReceivedTspMessage::ForwardRequest {
                sender,
                next_hop,
                route,
                opaque_payload,
            } => ReceivedView::ForwardRequest {
                sender: sender@,
                next_hop: next_hop@,
                route: Seq::new(route@.len(), |i: int| route@[i]@),
                opaque_payload: opaque_payload@,
            },
        }
    }
}

} // verus!
