//! Passing routed messages on, and signing messages for anyone.

use crate::crypto::{
    CryptoError, ed25519_public_key, ed25519_signature, ed25519_verifies, open, open_result, seal,
    sign, signed_envelope, signed_message,
};
use crate::definitions::{VerifiedVid, VidView};
use crate::error::{Error, ErrorView};
use crate::payload::{Payload, PayloadView, hops_view, remaining_hops};
use crate::store::{
    Store, VidContextView, private_of, refusal_between, sealed_between, unresolved,
};
use crate::text::{text_of, text_view};
use crate::vid::{OwnedVidView, Vid, VidError};
use vstd::prelude::*;
use vstd::utf8::encode_utf8;

verus! {

/// Who seals a routed message for whom on its next leg, and around what.
pub struct Leg {
    pub sender: OwnedVidView,
    pub receiver: VidView,
    pub payload: PayloadView,
}

/// The next leg of a routed message. Where no hops remain, the next hop is
/// one of ours and delivers the message, nested, to the identifier that it
/// is related to. Where hops remain, the message goes on to the next hop,
/// routed, from the identifier of ours that we use towards it.
pub open spec fn next_leg(
    store: Map<Seq<char>, VidContextView>,
    next_hop: Seq<char>,
    route: Seq<Seq<u8>>,
    opaque: Seq<u8>,
) -> Result<Leg, ErrorView> {
    if !store.contains_key(next_hop) {
        Err(ErrorView::UnverifiedVid(next_hop))
    } else if route.len() == 0 {
        match private_of(store, next_hop) {
            Err(e) => Err(e),
            Ok(sender) => match store[next_hop].relation_vid {
                None => Err(unresolved("missing relation for the final hop"@)),
                Some(recipient) => if !store.contains_key(recipient) {
                    Err(ErrorView::UnverifiedVid(recipient))
                } else {
                    Ok(
                        Leg {
                            sender,
                            receiver: store[recipient].vid,
                            payload: PayloadView::NestedMessage(opaque),
                        },
                    )
                },
            },
        }
    } else {
        match store[next_hop].relation_vid {
            None => Err(unresolved("missing sender VID for next hop"@)),
            Some(relation) => match private_of(store, relation) {
                Err(e) => Err(e),
                Ok(sender) => Ok(
                    Leg {
                        sender,
                        receiver: store[next_hop].vid,
                        payload: PayloadView::RoutedMessage(route, opaque),
                    },
                ),
            },
        }
    }
}

impl Leg {
    /// The result is an outcome of sealing this leg: the endpoint of its
    /// receiver with the payload sealed for it, or the failure that the
    /// input owes, or a failure to encrypt.
    pub open spec fn yields(self, r: Result<(String, Vec<u8>), Error>) -> bool {
        match r {
            Ok((endpoint, bytes)) => {
                &&& endpoint@ == self.receiver.endpoint
                &&& sealed_between(bytes@, self.sender, self.receiver, None, self.payload)
                &&& refusal_between(self.sender, self.receiver, None, self.payload) is None
            },
            Err(e) => e@ matches ErrorView::Crypto(c) && match refusal_between(
                self.sender,
                self.receiver,
                None,
                self.payload,
            ) {
                Some(refusal) => c == refusal,
                None => c == CryptoError::Cryptographic,
            },
        }
    }
}

/// What signing a message for anyone gives: the message signed by the
/// sender, which must be one of ours, with no receiver named.
pub open spec fn anycast_envelope(sender: Seq<char>, message: Seq<u8>) -> crate::cesr::Envelope {
    signed_envelope(encode_utf8(sender), None, message)
}

/// What is to be done with a routed message that came for one of ours.
pub enum Routing {
    /// Pass the inner message on to the next hop, with the hops that remain.
    Forward { next_hop: Seq<char>, route: Seq<Seq<u8>>, opaque: Seq<u8> },
    /// Refuse the message.
    Refuse(ErrorView),
}

/// What is to be done with a message from a sender that came for a
/// receiver of ours: it must open to a routed payload that names its next
/// hop.
pub open spec fn routing(
    store: Map<Seq<char>, VidContextView>,
    sender: Seq<char>,
    receiver: Seq<char>,
    message: Seq<u8>,
) -> Routing {
    if !store.contains_key(sender) {
        Routing::Refuse(ErrorView::UnverifiedVid(sender))
    } else if !(store.contains_key(receiver) && store[receiver].private is Some) {
        Routing::Refuse(ErrorView::Crypto(CryptoError::UnexpectedRecipient))
    } else {
        match open_result(
            encode_utf8(receiver),
            store[receiver].private->Some_0.decryption_key,
            store[sender].vid.verifying_key,
            message,
        ) {
            Err(e) => Routing::Refuse(ErrorView::Crypto(e)),
            Ok((_, PayloadView::RoutedMessage(hops, opaque))) => if hops.len() == 0 {
                Routing::Refuse(ErrorView::InvalidRoute("A routed message must name its next hop"@))
            } else {
                match text_view(hops[0]) {
                    None => Routing::Refuse(ErrorView::Utf8),
                    Some(next_hop) => Routing::Forward { next_hop, route: hops.skip(1), opaque },
                }
            },
            Ok(_) => Routing::Refuse(ErrorView::InvalidRoute("expected a routed message"@)),
        }
    }
}

impl Store {
    /// Signs a message as one of ours for anyone to verify: no receiver is
    /// named and nothing is encrypted.
    pub fn sign_anycast(&self, sender: &str, message: &[u8]) -> (r: Result<Vec<u8>, Error>)
        requires
            self.wf(),
        ensures
            match private_of(self@, sender@) {
                Err(e) => r matches Err(x) && x@ == e,
                Ok(owned) => if anycast_envelope(sender@, message@).encodable() {
                    &&& r matches Ok(bytes) && bytes@ == signed_message(
                        anycast_envelope(sender@, message@),
                        owned.signing_key,
                    )
                    &&& ed25519_signature(
                        owned.signing_key,
                        anycast_envelope(sender@, message@).signed_bytes(),
                    ).len() == crate::cesr::SIGNATURE_LEN
                    &&& ed25519_verifies(
                        ed25519_public_key(owned.signing_key),
                        anycast_envelope(sender@, message@).signed_bytes(),
                        ed25519_signature(
                            owned.signing_key,
                            anycast_envelope(sender@, message@).signed_bytes(),
                        ),
                    )
                } else {
                    r matches Err(x) && x@ == ErrorView::Crypto(
                        CryptoError::Encode(crate::cesr::EncodeError::PartTooLong),
                    )
                },
            },
    {
        let owned = match self.get_private_vid(sender) {
            Ok(owned) => owned,
            Err(e) => {
                return Err(e);
            },
        };
        match sign(owned, None::<&Vid>, message) {
            Ok(bytes) => Ok(bytes),
            Err(e) => Err(Error::Crypto(e)),
        }
    }

    /// Seals an in-transit routed message for its next leg and says where
    /// to send it.
    pub fn forward_routed_message(
        &self,
        next_hop: &str,
        route: Vec<Vec<u8>>,
        opaque_message: &[u8],
    ) -> (r: Result<(String, Vec<u8>), Error>)
        requires
            self.wf(),
        ensures
            match next_leg(self@, next_hop@, hops_view(route@), opaque_message@) {
                Err(e) => r matches Err(x) && x@ == e,
                Ok(leg) => leg.yields(r),
            },
    {
        let context = match self.get_vid(next_hop) {
            Ok(context) => context,
            Err(e) => {
                return Err(e);
            },
        };
        let opaque = vstd::slice::slice_to_vec(opaque_message);
        if route.len() == 0 {
            let sender = match self.get_private_vid(next_hop) {
                Ok(owned) => owned,
                Err(e) => {
                    return Err(e);
                },
            };
            let recipient = match context.get_relation_vid() {
                Some(id) => id,
                None => {
                    return Err(
                        Error::Vid(VidError::ResolveVid("missing relation for the final hop")),
                    );
                },
            };
            let recipient = match self.get_verified_vid(recipient) {
                Ok(verified) => verified,
                Err(e) => {
                    return Err(e);
                },
            };
            assert(hops_view(route@) =~= Seq::<Seq<u8>>::empty());
            match seal(sender, recipient, None, &Payload::NestedMessage(opaque)) {
                Ok(bytes) => Ok((recipient.endpoint().to_owned(), bytes)),
                Err(e) => Err(Error::Crypto(e)),
            }
        } else {
            let relation = match context.get_relation_vid() {
                Some(id) => id,
                None => {
                    return Err(Error::Vid(VidError::ResolveVid("missing sender VID for next hop")));
                },
            };
            let sender = match self.get_private_vid(relation) {
                Ok(owned) => owned,
                Err(e) => {
                    return Err(e);
                },
            };
            match seal(sender, context.vid(), None, &Payload::RoutedMessage(route, opaque)) {
                Ok(bytes) => Ok((context.vid().endpoint().to_owned(), bytes)),
                Err(e) => Err(Error::Crypto(e)),
            }
        }
    }

    /// Opens a routed message that came for one of ours and seals what it
    /// holds for its next leg.
    pub fn route_message(&self, sender: &str, receiver: &str, message: &[u8]) -> (r: Result<
        (String, Vec<u8>),
        Error,
    >)
        requires
            self.wf(),
        ensures
            match routing(self@, sender@, receiver@, message@) {
                Routing::Refuse(e) => r matches Err(x) && x@ == e,
                Routing::Forward { next_hop, route, opaque } => match next_leg(
                    self@,
                    next_hop,
                    route,
                    opaque,
                ) {
                    Err(e) => r matches Err(x) && x@ == e,
                    Ok(leg) => leg.yields(r),
                },
            },
    {
        let sender_vid = match self.get_verified_vid(sender) {
            Ok(verified) => verified,
            Err(e) => {
                return Err(e);
            },
        };
        let receiver_vid = match self.get_private_vid(receiver) {
            Ok(owned) => owned,
            Err(_) => {
                return Err(Error::Crypto(CryptoError::UnexpectedRecipient));
            },
        };
        let payload = match open(receiver_vid, sender_vid, message) {
            Ok((_, payload, _)) => payload,
            Err(e) => {
                return Err(Error::Crypto(e));
            },
        };
        match payload {
            Payload::RoutedMessage(hops, opaque) => {
                if hops.len() == 0 {
                    return Err(
                        Error::InvalidRoute("A routed message must name its next hop".to_owned()),
                    );
                }
                let route = remaining_hops(&hops);
                match text_of(hops[0].as_slice()) {
                    None => Err(Error::Utf8),
                    Some(next_hop) => self.forward_routed_message(
                        next_hop,
                        route,
                        opaque.as_slice(),
                    ),
                }
            },
            _ => Err(Error::InvalidRoute("expected a routed message".to_owned())),
        }
    }
}

} // verus!
