//! What holds of sealing, opening and the store together.

use crate::crypto::{
    ed25519_public_key, ed25519_signature, ed25519_verifies, lemma_open_sealed,
    lemma_opened_message_shorter, lemma_verify_signed, sha256_digest, signed_envelope,
    signed_message,
};
use crate::definitions::{MessageType, ReceivedView};
use crate::error::ErrorView;
use crate::payload::PayloadView;
use crate::store::{
    Layer, Outcome, RelationshipStatus, Transform, VidContextView, accept_transition,
    cancel_transition, dispatch, known_vid, nested_inner, open_layer, open_outcome, our_vid,
    sealed_between, with_status,
};
use crate::text::lemma_text_bytes;
use crate::vid::OwnedVidView;
use vstd::prelude::*;
use vstd::utf8::encode_utf8;

verus! {

/// The store holds the identifier as one of ours, with the private keys
/// that belong to its public keys.
pub open spec fn holds(store: Map<Seq<char>, VidContextView>, id: Seq<char>) -> bool {
    &&& store.contains_key(id)
    &&& store[id].vid.identifier == id
    &&& store[id].private matches Some(owned) && owned.vid == store[id].vid && owned.keys_match()
        && owned.decryption_key.len() == 32
}

/// The store knows the owner under its identifier, with the verifying key
/// that belongs to the owner's signing key.
pub open spec fn knows(store: Map<Seq<char>, VidContextView>, owner: OwnedVidView) -> bool {
    &&& store.contains_key(owner.vid.identifier)
    &&& store[owner.vid.identifier].vid.verifying_key == ed25519_public_key(owner.signing_key)
}

/// A message that a known sender sealed for one of ours opens to the
/// payload that was sealed: the layer gives what the payload asks for.
pub proof fn lemma_open_layer_sealed(
    store: Map<Seq<char>, VidContextView>,
    bytes: Seq<u8>,
    sender: OwnedVidView,
    receiver: Seq<char>,
    nonconfidential_data: Option<Seq<u8>>,
    payload: PayloadView,
)
    requires
        holds(store, receiver),
        knows(store, sender),
        sealed_between(bytes, sender, store[receiver].vid, nonconfidential_data, payload),
    ensures
        open_layer(store, bytes) == dispatch(
            store,
            sender.vid.identifier,
            nonconfidential_data,
            payload,
            bytes,
        ),
{
    let owned = store[receiver].private->Some_0;
    let known = store[sender.vid.identifier].vid;
    lemma_open_sealed(
        bytes,
        encode_utf8(sender.vid.identifier),
        sender.signing_key,
        known.verifying_key,
        encode_utf8(receiver),
        owned.decryption_key,
        store[receiver].vid.encryption_key,
        nonconfidential_data,
        payload,
    );
    lemma_text_bytes(receiver, receiver);
    lemma_text_bytes(sender.vid.identifier, sender.vid.identifier);
    assert(our_vid(store, encode_utf8(receiver)) == Ok::<Seq<char>, ErrorView>(receiver));
    assert(known_vid(store, encode_utf8(sender.vid.identifier)) == Ok::<Seq<char>, ErrorView>(
        sender.vid.identifier,
    ));
}

/// An inner message is shorter than the message that holds it.
pub proof fn lemma_inner_shorter(store: Map<Seq<char>, VidContextView>, message: Seq<u8>)
    ensures
        open_layer(store, message).result matches Ok(Layer::Inner(inner)) ==> inner.len()
            < message.len() && open_layer(store, message).store == store,
{
    if open_layer(store, message).result matches Ok(Layer::Inner(inner)) {
        let kind = crate::cesr::probe_kind(message)->Ok_0;
        match kind {
            crate::cesr::EnvelopeKind::EncryptedMessage { sender, receiver } => {
                let receiver_id = our_vid(store, receiver)->Ok_0;
                let sender_id = known_vid(store, sender)->Ok_0;
                lemma_opened_message_shorter(
                    receiver,
                    store[receiver_id].private->Some_0.decryption_key,
                    store[sender_id].vid.verifying_key,
                    message,
                );
            },
            crate::cesr::EnvelopeKind::SignedMessage { .. } => {},
        }
    }
}

/// Unwrapping a nested message gives what opening its inner message
/// gives: where the outer layer of a message holds an inner message,
/// opening the message and opening the inner message end the same.
pub proof fn lemma_nested_unwrap(
    store: Map<Seq<char>, VidContextView>,
    outer: Seq<u8>,
    inner: Seq<u8>,
)
    requires
        open_layer(store, outer).result == Ok::<Layer, ErrorView>(Layer::Inner(inner)),
    ensures
        open_outcome(store, outer) == open_outcome(store, inner),
{
    lemma_inner_shorter(store, outer);
}

/// The thread identifier that the receiver of a relationship request
/// gets is the SHA-256 digest of the sealed request, which is what
/// sealing with a digest gave the sender.
pub proof fn lemma_request_thread_id(
    store: Map<Seq<char>, VidContextView>,
    bytes: Seq<u8>,
    sender: OwnedVidView,
    receiver: Seq<char>,
    nonconfidential_data: Option<Seq<u8>>,
)
    requires
        holds(store, receiver),
        knows(store, sender),
        sealed_between(
            bytes,
            sender,
            store[receiver].vid,
            nonconfidential_data,
            PayloadView::RequestRelationship,
        ),
    ensures
        open_outcome(store, bytes) == (Outcome {
            result: Ok(
                ReceivedView::RequestRelationship {
                    sender: sender.vid.identifier,
                    thread_id: sha256_digest(bytes),
                },
            ),
            store,
        }),
{
    lemma_open_layer_sealed(
        store,
        bytes,
        sender,
        receiver,
        nonconfidential_data,
        PayloadView::RequestRelationship,
    );
}

/// A user message that a known sender sealed for one of ours arrives as it
/// was sent, and the store stays as it is.
pub proof fn lemma_content_arrives(
    store: Map<Seq<char>, VidContextView>,
    bytes: Seq<u8>,
    sender: OwnedVidView,
    receiver: Seq<char>,
    nonconfidential_data: Option<Seq<u8>>,
    message: Seq<u8>,
)
    requires
        holds(store, receiver),
        knows(store, sender),
        sealed_between(
            bytes,
            sender,
            store[receiver].vid,
            nonconfidential_data,
            PayloadView::Content(message),
        ),
    ensures
        open_outcome(store, bytes) == (Outcome {
            result: Ok(
                ReceivedView::GenericMessage {
                    sender: sender.vid.identifier,
                    nonconfidential_data,
                    message,
                    message_type: MessageType::SignedAndEncrypted,
                },
            ),
            store,
        }),
{
    lemma_open_layer_sealed(
        store,
        bytes,
        sender,
        receiver,
        nonconfidential_data,
        PayloadView::Content(message),
    );
}

/// After we asked for a relationship, its acceptance with the thread
/// identifier of our request makes the relationship go both ways, and
/// nothing else in the store changes; an acceptance with another thread
/// identifier is refused and leaves the store as it is.
pub proof fn lemma_accept_after_request(
    store: Map<Seq<char>, VidContextView>,
    bytes: Seq<u8>,
    sender: OwnedVidView,
    receiver: Seq<char>,
    nonconfidential_data: Option<Seq<u8>>,
    requested: crate::definitions::Digest,
    thread_id: Seq<u8>,
)
    requires
        holds(store, receiver),
        knows(store, sender),
        store[sender.vid.identifier].relation_status == RelationshipStatus::Unidirectional(
            requested,
        ),
        sealed_between(
            bytes,
            sender,
            store[receiver].vid,
            nonconfidential_data,
            PayloadView::AcceptRelationship { thread_id },
        ),
    ensures
        thread_id == requested@ ==> open_outcome(store, bytes) == (Outcome {
            result: Ok(ReceivedView::AcceptRelationship { sender: sender.vid.identifier }),
            store: with_status(
                store,
                sender.vid.identifier,
                RelationshipStatus::Bidirectional(requested),
            ),
        }),
        thread_id != requested@ ==> open_outcome(store, bytes).store == store && open_outcome(
            store,
            bytes,
        ).result matches Err(ErrorView::Relationship(_)),
{
    lemma_open_layer_sealed(
        store,
        bytes,
        sender,
        receiver,
        nonconfidential_data,
        PayloadView::AcceptRelationship { thread_id },
    );
}

/// Where there is no request of ours, no acceptance makes a relationship:
/// once a relationship is cancelled or was never asked for, an acceptance
/// is refused whatever thread identifier it names.
pub proof fn lemma_accept_needs_request(status: RelationshipStatus, thread_id: Seq<u8>)
    requires
        !(status is Unidirectional),
    ensures
        accept_transition(status, thread_id) matches Err(ErrorView::Relationship(_)),
{
}

/// A cancellation with the thread identifier of the relationship ends it,
/// and then no acceptance brings it back.
pub proof fn lemma_cancel_ends(status: RelationshipStatus, thread_id: Seq<u8>, later: Seq<u8>)
    requires
        (status matches RelationshipStatus::Bidirectional(d) && d@ == thread_id) || (
        status matches RelationshipStatus::Unidirectional(d) && d@ == thread_id),
    ensures
        cancel_transition(status, thread_id) == Ok::<RelationshipStatus, ErrorView>(
            RelationshipStatus::Unrelated,
        ),
        accept_transition(RelationshipStatus::Unrelated, later) is Err,
{
}

/// A routed payload that a known sender sealed for one of ours arrives as
/// a request to forward: to the first of the hops that it names, with the
/// hops after that one and the inner message untouched. This holds at the
/// first hop and at every hop after it.
pub proof fn lemma_routed_payload_arrives(
    store: Map<Seq<char>, VidContextView>,
    bytes: Seq<u8>,
    sender: OwnedVidView,
    receiver: Seq<char>,
    hops: Seq<Seq<u8>>,
    opaque: Seq<u8>,
    next_hop: Seq<char>,
)
    requires
        holds(store, receiver),
        knows(store, sender),
        hops.len() > 0,
        known_vid(store, hops[0]) == Ok::<Seq<char>, ErrorView>(next_hop),
        sealed_between(
            bytes,
            sender,
            store[receiver].vid,
            None,
            PayloadView::RoutedMessage(hops, opaque),
        ),
    ensures
        open_outcome(store, bytes) == (Outcome {
            result: Ok(
                ReceivedView::ForwardRequest {
                    sender: sender.vid.identifier,
                    next_hop,
                    route: hops.skip(1),
                    opaque_payload: opaque,
                },
            ),
            store,
        }),
{
    lemma_open_layer_sealed(
        store,
        bytes,
        sender,
        receiver,
        None,
        PayloadView::RoutedMessage(hops, opaque),
    );
}

/// A routed message arrives at its first hop as a request to forward:
/// from the outer sender, to the first of the hops that the message names,
/// with the hops after that one and the inner message, which is the
/// payload sealed for the receiver.
pub proof fn lemma_routed_arrives(
    store: Map<Seq<char>, VidContextView>,
    bytes: Seq<u8>,
    transform: Transform,
    nonconfidential_data: Option<Seq<u8>>,
    payload: PayloadView,
    next_hop: Seq<char>,
)
    requires
        transform is Routed,
        holds(store, transform->Routed_first_hop.identifier),
        store[transform->Routed_first_hop.identifier].vid == transform->Routed_first_hop,
        knows(store, transform->Routed_outer_sender),
        transform->Routed_hops.len() > 0,
        known_vid(store, transform->Routed_hops[0]) == Ok::<Seq<char>, ErrorView>(next_hop),
        transform.produces(nonconfidential_data, payload, bytes),
    ensures
        open_outcome(store, bytes).store == store,
        exists|inner: Seq<u8>|
            #![trigger sealed_between(inner, transform->Routed_inner_sender, transform->Routed_receiver, nonconfidential_data, payload)]
            sealed_between(
                inner,
                transform->Routed_inner_sender,
                transform->Routed_receiver,
                nonconfidential_data,
                payload,
            ) && open_outcome(store, bytes).result == Ok::<ReceivedView, ErrorView>(
                ReceivedView::ForwardRequest {
                    sender: transform->Routed_outer_sender.vid.identifier,
                    next_hop,
                    route: transform->Routed_hops.skip(1),
                    opaque_payload: inner,
                },
            ),
{
    let inner_sender = transform->Routed_inner_sender;
    let receiver = transform->Routed_receiver;
    let outer_sender = transform->Routed_outer_sender;
    let first_hop = transform->Routed_first_hop;
    let hops = transform->Routed_hops;
    let inner = choose|inner: Seq<u8>|
        #![trigger sealed_between(inner, inner_sender, receiver, nonconfidential_data, payload)]
        sealed_between(inner, inner_sender, receiver, nonconfidential_data, payload)
            && sealed_between(
            bytes,
            outer_sender,
            first_hop,
            None,
            PayloadView::RoutedMessage(hops, inner),
        );
    lemma_routed_payload_arrives(
        store,
        bytes,
        outer_sender,
        first_hop.identifier,
        hops,
        inner,
        next_hop,
    );
}

/// A message that a known sender signed arrives as a user message that is
/// signed and not encrypted, where it names no receiver or one of ours.
pub proof fn lemma_signed_arrives(
    store: Map<Seq<char>, VidContextView>,
    sender: OwnedVidView,
    receiver: Option<Seq<char>>,
    message: Seq<u8>,
)
    requires
        knows(store, sender),
        receiver matches Some(id) ==> store.contains_key(id) && store[id].private is Some,
        ({
            let envelope = signed_envelope(
                encode_utf8(sender.vid.identifier),
                match receiver {
                    Some(id) => Some(encode_utf8(id)),
                    None => None,
                },
                message,
            );
            &&& envelope.encodable()
            &&& ed25519_signature(sender.signing_key, envelope.signed_bytes()).len()
                == crate::cesr::SIGNATURE_LEN
            &&& ed25519_verifies(
                ed25519_public_key(sender.signing_key),
                envelope.signed_bytes(),
                ed25519_signature(sender.signing_key, envelope.signed_bytes()),
            )
        }),
    ensures
        open_outcome(
            store,
            signed_message(
                signed_envelope(
                    encode_utf8(sender.vid.identifier),
                    match receiver {
                        Some(id) => Some(encode_utf8(id)),
                        None => None,
                    },
                    message,
                ),
                sender.signing_key,
            ),
        ) == (Outcome {
            result: Ok(
                ReceivedView::GenericMessage {
                    sender: sender.vid.identifier,
                    nonconfidential_data: None,
                    message,
                    message_type: MessageType::Signed,
                },
            ),
            store,
        }),
{
    let receiver_bytes = match receiver {
        Some(id) => Some(encode_utf8(id)),
        None => None,
    };
    let envelope = signed_envelope(encode_utf8(sender.vid.identifier), receiver_bytes, message);
    let signature = ed25519_signature(sender.signing_key, envelope.signed_bytes());
    crate::cesr::lemma_decode_encoded(envelope, signature);
    lemma_verify_signed(
        encode_utf8(sender.vid.identifier),
        sender.signing_key,
        store[sender.vid.identifier].vid.verifying_key,
        receiver_bytes,
        message,
    );
    lemma_text_bytes(sender.vid.identifier, sender.vid.identifier);
    if receiver is Some {
        lemma_text_bytes(receiver->Some_0, receiver->Some_0);
    }
}

/// A nested message arrives as what was signed inside it: the receiver of
/// the outer message unwraps it and finds the message of the payload,
/// signed by the inner sender for the inner receiver.
pub proof fn lemma_nested_arrives(
    store: Map<Seq<char>, VidContextView>,
    bytes: Seq<u8>,
    transform: Transform,
    nonconfidential_data: Option<Seq<u8>>,
    payload: PayloadView,
)
    requires
        transform is Nested,
        holds(store, transform->Nested_outer_receiver.identifier),
        store[transform->Nested_outer_receiver.identifier].vid == transform->Nested_outer_receiver,
        knows(store, transform->Nested_outer_sender),
        knows(store, transform->Nested_inner_sender),
        store.contains_key(transform->Nested_receiver.identifier),
        store[transform->Nested_receiver.identifier].private is Some,
        transform.produces(nonconfidential_data, payload, bytes),
    ensures
        open_outcome(store, bytes) == (Outcome {
            result: Ok(
                ReceivedView::GenericMessage {
                    sender: transform->Nested_inner_sender.vid.identifier,
                    nonconfidential_data: None,
                    message: payload.message(),
                    message_type: MessageType::Signed,
                },
            ),
            store,
        }),
{
    let inner_sender = transform->Nested_inner_sender;
    let receiver = transform->Nested_receiver;
    let inner = nested_inner(inner_sender, receiver, payload);
    lemma_open_layer_sealed(
        store,
        bytes,
        transform->Nested_outer_sender,
        transform->Nested_outer_receiver.identifier,
        nonconfidential_data,
        PayloadView::NestedMessage(inner),
    );
    lemma_nested_unwrap(store, bytes, inner);
    lemma_signed_arrives(store, inner_sender, Some(receiver.identifier), payload.message());
}

/// The last hop delivers what was routed: a message that the last hop
/// sealed around an inner message, itself a user message sealed for one of
/// ours, opens to that user message from its inner sender.
pub proof fn lemma_final_delivery(
    store: Map<Seq<char>, VidContextView>,
    bytes: Seq<u8>,
    inner: Seq<u8>,
    last_hop: OwnedVidView,
    recipient: Seq<char>,
    inner_sender: OwnedVidView,
    receiver: Seq<char>,
    nonconfidential_data: Option<Seq<u8>>,
    message: Seq<u8>,
)
    requires
        holds(store, recipient),
        holds(store, receiver),
        knows(store, last_hop),
        knows(store, inner_sender),
        sealed_between(
            bytes,
            last_hop,
            store[recipient].vid,
            None,
            PayloadView::NestedMessage(inner),
        ),
        sealed_between(
            inner,
            inner_sender,
            store[receiver].vid,
            nonconfidential_data,
            PayloadView::Content(message),
        ),
    ensures
        open_outcome(store, bytes) == (Outcome {
            result: Ok(
                ReceivedView::GenericMessage {
                    sender: inner_sender.vid.identifier,
                    nonconfidential_data,
                    message,
                    message_type: MessageType::SignedAndEncrypted,
                },
            ),
            store,
        }),
{
    lemma_open_layer_sealed(
        store,
        bytes,
        last_hop,
        recipient,
        None,
        PayloadView::NestedMessage(inner),
    );
    lemma_nested_unwrap(store, bytes, inner);
    lemma_content_arrives(store, inner, inner_sender, receiver, nonconfidential_data, message);
}


/// Nothing that arrives makes a relationship controlled: a status that an
/// acceptance or a cancellation leads to is controlled only where it was
/// so before.
pub proof fn lemma_controlled_is_not_entered(status: RelationshipStatus, thread_id: Seq<u8>)
    ensures
        accept_transition(status, thread_id) matches Ok(next) ==> !(next is Controlled),
        cancel_transition(status, thread_id) matches Ok(next) ==> (next is Controlled
            ==> status is Controlled),
{
}

} // verus!
