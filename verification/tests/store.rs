use tsp::crypto::{seal, CryptoError};
use tsp::definitions::{MessageType, ReceivedTspMessage, VerifiedVid};
use tsp::error::Error;
use tsp::payload::Payload;
use tsp::store::{RelationshipStatus, Store};
use tsp::vid::OwnedVid;

const ALICE: &str = "did:web:did.tsp-test.org:user:alice";
const BOB: &str = "did:web:did.tsp-test.org:user:bob";
const ENDPOINT: &str = "tcp://127.0.0.1:1337";

fn pair() -> (Store, OwnedVid, Store, OwnedVid) {
    let alice = OwnedVid::bind(ALICE, ENDPOINT).unwrap();
    let bob = OwnedVid::bind(BOB, ENDPOINT).unwrap();

    let mut bob_db = Store::new();
    bob_db.add_private_vid(bob.clone()).unwrap();
    bob_db.add_verified_vid(alice.vid().clone()).unwrap();

    let mut alice_db = Store::new();
    alice_db.add_private_vid(alice.clone()).unwrap();
    alice_db.add_verified_vid(bob.vid().clone()).unwrap();

    (alice_db, alice, bob_db, bob)
}

fn status_of(db: &Store, vid: &str) -> RelationshipStatus {
    db.get_vid(vid).unwrap().get_relation_status()
}

#[test]
fn test_direct_mode() {
    let (alice_db, _, mut bob_db, _) = pair();

    let (endpoint, message) = alice_db
        .seal_message(
            ALICE,
            BOB,
            Some(b"extra non-confidential data"),
            b"hello world",
        )
        .unwrap();
    assert_eq!(endpoint, "tcp://127.0.0.1:1337");

    let ReceivedTspMessage::GenericMessage {
        sender,
        nonconfidential_data,
        message,
        message_type,
    } = bob_db.open_message(&message).unwrap()
    else {
        panic!("bob did not receive a generic message")
    };

    assert_eq!(message, b"hello world");
    assert_eq!(sender, ALICE);
    assert_eq!(
        nonconfidential_data.unwrap(),
        b"extra non-confidential data"
    );
    assert_eq!(message_type, MessageType::SignedAndEncrypted);
}

#[test]
fn test_nested_mode() {
    let (mut alice_db, _, mut bob_db, _) = pair();

    let nested_bob_vid = bob_db.create_private_nested_vid(BOB, None).unwrap();
    let nested_alice_vid = alice_db
        .create_private_nested_vid(ALICE, Some(&nested_bob_vid))
        .unwrap();

    let nested_bob = bob_db.get_verified_vid(&nested_bob_vid).unwrap().clone();
    alice_db.add_verified_vid(nested_bob).unwrap();
    alice_db
        .set_parent_for_vid(&nested_bob_vid, Some(BOB))
        .unwrap();
    alice_db
        .set_relation_for_vid(&nested_bob_vid, Some(&nested_alice_vid))
        .unwrap();

    let nested_alice = alice_db
        .get_verified_vid(&nested_alice_vid)
        .unwrap()
        .clone();
    bob_db.add_verified_vid(nested_alice).unwrap();

    assert_eq!(bob_db.receive_endpoint(&nested_bob_vid).unwrap(), ENDPOINT);

    let (_, message) = alice_db
        .seal_message(
            &nested_alice_vid,
            &nested_bob_vid,
            Some(b"extra non-confidential data"),
            b"hello nested world",
        )
        .unwrap();

    let ReceivedTspMessage::GenericMessage {
        sender, message, ..
    } = bob_db.open_message(&message).unwrap()
    else {
        panic!("bob did not receive a generic message inner")
    };

    assert_eq!(message, b"hello nested world".to_vec());
    assert_eq!(sender, nested_alice_vid);
}

#[test]
fn test_routed_mode() {
    let (mut alice_db, _, mut bob_db, _) = pair();

    alice_db
        .set_route_for_vid(ALICE, &[BOB, ALICE, "did:web:hidden.web:user:realbob"])
        .unwrap();
    alice_db.set_relation_for_vid(BOB, Some(ALICE)).unwrap();
    alice_db.set_relation_for_vid(ALICE, Some(ALICE)).unwrap();

    // let alice send a message via bob to herself
    let (_, message) = alice_db
        .seal_message(ALICE, ALICE, None, b"hello self (via bob)")
        .unwrap();

    // let bob receive the message
    let ReceivedTspMessage::ForwardRequest {
        opaque_payload,
        sender,
        next_hop,
        route,
    } = bob_db.open_message(&message).unwrap()
    else {
        panic!("bob did not receive a forward request")
    };

    assert_eq!(sender, "did:web:did.tsp-test.org:user:alice");
    assert_eq!(next_hop, "did:web:did.tsp-test.org:user:alice");
    assert_eq!(route, vec![b"did:web:hidden.web:user:realbob".to_vec()]);

    // bob is going to forward to alice three times; once using an incorrect
    // intermediary, once with a correct, and once without
    bob_db.set_relation_for_vid(ALICE, Some(BOB)).unwrap();

    // test1: alice doens't know "realbob"
    let (_, message) = bob_db
        .forward_routed_message(ALICE, route.clone(), &opaque_payload)
        .unwrap();

    let Error::UnverifiedVid(hop) = alice_db.open_message(&message).unwrap_err() else {
        panic!("alice accepted a message which she cannot handle");
    };
    assert_eq!(hop, "did:web:hidden.web:user:realbob");

    // test2: just use "bob"
    let (_, message) = bob_db
        .forward_routed_message(ALICE, vec![BOB.as_bytes().to_vec()], &opaque_payload)
        .unwrap();
    let ReceivedTspMessage::ForwardRequest {
        sender,
        next_hop,
        route,
        ..
    } = alice_db.open_message(&message).unwrap()
    else {
        panic!("alice did not receive message");
    };
    assert_eq!(sender, "did:web:did.tsp-test.org:user:bob");
    assert_eq!(next_hop, "did:web:did.tsp-test.org:user:bob");
    assert!(route.is_empty());

    // test3: alice is the recipient (using "bob" as the 'final hop')
    bob_db.set_relation_for_vid(BOB, Some(ALICE)).unwrap();
    let (_, message) = bob_db
        .forward_routed_message(BOB, vec![], &opaque_payload)
        .unwrap();
    let ReceivedTspMessage::GenericMessage {
        sender, message, ..
    } = alice_db.open_message(&message).unwrap()
    else {
        panic!("alice did not receive message");
    };

    assert_eq!(sender, "did:web:did.tsp-test.org:user:alice");
    assert_eq!(message, b"hello self (via bob)");
}

#[test]
fn route_message_passes_on() {
    let (mut alice_db, _, mut bob_db, _) = pair();
    alice_db.set_route_for_vid(ALICE, &[BOB, BOB]).unwrap();
    alice_db.set_relation_for_vid(BOB, Some(ALICE)).unwrap();
    alice_db.set_relation_for_vid(ALICE, Some(ALICE)).unwrap();
    let (_, message) = alice_db
        .seal_message(ALICE, ALICE, None, b"round trip")
        .unwrap();

    // the hop that the message names is bob himself and none remains, so
    // bob delivers it to the one he is related to
    assert_eq!(
        bob_db.route_message(ALICE, BOB, &message).map(|_| ()),
        Err(Error::Vid(tsp::vid::VidError::ResolveVid(
            "missing relation for the final hop"
        )))
    );
    bob_db.set_relation_for_vid(BOB, Some(ALICE)).unwrap();
    let (endpoint, passed) = bob_db.route_message(ALICE, BOB, &message).unwrap();
    assert_eq!(endpoint, ENDPOINT);
    let ReceivedTspMessage::GenericMessage {
        sender, message, ..
    } = alice_db.open_message(&passed).unwrap()
    else {
        panic!("alice did not receive the message");
    };
    assert_eq!(sender, ALICE);
    assert_eq!(message, b"round trip");

    // a hop that is not ours cannot be the last one
    let mut other = Store::new();
    other.import(alice_db.export().unwrap()).unwrap();
    other.set_route_for_vid(ALICE, &[BOB, ALICE]).unwrap();
    let (_, message) = other.seal_message(ALICE, ALICE, None, b"x").unwrap();
    assert_eq!(
        bob_db.route_message(ALICE, BOB, &message).map(|_| ()),
        Err(Error::MissingPrivateVid(ALICE.to_string()))
    );

    // a message that is not routed is refused
    let (_, plain) = alice_db.seal_message(ALICE, BOB, None, b"plain").unwrap();
    assert!(matches!(
        bob_db.route_message(ALICE, BOB, &plain),
        Err(Error::InvalidRoute(_))
    ));
    assert_eq!(
        bob_db.route_message(ALICE, ALICE, &plain).unwrap_err(),
        Error::Crypto(CryptoError::UnexpectedRecipient)
    );
}

#[test]
fn attack_failures() {
    let (_, alice, mut bob_db, bob) = pair();

    let payload = b"hello world";
    let message = seal(&alice, &bob, None, &Payload::Content(payload.to_vec())).unwrap();
    assert!(bob_db.open_message(&message).is_ok());

    for i in 0..message.len() {
        let mut corrupt = message.clone();
        corrupt[i] ^= 0x10;
        assert!(bob_db.open_message(&corrupt).is_err(), "byte {i}");
    }
}

#[test]
fn attack_failures_with_nonconfidential_data() {
    let (alice_db, _, mut bob_db, _) = pair();
    let (_, message) = alice_db
        .seal_message(
            ALICE,
            BOB,
            Some(b"extra non-confidential data"),
            b"hello world",
        )
        .unwrap();
    for i in 0..message.len() {
        let mut corrupt = message.clone();
        corrupt[i] ^= 0x10;
        assert!(bob_db.open_message(&corrupt).is_err(), "byte {i}");
    }
}

#[test]
fn test_relation_forming() {
    let (mut alice_db, _, mut bob_db, _) = pair();

    let (_, message, requested) = alice_db.seal_relationship_request(ALICE, BOB).unwrap();
    assert_eq!(requested, tsp::crypto::sha256(&message));
    alice_db
        .set_relation_status_for_vid(BOB, RelationshipStatus::Unidirectional(requested))
        .unwrap();

    let ReceivedTspMessage::RequestRelationship { sender, thread_id } =
        bob_db.open_message(&message).unwrap()
    else {
        panic!("bob did not receive a relation request")
    };

    assert_eq!(sender, "did:web:did.tsp-test.org:user:alice");
    assert_eq!(thread_id, requested);

    // send the reply
    let (_, message) = bob_db
        .seal_message_payload(BOB, ALICE, None, &Payload::AcceptRelationship { thread_id })
        .unwrap();
    bob_db
        .set_relation_status_for_vid(ALICE, RelationshipStatus::Bidirectional(thread_id))
        .unwrap();

    let ReceivedTspMessage::AcceptRelationship { sender } =
        alice_db.open_message(&message).unwrap()
    else {
        panic!("alice did not receive a relation accept")
    };

    assert_eq!(sender, "did:web:did.tsp-test.org:user:bob");
    assert_eq!(
        status_of(&alice_db, BOB),
        RelationshipStatus::Bidirectional(thread_id)
    );
    assert_eq!(
        status_of(&bob_db, ALICE),
        RelationshipStatus::Bidirectional(thread_id)
    );
}

#[test]
fn accept_with_other_thread_is_refused() {
    let (mut alice_db, _, bob_db, _) = pair();
    let (_, _, requested) = alice_db.seal_relationship_request(ALICE, BOB).unwrap();
    alice_db
        .set_relation_status_for_vid(BOB, RelationshipStatus::Unidirectional(requested))
        .unwrap();

    let mut other = requested;
    other[0] ^= 1;
    let (_, message) = bob_db
        .seal_message_payload(
            BOB,
            ALICE,
            None,
            &Payload::AcceptRelationship { thread_id: other },
        )
        .unwrap();
    assert!(matches!(
        alice_db.open_message(&message),
        Err(Error::Relationship(_))
    ));
    assert_eq!(
        status_of(&alice_db, BOB),
        RelationshipStatus::Unidirectional(requested)
    );
}

#[test]
fn accept_without_request_is_refused() {
    let (mut alice_db, _, bob_db, _) = pair();
    let (_, message) = bob_db
        .seal_message_payload(
            BOB,
            ALICE,
            None,
            &Payload::AcceptRelationship { thread_id: [7u8; 32] },
        )
        .unwrap();
    assert!(matches!(
        alice_db.open_message(&message),
        Err(Error::Relationship(_))
    ));
    assert_eq!(status_of(&alice_db, BOB), RelationshipStatus::Unrelated);
}

#[test]
fn relation_cancel() {
    let (mut alice_db, _, mut bob_db, _) = pair();
    let (_, request, thread_id) = alice_db.seal_relationship_request(ALICE, BOB).unwrap();
    alice_db
        .set_relation_status_for_vid(BOB, RelationshipStatus::Unidirectional(thread_id))
        .unwrap();
    bob_db.open_message(&request).unwrap();
    let (_, accept) = bob_db
        .seal_message_payload(BOB, ALICE, None, &Payload::AcceptRelationship { thread_id })
        .unwrap();
    bob_db
        .set_relation_status_for_vid(ALICE, RelationshipStatus::Bidirectional(thread_id))
        .unwrap();
    alice_db.open_message(&accept).unwrap();

    let (_, cancel) = alice_db.start_relationship_cancel(ALICE, BOB).unwrap();
    assert_eq!(status_of(&alice_db, BOB), RelationshipStatus::Unrelated);

    let ReceivedTspMessage::CancelRelationship { sender } =
        bob_db.open_message(&cancel).unwrap()
    else {
        panic!("bob did not receive a relation cancel")
    };
    assert_eq!(sender, ALICE);
    assert_eq!(status_of(&bob_db, ALICE), RelationshipStatus::Unrelated);

    // the old acceptance promotes nobody any more
    assert!(matches!(
        alice_db.open_message(&accept),
        Err(Error::Relationship(_))
    ));
    assert_eq!(status_of(&alice_db, BOB), RelationshipStatus::Unrelated);

    // a cancellation where there is no relationship passes through
    let (_, again) = alice_db.start_relationship_cancel(ALICE, BOB).unwrap();
    assert!(matches!(
        bob_db.open_message(&again).unwrap(),
        ReceivedTspMessage::CancelRelationship { .. }
    ));
    assert_eq!(status_of(&bob_db, ALICE), RelationshipStatus::Unrelated);
}

#[test]
fn cancel_with_other_thread_is_refused() {
    let (alice_db, _, mut bob_db, _) = pair();
    bob_db
        .set_relation_status_for_vid(ALICE, RelationshipStatus::Bidirectional([1u8; 32]))
        .unwrap();
    let (_, cancel) = alice_db
        .seal_message_payload(
            ALICE,
            BOB,
            None,
            &Payload::CancelRelationship { thread_id: [2u8; 32] },
        )
        .unwrap();
    assert!(matches!(
        bob_db.open_message(&cancel),
        Err(Error::Relationship(_))
    ));
    assert_eq!(
        status_of(&bob_db, ALICE),
        RelationshipStatus::Bidirectional([1u8; 32])
    );
}

#[test]
fn route_of_one_hop_is_rejected() {
    let (mut alice_db, _, _, _) = pair();
    assert_eq!(
        alice_db.set_route_for_vid(BOB, &[ALICE]).unwrap_err(),
        Error::InvalidRoute("A route must have at least two VID's".to_string())
    );
    assert!(alice_db.get_vid(BOB).unwrap().get_route().is_none());
    alice_db.set_route_for_vid(BOB, &[ALICE, BOB]).unwrap();
    assert_eq!(
        alice_db.get_vid(BOB).unwrap().get_route().unwrap(),
        &vec![ALICE.to_string(), BOB.to_string()]
    );
    alice_db.set_route_for_vid(BOB, &[]).unwrap();
    assert!(alice_db.get_vid(BOB).unwrap().get_route().is_none());
    assert_eq!(
        alice_db.set_route_for_vid("did:web:nobody", &[ALICE, BOB]),
        Err(Error::UnverifiedVid("did:web:nobody".to_string()))
    );
}

#[test]
fn membership() {
    let (alice_db, _, _, _) = pair();
    assert!(alice_db.has_private_vid(ALICE).unwrap());
    assert!(!alice_db.has_private_vid(BOB).unwrap());
    assert!(!alice_db.has_private_vid("did:web:nobody").unwrap());
    let mut vids = alice_db.list_vids().unwrap();
    vids.sort();
    assert_eq!(vids, vec![ALICE.to_string(), BOB.to_string()]);
    assert_eq!(
        alice_db.get_private_vid(BOB).map(|_| ()),
        Err(Error::MissingPrivateVid(BOB.to_string()))
    );
    assert_eq!(
        alice_db.seal_message("did:web:nobody", BOB, None, b"x"),
        Err(Error::UnverifiedVid("did:web:nobody".to_string()))
    );
    assert_eq!(
        alice_db.seal_message(ALICE, "did:web:nobody", None, b"x"),
        Err(Error::UnverifiedVid("did:web:nobody".to_string()))
    );
    assert_eq!(alice_db.len(), 2);
}

#[test]
fn adding_again_replaces() {
    let (mut alice_db, alice, _, _) = pair();
    alice_db.set_relation_for_vid(ALICE, Some(BOB)).unwrap();
    alice_db.add_verified_vid(alice.vid().clone()).unwrap();
    assert!(!alice_db.has_private_vid(ALICE).unwrap());
    assert_eq!(alice_db.get_vid(ALICE).unwrap().get_relation_vid(), None);
    assert_eq!(alice_db.len(), 2);
}

#[test]
fn unknown_sender_and_recipient() {
    let (alice_db, alice, mut bob_db, _) = pair();
    let carol = OwnedVid::bind("did:web:did.tsp-test.org:user:carol", ENDPOINT).unwrap();
    let bob = bob_db.get_verified_vid(BOB).unwrap().clone();

    let message = seal(&carol, &bob, None, &Payload::Content(b"hi".to_vec())).unwrap();
    assert_eq!(
        bob_db.open_message(&message),
        Err(Error::UnverifiedVid(
            "did:web:did.tsp-test.org:user:carol".to_string()
        ))
    );

    let message = seal(&alice, carol.vid(), None, &Payload::Content(b"hi".to_vec())).unwrap();
    assert_eq!(
        bob_db.open_message(&message),
        Err(Error::Crypto(CryptoError::UnexpectedRecipient))
    );
    assert!(matches!(
        bob_db.open_message(b"no message at all"),
        Err(Error::Decode(_))
    ));
    let _ = alice_db;
}

#[test]
fn anycast_is_signed_only() {
    let (alice_db, _, mut bob_db, _) = pair();
    let message = alice_db.sign_anycast(ALICE, b"to whom it may concern").unwrap();
    let ReceivedTspMessage::GenericMessage {
        sender,
        nonconfidential_data,
        message,
        message_type,
    } = bob_db.open_message(&message).unwrap()
    else {
        panic!("not a generic message");
    };
    assert_eq!(sender, ALICE);
    assert_eq!(nonconfidential_data, None);
    assert_eq!(message, b"to whom it may concern");
    assert_eq!(message_type, MessageType::Signed);
    assert_eq!(
        alice_db.sign_anycast(BOB, b"x"),
        Err(Error::MissingPrivateVid(BOB.to_string()))
    );
}

#[test]
fn export_import_round_trip() {
    let (mut alice_db, _, mut bob_db, _) = pair();
    alice_db.set_route_for_vid(BOB, &[ALICE, BOB]).unwrap();
    alice_db.set_parent_for_vid(BOB, Some(ALICE)).unwrap();
    alice_db
        .set_relation_status_for_vid(BOB, RelationshipStatus::Unidirectional([9u8; 32]))
        .unwrap();
    let snapshot = alice_db.export().unwrap();
    assert_eq!(snapshot.len(), 2);

    let mut copy = Store::new();
    copy.import(snapshot.clone()).unwrap();
    assert_eq!(copy.export().unwrap(), snapshot);
    assert!(copy.has_private_vid(ALICE).unwrap());
    assert_eq!(
        status_of(&copy, BOB),
        RelationshipStatus::Unidirectional([9u8; 32])
    );

    // what the copy seals, bob opens
    copy.set_route_for_vid(BOB, &[]).unwrap();
    copy.set_parent_for_vid(BOB, None).unwrap();
    let (_, message) = copy.seal_message(ALICE, BOB, None, b"from the copy").unwrap();
    assert!(bob_db.open_message(&message).is_ok());

    let mut broken = snapshot;
    broken[1].tunnel = Some(vec![ALICE.to_string()]);
    let mut target = Store::new();
    assert!(matches!(target.import(broken), Err(Error::InvalidRoute(_))));
    assert_eq!(target.len(), 0);
}

#[test]
fn receive_endpoint_follows_parents() {
    let mut db = Store::new();
    let outer = OwnedVid::bind("did:web:example.org:outer", "https://example.org/outer").unwrap();
    let inner = OwnedVid::bind("did:web:example.org:inner", "https://example.org/inner").unwrap();
    db.add_private_vid(outer).unwrap();
    db.add_private_vid(inner).unwrap();
    assert_eq!(
        db.receive_endpoint("did:web:example.org:inner").unwrap(),
        "https://example.org/inner"
    );
    db.set_parent_for_vid("did:web:example.org:inner", Some("did:web:example.org:outer"))
        .unwrap();
    assert_eq!(
        db.receive_endpoint("did:web:example.org:inner").unwrap(),
        "https://example.org/outer"
    );
    db.set_parent_for_vid("did:web:example.org:outer", Some("did:web:nobody"))
        .unwrap();
    assert_eq!(
        db.receive_endpoint("did:web:example.org:inner"),
        Err(Error::UnverifiedVid("did:web:nobody".to_string()))
    );
    // a cycle of parents ends after as many steps as there are identifiers
    db.set_parent_for_vid("did:web:example.org:outer", Some("did:web:example.org:inner"))
        .unwrap();
    assert!(db.receive_endpoint("did:web:example.org:inner").is_ok());
}

#[test]
fn error_messages() {
    assert_eq!(
        Error::UnverifiedVid("did:x".to_string()).message(),
        "Error: unresolved vid did:x"
    );
    assert_eq!(
        Error::Crypto(CryptoError::UnexpectedRecipient).message(),
        "Error: unexpected recipient"
    );
    let bob = OwnedVid::bind(BOB, ENDPOINT).unwrap();
    assert_eq!(bob.identifier(), BOB);
}

#[test]
fn identifiers_must_be_text() {
    let (_, _, mut bob_db, _) = pair();
    let message = tsp::cesr::encode(
        &[0xff, 0xfe],
        Some(BOB.as_bytes()),
        None,
        Some(b"ciphertext"),
        &[0u8; 64],
    )
    .unwrap();
    assert_eq!(bob_db.open_message(&message), Err(Error::Utf8));
    let message = tsp::cesr::encode(
        ALICE.as_bytes(),
        Some(&[0xc0]),
        None,
        Some(b"ciphertext"),
        &[0u8; 64],
    )
    .unwrap();
    assert_eq!(bob_db.open_message(&message), Err(Error::Utf8));
    // a known sender with a signature that is none
    let message = tsp::cesr::encode(
        ALICE.as_bytes(),
        Some(BOB.as_bytes()),
        None,
        Some(b"ciphertext"),
        &[0u8; 64],
    )
    .unwrap();
    assert_eq!(
        bob_db.open_message(&message),
        Err(Error::Crypto(CryptoError::Verify))
    );
}

#[test]
fn routed_message_without_hops_is_refused() {
    let (_, alice, mut bob_db, bob) = pair();
    let message = seal(
        &alice,
        &bob,
        None,
        &Payload::RoutedMessage(vec![], b"inner".to_vec()),
    )
    .unwrap();
    assert!(matches!(
        bob_db.open_message(&message),
        Err(Error::InvalidRoute(_))
    ));
    assert!(matches!(
        bob_db.route_message(ALICE, BOB, &message),
        Err(Error::InvalidRoute(_))
    ));
}

#[test]
fn nested_send_needs_its_relations() {
    let (mut alice_db, _, _, _) = pair();
    alice_db.set_parent_for_vid(BOB, Some(ALICE)).unwrap();
    assert_eq!(
        alice_db.seal_message(ALICE, BOB, None, b"x"),
        Err(Error::Vid(tsp::vid::VidError::ResolveVid(
            "missing sender VID for receiver"
        )))
    );
    alice_db.set_relation_for_vid(BOB, Some(ALICE)).unwrap();
    assert_eq!(
        alice_db.seal_message(ALICE, BOB, None, b"x"),
        Err(Error::Vid(tsp::vid::VidError::ResolveVid(
            "missing parent for inner VID"
        )))
    );
    alice_db.set_parent_for_vid(BOB, None).unwrap();
    alice_db.set_route_for_vid(BOB, &[BOB, ALICE]).unwrap();
    alice_db.set_relation_for_vid(BOB, None).unwrap();
    assert_eq!(
        alice_db.seal_message(ALICE, BOB, None, b"x"),
        Err(Error::Vid(tsp::vid::VidError::ResolveVid(
            "missing sender VID for first hop"
        )))
    );
}
