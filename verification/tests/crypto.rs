use tsp::crypto::{open, seal, CryptoError};
use tsp::definitions::{Receiver, Sender, VerifiedVid};
use tsp::payload::Payload;
use tsp::vid::OwnedVid;

#[test]
fn seal_open_message() {
    let bob = OwnedVid::bind("did:test:bob", "tcp://127.0.0.1:1337").unwrap();
    let alice = OwnedVid::bind("did:test:alice", "tcp://127.0.0.1:1337").unwrap();

    let secret_message = b"hello world";
    let nonconfidential_data = b"extra header data";

    let message = seal(
        &bob,
        &alice,
        Some(nonconfidential_data),
        &Payload::Content(secret_message.to_vec()),
    )
    .unwrap();

    let (received_nonconfidential_data, received_secret_message, _) =
        open(&alice, &bob, &message).unwrap();

    assert_eq!(received_nonconfidential_data.unwrap(), nonconfidential_data);
    assert_eq!(received_secret_message.as_bytes(), secret_message);
}

#[test]
fn open_rejects_other_recipient() {
    let bob = OwnedVid::bind("did:test:bob", "tcp://127.0.0.1:1337").unwrap();
    let alice = OwnedVid::bind("did:test:alice", "tcp://127.0.0.1:1337").unwrap();
    let carol = OwnedVid::bind("did:test:carol", "tcp://127.0.0.1:1337").unwrap();
    let message = seal(&bob, &alice, None, &Payload::RequestRelationship).unwrap();
    assert_eq!(
        open(&carol, &bob, &message).unwrap_err(),
        CryptoError::UnexpectedRecipient
    );
}

#[test]
fn sha256_of_known_input() {
    let digest = tsp::crypto::sha256(b"abc");
    assert_eq!(
        digest[..4],
        [0xba, 0x78, 0x16, 0xbf]
    );
    assert_eq!(tsp::crypto::sha256(b""), tsp::crypto::sha256(b""));
    assert_ne!(tsp::crypto::sha256(b"a"), tsp::crypto::sha256(b"b"));
}

#[test]
fn seal_and_hash_names_the_message() {
    let bob = OwnedVid::bind("did:test:bob", "tcp://127.0.0.1:1337").unwrap();
    let alice = OwnedVid::bind("did:test:alice", "tcp://127.0.0.1:1337").unwrap();
    let (message, thread_id) =
        tsp::crypto::seal_and_hash(&alice, &bob, None, &Payload::RequestRelationship).unwrap();
    assert_eq!(thread_id, tsp::crypto::sha256(&message));
    let (nonconfidential, payload, raw) = open(&bob, &alice, &message).unwrap();
    assert_eq!(nonconfidential, None);
    assert_eq!(payload, Payload::RequestRelationship);
    assert_eq!(raw, &message[..]);
}

#[test]
fn sign_and_verify() {
    let bob = OwnedVid::bind("did:test:bob", "tcp://127.0.0.1:1337").unwrap();
    let alice = OwnedVid::bind("did:test:alice", "tcp://127.0.0.1:1337").unwrap();
    let message = tsp::crypto::sign(&alice, Some(&bob), b"signed only").unwrap();
    assert_eq!(tsp::crypto::verify(&alice, &message).unwrap(), b"signed only");
    assert_eq!(
        tsp::crypto::verify(&bob, &message),
        Err(CryptoError::Verify)
    );
    assert_eq!(
        open(&bob, &alice, &message).map(|_| ()),
        Err(CryptoError::MissingCiphertext)
    );
    // signing is deterministic
    assert_eq!(
        message,
        tsp::crypto::sign(&alice, Some(&bob), b"signed only").unwrap()
    );
    let mut forged = message.clone();
    let last = forged.len() - 1;
    forged[last] ^= 1;
    assert_eq!(tsp::crypto::verify(&alice, &forged), Err(CryptoError::Verify));
}

#[test]
fn open_failures() {
    let bob = OwnedVid::bind("did:test:bob", "tcp://127.0.0.1:1337").unwrap();
    let alice = OwnedVid::bind("did:test:alice", "tcp://127.0.0.1:1337").unwrap();
    let other = OwnedVid::bind("did:test:bob", "tcp://127.0.0.1:1337").unwrap();
    let message = seal(&alice, &bob, None, &Payload::Content(b"x".to_vec())).unwrap();
    // the same name with other keys cannot decrypt
    assert_eq!(
        open(&other, &alice, &message).map(|_| ()),
        Err(CryptoError::Cryptographic)
    );
    assert_eq!(
        open(&bob, &bob, &message).map(|_| ()),
        Err(CryptoError::Verify)
    );
    assert!(matches!(
        open(&bob, &alice, b"TSP1").map(|_| ()),
        Err(CryptoError::Decode(_))
    ));
    // sealing twice gives different messages that open alike
    let again = seal(&alice, &bob, None, &Payload::Content(b"x".to_vec())).unwrap();
    assert_ne!(message, again);
    assert_eq!(
        open(&bob, &alice, &again).unwrap().1,
        Payload::Content(b"x".to_vec())
    );
}

#[test]
fn sealed_message_hides_the_payload() {
    let bob = OwnedVid::bind("did:test:bob", "tcp://127.0.0.1:1337").unwrap();
    let alice = OwnedVid::bind("did:test:alice", "tcp://127.0.0.1:1337").unwrap();
    let secret = b"a rather long secret message";
    let message = seal(
        &alice,
        &bob,
        Some(b"in the clear"),
        &Payload::Content(secret.to_vec()),
    )
    .unwrap();
    let contains = |needle: &[u8]| message.windows(needle.len()).any(|w| w == needle);
    assert!(!contains(secret));
    assert!(contains(b"in the clear"));
    assert!(contains(b"did:test:alice"));
    assert!(contains(b"did:test:bob"));
    // prefix, three parts with two bytes of tag and length each, the
    // ciphertext part with tag, encapsulated key and payload tag, and the
    // signature part
    assert_eq!(
        message.len(),
        4 + (2 + 14) + (2 + 12) + (2 + 12) + (2 + 1 + secret.len() + 16 + 32) + 65
    );
}

#[test]
fn too_many_hops_cannot_be_sealed() {
    let bob = OwnedVid::bind("did:test:bob", "tcp://127.0.0.1:1337").unwrap();
    let alice = OwnedVid::bind("did:test:alice", "tcp://127.0.0.1:1337").unwrap();
    let payload = Payload::RoutedMessage(vec![b"hop".to_vec(); 256], vec![]);
    assert_eq!(
        seal(&alice, &bob, None, &payload),
        Err(CryptoError::Encode(tsp::cesr::EncodeError::TooManyHops))
    );
    let payload = Payload::RoutedMessage(vec![b"hop".to_vec(); 255], vec![]);
    assert!(seal(&alice, &bob, None, &payload).is_ok());
}

#[test]
fn public_keys_are_derived() {
    let owned = OwnedVid::from_keys("me", "tcp://127.0.0.1:1", [1u8; 32], [2u8; 32]).unwrap();
    assert_eq!(owned.signing_key(), &[1u8; 32]);
    assert_eq!(owned.decryption_key(), &[2u8; 32]);
    assert_ne!(owned.verifying_key(), &[1u8; 32]);
    assert_ne!(owned.encryption_key(), &[2u8; 32]);
    // the X25519 public key of the secret key 02 02 .. 02
    let other = OwnedVid::from_keys("you", "tcp://127.0.0.1:1", [3u8; 32], [2u8; 32]).unwrap();
    assert_eq!(owned.encryption_key(), other.encryption_key());
    assert_ne!(owned.verifying_key(), other.verifying_key());
}
