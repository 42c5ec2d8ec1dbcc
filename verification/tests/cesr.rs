use tsp::cesr::{
    decode_parts, encode, encode_envelope, get_sender_receiver, probe, DecodeError, EnvelopeType,
};
use tsp::payload::{decode_payload, encode_payload, Payload};
use tsp::cesr::EncodeError;

fn sample() -> Vec<u8> {
    encode(b"alice", Some(b"bob"), Some(b"nc"), Some(b"secret"), &[7u8; 64]).unwrap()
}

#[test]
fn encode_writes_the_parts_in_order() {
    let message = sample();
    let mut expected = b"TSP1".to_vec();
    expected.extend([1, 5]);
    expected.extend(b"alice");
    expected.extend([2, 3]);
    expected.extend(b"bob");
    expected.extend([3, 2]);
    expected.extend(b"nc");
    expected.extend([4, 6]);
    expected.extend(b"secret");
    expected.push(5);
    expected.extend([7u8; 64]);
    assert_eq!(message, expected);
    assert_eq!(
        encode_envelope(b"alice", Some(b"bob"), Some(b"nc"), Some(b"secret")).unwrap(),
        expected[..expected.len() - 65]
    );
}

#[test]
fn long_parts_take_four_length_bytes() {
    let data = vec![9u8; 0x1_0203];
    let message = encode(b"a", None, Some(&data), None, &[0u8; 64]).unwrap();
    assert_eq!(&message[..7], &[b'T', b'S', b'P', b'1', 1, 1, b'a']);
    assert_eq!(&message[7..12], &[0x83, 0x00, 0x01, 0x02, 0x03]);
    assert_eq!(message.len(), 12 + data.len() + 65);
    let parts = decode_parts(&message).unwrap();
    assert_eq!(parts.nonconfidential_data.unwrap().data, &data[..]);
    assert_eq!(parts.nonconfidential_data.unwrap().prefix, &message[7..12]);
    assert!(parts.receiver.is_none());
    assert!(parts.ciphertext.is_none());

    let edge = vec![1u8; 255];
    let message = encode(&edge, None, None, None, &[0u8; 64]).unwrap();
    assert_eq!(&message[4..6], &[1, 255]);
    let edge = vec![1u8; 256];
    let message = encode(&edge, None, None, None, &[0u8; 64]).unwrap();
    assert_eq!(&message[4..9], &[0x81, 0, 0, 1, 0]);
    assert_eq!(decode_parts(&message).unwrap().sender.data, &edge[..]);
}

#[test]
fn decode_gives_back_the_parts() {
    let message = sample();
    let parts = decode_parts(&message).unwrap();
    assert_eq!(parts.prefix.prefix, b"TSP1");
    assert_eq!(parts.prefix.data, b"");
    assert_eq!(parts.sender.prefix, &[1, 5]);
    assert_eq!(parts.sender.data, b"alice");
    assert_eq!(parts.receiver.unwrap().data, b"bob");
    assert_eq!(parts.nonconfidential_data.unwrap().data, b"nc");
    assert_eq!(parts.ciphertext.unwrap().data, b"secret");
    assert_eq!(parts.signature.prefix, &[5]);
    assert_eq!(parts.signature.data, &[7u8; 64]);
    assert_eq!(
        get_sender_receiver(&message).unwrap(),
        (&b"alice"[..], Some(&b"bob"[..]))
    );
}

#[test]
fn probe_tells_signed_from_encrypted() {
    let message = sample();
    match probe(&message).unwrap() {
        EnvelopeType::EncryptedMessage { sender, receiver } => {
            assert_eq!(sender, b"alice");
            assert_eq!(receiver, b"bob");
        }
        _ => panic!("not encrypted"),
    }
    let signed = encode(b"alice", None, Some(b"hello"), None, &[7u8; 64]).unwrap();
    match probe(&signed).unwrap() {
        EnvelopeType::SignedMessage { sender, receiver } => {
            assert_eq!(sender, b"alice");
            assert_eq!(receiver, None);
        }
        _ => panic!("not signed"),
    }
    let unaddressed = encode(b"alice", None, None, Some(b"x"), &[7u8; 64]).unwrap();
    assert_eq!(
        probe(&unaddressed).map(|_| ()),
        Err(DecodeError::MissingReceiver)
    );
}

#[test]
fn decode_errors() {
    let message = sample();
    let err = |bytes: &[u8]| decode_parts(bytes).map(|_| ()).unwrap_err();
    assert_eq!(err(b""), DecodeError::MissingPrefix);
    assert_eq!(err(b"TSP"), DecodeError::MissingPrefix);
    assert_eq!(err(b"XSP1\x01\x00"), DecodeError::MissingPrefix);
    assert_eq!(err(b"TSP1"), DecodeError::MissingSender);
    assert_eq!(err(b"TSP1\x02\x01b"), DecodeError::MissingSender);
    assert_eq!(err(b"TSP1\x01"), DecodeError::Truncated);
    assert_eq!(err(b"TSP1\x01\x05ali"), DecodeError::Truncated);
    assert_eq!(err(b"TSP1\x81\x00\x00"), DecodeError::Truncated);
    assert_eq!(err(b"TSP1\x81\x00\x00\x00\x05alice"), DecodeError::OverlongLength);
    assert_eq!(err(b"TSP1\x01\x01a"), DecodeError::MissingSignature);
    // the receiver may not come after the non-confidential data
    assert_eq!(err(b"TSP1\x01\x01a\x03\x01n\x02\x01b"), DecodeError::UnexpectedPart);
    assert_eq!(err(b"TSP1\x01\x01a\x09"), DecodeError::UnexpectedPart);
    assert_eq!(err(&message[..message.len() - 1]), DecodeError::Truncated);
    let mut longer = message.clone();
    longer.push(0);
    assert_eq!(err(&longer), DecodeError::TrailingData);
}

#[test]
fn payload_bytes() {
    let bytes = |p: Payload| encode_payload(&p).unwrap();
    assert_eq!(bytes(Payload::Content(b"hi".to_vec())), b"\x00hi");
    assert_eq!(bytes(Payload::NestedMessage(b"in".to_vec())), b"\x01in");
    assert_eq!(
        bytes(Payload::RoutedMessage(
            vec![b"h1".to_vec(), b"hop2".to_vec()],
            b"x".to_vec()
        )),
        b"\x02\x02\x06\x02h1\x06\x04hop2x"
    );
    assert_eq!(bytes(Payload::RequestRelationship), b"\x03");
    let mut accept = vec![4u8];
    accept.extend([0xaa; 32]);
    assert_eq!(
        bytes(Payload::AcceptRelationship { thread_id: [0xaa; 32] }),
        accept
    );
    let mut cancel = vec![5u8];
    cancel.extend([0xbb; 32]);
    assert_eq!(
        bytes(Payload::CancelRelationship { thread_id: [0xbb; 32] }),
        cancel
    );
}

#[test]
fn payload_round_trip() {
    let payloads = vec![
        Payload::Content(vec![]),
        Payload::Content(b"hello world".to_vec()),
        Payload::NestedMessage(vec![1, 2, 3]),
        Payload::RoutedMessage(vec![], b"opaque".to_vec()),
        Payload::RoutedMessage(vec![vec![6u8; 300], vec![]], vec![]),
        Payload::RequestRelationship,
        Payload::AcceptRelationship { thread_id: [3; 32] },
        Payload::CancelRelationship { thread_id: [4; 32] },
    ];
    for payload in payloads {
        let bytes = encode_payload(&payload).unwrap();
        assert_eq!(decode_payload(&bytes).unwrap(), payload);
    }
}

#[test]
fn payload_errors() {
    assert_eq!(decode_payload(b""), Err(DecodeError::MissingPayload));
    assert_eq!(decode_payload(b"\x09abc"), Err(DecodeError::UnknownPayload));
    assert_eq!(decode_payload(b"\x02"), Err(DecodeError::Truncated));
    assert_eq!(decode_payload(b"\x02\x01"), Err(DecodeError::MissingHop));
    assert_eq!(decode_payload(b"\x02\x01\x07\x00"), Err(DecodeError::MissingHop));
    assert_eq!(decode_payload(b"\x02\x01\x06\x05ab"), Err(DecodeError::Truncated));
    assert_eq!(decode_payload(b"\x03x"), Err(DecodeError::TrailingData));
    assert_eq!(decode_payload(&[4u8; 10]), Err(DecodeError::Truncated));
    assert_eq!(decode_payload(&[5u8; 34]), Err(DecodeError::TrailingData));
    let hops = vec![vec![1u8]; 256];
    assert_eq!(
        encode_payload(&Payload::RoutedMessage(hops, vec![])),
        Err(EncodeError::TooManyHops)
    );
}

#[test]
fn payload_as_bytes() {
    assert_eq!(Payload::Content(b"m".to_vec()).as_bytes(), b"m");
    assert_eq!(Payload::NestedMessage(b"n".to_vec()).as_bytes(), b"n");
    assert_eq!(
        Payload::RoutedMessage(vec![b"h".to_vec()], b"r".to_vec()).as_bytes(),
        b"r"
    );
    assert_eq!(Payload::RequestRelationship.as_bytes(), b"");
    assert_eq!(
        Payload::CancelRelationship { thread_id: [1; 32] }.as_bytes(),
        b""
    );
    assert_eq!(
        Payload::AcceptRelationship { thread_id: [1; 32] }.as_bytes(),
        &[1u8; 32]
    );
}

#[test]
fn payload_descriptions() {
    assert_eq!(
        Payload::Content(b"hello".to_vec()).describe(),
        "Content: hello"
    );
    assert_eq!(
        Payload::NestedMessage(vec![0xff, b'a']).describe(),
        "Nested Message: \u{fffd}a"
    );
    assert_eq!(
        Payload::RoutedMessage(vec![vec![1, 2], vec![3]], b"x".to_vec()).describe(),
        "Routed Message: x, route: [[1, 2][3]]"
    );
    assert_eq!(Payload::RequestRelationship.describe(), "Request Relationship");
    assert_eq!(
        Payload::AcceptRelationship { thread_id: [0; 32] }.describe(),
        "Accept Relationship"
    );
    assert_eq!(
        Payload::CancelRelationship { thread_id: [0; 32] }.describe(),
        "Cancel Relationship"
    );
}
