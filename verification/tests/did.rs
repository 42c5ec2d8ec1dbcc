use tsp::definitions::VerifiedVid;
use tsp::did::{did_web_url, encode_did_peer, verify_did_peer, verify_vid, Resolution};
use tsp::vid::{OwnedVid, Vid, VidError};

#[test]
fn encode_decode() {
    let owned = OwnedVid::bind("", "tcp://127.0.0.1:1337").unwrap();
    let id = encode_did_peer(owned.vid()).unwrap();
    let vid = Vid::new(
        &id,
        "tcp://127.0.0.1:1337",
        *owned.verifying_key(),
        *owned.encryption_key(),
    )
    .unwrap();

    let resolved_vid = verify_did_peer(vid.identifier()).unwrap();

    assert_eq!(vid.verifying_key(), resolved_vid.verifying_key());
    assert_eq!(vid.encryption_key(), resolved_vid.encryption_key());
    assert_eq!(vid.endpoint(), resolved_vid.endpoint());
    assert_eq!(resolved_vid.identifier(), id);
}

#[test]
fn did_peer_of_known_keys() {
    let vid = Vid::new("x", "tcp://127.0.0.1:1337", [0u8; 32], [0u8; 32]).unwrap();
    let id = encode_did_peer(&vid).unwrap();
    // the service is base64url of {"s":{"uri":"tcp://127.0.0.1:1337"},"t":"tsp"}
    assert_eq!(
        id,
        "did:peer:2.Vz6Mura5XyhZ2x1MHo47ej1U2qwRAZtDsWLSHgbV1WqCovkQw\
         .Ez6Lbonzeum7ThvaZmweia629KS5ebTV8o4N5sZHmB1tKiuQK\
         .SeyJzIjp7InVyaSI6InRjcDovLzEyNy4wLjAuMToxMzM3In0sInQiOiJ0c3AifQ"
    );
}

#[test]
fn new_did_peer_names_itself() {
    let owned = OwnedVid::new_did_peer("https://example.org/inbox").unwrap();
    assert_eq!(
        owned.identifier(),
        encode_did_peer(owned.vid()).unwrap()
    );
    let resolved = verify_did_peer(owned.identifier()).unwrap();
    assert_eq!(resolved.endpoint(), "https://example.org/inbox");
    assert_eq!(resolved.verifying_key(), owned.verifying_key());
    assert_eq!(
        OwnedVid::new_did_peer("not a url").map(|_| ()),
        Err(VidError::InvalidEndpoint("not a url".to_string()))
    );
}

#[test]
fn did_peer_errors() {
    let err = |id: &str| verify_did_peer(id).map(|_| ()).unwrap_err();
    assert_eq!(err("did:key:abc"), VidError::InvalidVid("did:key:abc".to_string()));
    assert_eq!(
        err("did:peer:"),
        VidError::ResolveVid("only numalgo 2 is supported for did:peer")
    );
    assert_eq!(
        err("did:peer:0z6Mk"),
        VidError::ResolveVid("only numalgo 2 is supported for did:peer")
    );
    assert_eq!(
        err("did:peer:2"),
        VidError::ResolveVid("missing verification key in did:peer")
    );
    assert_eq!(err("did:peer:2."), VidError::ResolveVid("invalid part in did:peer"));
    assert_eq!(err("did:peer:2.Xzabc"), VidError::ResolveVid("invalid part in did:peer"));
    assert_eq!(
        err("did:peer:2.Vz0OIl"),
        VidError::ResolveVid("invalid encoded verification key in did:peer")
    );
    assert_eq!(
        err("did:peer:2.Ez0OIl"),
        VidError::ResolveVid("invalid encoded encryption key in did:peer")
    );
    assert_eq!(
        err("did:peer:2.Vz11"),
        VidError::ResolveVid("invalid verification key type in did:peer")
    );
    assert_eq!(
        err("did:peer:2.Ez"),
        VidError::ResolveVid("invalid encryption key type in did:peer")
    );
    assert_eq!(
        err("did:peer:2.Se!!"),
        VidError::ResolveVid("invalid encoded transport in did:peer")
    );
    // base64url of {"t":"web"}
    assert_eq!(
        err("did:peer:2.SeyJ0Ijoid2ViIn0"),
        VidError::ResolveVid("invalid transport type in did:peer")
    );

    let owned = OwnedVid::new_did_peer("tcp://127.0.0.1:1337").unwrap();
    let id = owned.identifier().to_string();
    let keys = id.rfind(".S").unwrap();
    assert_eq!(
        err(&id[..keys]),
        VidError::ResolveVid("missing transport in did:peer")
    );
    let encryption = id.find(".Ez").unwrap();
    assert_eq!(
        err(&format!("{}{}", &id[..encryption], &id[keys..])),
        VidError::ResolveVid("missing encryption key in did:peer")
    );
    let verification = id.find(".Vz").unwrap();
    assert_eq!(
        err(&format!("{}{}", &id[..verification], &id[encryption..])),
        VidError::ResolveVid("missing verification key in did:peer")
    );
}

#[test]
fn did_web_locations() {
    assert_eq!(
        did_web_url("did:web:did.tsp-test.org:user:alice").unwrap(),
        "https://did.tsp-test.org/user/alice/did.json"
    );
    assert_eq!(
        did_web_url("did:web:example.com").unwrap(),
        "https://example.com/did.json"
    );
    assert_eq!(
        did_web_url("did:web:"),
        Err(VidError::InvalidVid("did:web:".to_string()))
    );
    assert_eq!(
        did_web_url("did:web::user"),
        Err(VidError::InvalidVid("did:web::user".to_string()))
    );
    assert_eq!(
        did_web_url("did:peer:2"),
        Err(VidError::InvalidVid("did:peer:2".to_string()))
    );
}

#[test]
fn verify_vid_goes_by_method() {
    match verify_vid("did:web:did.tsp-test.org:user:bob").unwrap() {
        Resolution::Web { url } => assert_eq!(url, "https://did.tsp-test.org/user/bob/did.json"),
        other => panic!("{other:?}"),
    }
    let owned = OwnedVid::new_did_peer("tcp://127.0.0.1:1337").unwrap();
    match verify_vid(owned.identifier()).unwrap() {
        Resolution::Peer(vid) => assert_eq!(vid.encryption_key(), owned.encryption_key()),
        other => panic!("{other:?}"),
    }
    assert_eq!(
        verify_vid("did:key:z6Mk").map(|_| ()),
        Err(VidError::InvalidVid("did:key:z6Mk".to_string()))
    );
    assert_eq!(
        verify_vid("alice").map(|_| ()),
        Err(VidError::InvalidVid("alice".to_string()))
    );
}

#[test]
fn endpoints_are_kept_in_normal_form() {
    let vid = Vid::new("x", "HTTPS://Example.ORG", [0u8; 32], [0u8; 32]).unwrap();
    assert_eq!(vid.endpoint(), "https://example.org/");
    assert_eq!(
        Vid::new("x", "no url", [0u8; 32], [0u8; 32]).map(|_| ()),
        Err(VidError::InvalidEndpoint("no url".to_string()))
    );
    let owned = OwnedVid::from_keys("me", "tcp://127.0.0.1:1", [1u8; 32], [2u8; 32]).unwrap();
    let again = OwnedVid::from_keys("me", "tcp://127.0.0.1:1", [1u8; 32], [2u8; 32]).unwrap();
    assert_eq!(owned.verifying_key(), again.verifying_key());
    assert_eq!(owned.encryption_key(), again.encryption_key());
    assert_ne!(owned.verifying_key(), &[1u8; 32]);
    assert_eq!(owned.clone().into_vid().identifier(), "me");
}

#[test]
fn owned_vid_is_described_without_keys() {
    let owned = OwnedVid::from_keys("me", "tcp://127.0.0.1:1", [1u8; 32], [2u8; 32]).unwrap();
    assert_eq!(
        owned.redacted(),
        "PrivateVid { vid: me, transport: tcp://127.0.0.1:1, sigkey: <secret>, enckey: <secret> }"
    );
}

#[test]
fn verifying_key_must_be_a_point() {
    let owned = OwnedVid::new_did_peer("tcp://127.0.0.1:1337").unwrap();
    let id = owned.identifier().to_string();
    let rest = id.find(".Ez").unwrap();
    let mut accepted = 0;
    let mut rejected = 0;
    for first in 0..32u8 {
        let mut material = vec![0xed, 0x20, first];
        material.extend([0u8; 31]);
        let encoded = bs58::encode(&material).into_string();
        match verify_did_peer(&format!("did:peer:2.Vz{encoded}{}", &id[rest..])) {
            Ok(vid) => {
                assert_eq!(vid.verifying_key()[0], first);
                accepted += 1;
            }
            Err(e) => {
                assert_eq!(
                    e,
                    VidError::ResolveVid("missing verification key in did:peer")
                );
                rejected += 1;
            }
        }
    }
    assert!(accepted > 0);
    assert!(rejected > 0);
}
