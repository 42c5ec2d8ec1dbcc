//! Sealing and opening of messages: HPKE in base mode with X25519,
//! HKDF-SHA256 and ChaCha20-Poly1305, and a detached Ed25519 signature over
//! the encoded envelope.

use crate::cesr::{
    DecodeError, EncodeError, Envelope, MAX_PART_LEN, SIGNATURE_LEN, decode, decode_parts,
    encode_envelope, encode_signature, envelope_of, lemma_decode_encoded,
    lemma_decoded_is_encoding, optional_view,
};
use crate::definitions::{Digest, KeyData, Receiver, Sender, VerifiedVid};
use crate::payload::{
    Payload, PayloadView, decode_payload, encode_payload, lemma_parse_encoded_payload,
    lemma_parsed_message_shorter, parse_payload,
};
use vstd::prelude::*;
use vstd::slice::slice_to_vec;
use vstd::utf8::encode_utf8;

verus! {

/// Number of bytes of an encapsulated key.
pub const ENCAPSULATED_KEY_LEN: usize = 32;

/// Number of bytes of an authentication tag.
pub const TAG_LEN: usize = 16;

/// Why a message could not be sealed, signed, opened or verified.
#[derive(Clone, Copy, Debug, PartialEq, Eq, Structural)]
pub enum CryptoError {
    /// The message could not be encoded.
    Encode(EncodeError),
    /// The bytes are no message, or the plaintext is no payload.
    Decode(DecodeError),
    /// Encryption or decryption failed.
    Cryptographic,
    /// The signature does not verify.
    Verify,
    /// The message is addressed to someone else.
    UnexpectedRecipient,
    /// The message carries no ciphertext.
    MissingCiphertext,
}

/// The error type of the `hpke` crate, `hpke::HpkeError`. Nothing is known
/// of its values.
#[verifier::external_type_specification]
#[verifier::external_body]
pub struct ExHpkeError(hpke::HpkeError);

/// The error type of the `ed25519_dalek` crate,
/// `ed25519_dalek::SignatureError`. Nothing is known of its values.
#[verifier::external_type_specification]
#[verifier::external_body]
pub struct ExSignatureError(ed25519_dalek::SignatureError);

/// The SHA-256 digest of a byte string.
pub uninterp spec fn sha256_digest(data: Seq<u8>) -> Seq<u8>;

/// The Ed25519 public key that belongs to a secret key.
pub uninterp spec fn ed25519_public_key(secret: Seq<u8>) -> Seq<u8>;

/// The Ed25519 signature that a secret key makes of a message.
pub uninterp spec fn ed25519_signature(secret: Seq<u8>, message: Seq<u8>) -> Seq<u8>;

/// Whether a signature of a message verifies under a public key.
pub uninterp spec fn ed25519_verifies(public: Seq<u8>, message: Seq<u8>, signature: Seq<u8>) -> bool;

/// The X25519 public key that belongs to a secret key.
pub uninterp spec fn x25519_public_key(secret: Seq<u8>) -> Seq<u8>;

/// The plaintext that HPKE recovers from an encapsulated key and a
/// ciphertext under a secret key, or `None` where it rejects them.
pub uninterp spec fn hpke_opened(
    secret: Seq<u8>,
    encapsulated: Seq<u8>,
    info: Seq<u8>,
    aad: Seq<u8>,
    ciphertext: Seq<u8>,
) -> Option<Seq<u8>>;

/// Calls `sha2::Sha256::digest`: the result is the SHA-256 digest of the
/// data, a function of the data alone.
#[verifier::external_body]
fn sha256_raw(data: &[u8]) -> (digest: Digest)
    ensures
        digest@ == sha256_digest(data@),
{
    <sha2::Sha256 as sha2::Digest>::digest(data).into()
}

/// Calls `ed25519_dalek::SigningKey::generate` with the operating system's
/// random numbers. Nothing is claimed of the key.
#[verifier::external_body]
pub(crate) fn ed25519_generate() -> (secret: KeyData) {
    ed25519_dalek::SigningKey::generate(&mut rand::rngs::OsRng).to_bytes()
}

/// Calls `ed25519_dalek::SigningKey::verifying_key`: the result is the
/// public key of the secret key, a function of the secret key alone.
#[verifier::external_body]
pub(crate) fn ed25519_public(secret: &KeyData) -> (public: KeyData)
    ensures
        public@ == ed25519_public_key(secret@),
{
    ed25519_dalek::SigningKey::from_bytes(secret).verifying_key().to_bytes()
}

/// Calls `ed25519_dalek::SigningKey::sign`: signing is deterministic, and
/// the signature verifies under the public key of the secret key.
#[verifier::external_body]
fn ed25519_sign(secret: &KeyData, message: &[u8]) -> (signature: [u8; 64])
    ensures
        signature@ == ed25519_signature(secret@, message@),
        ed25519_verifies(ed25519_public_key(secret@), message@, signature@),
{
    let key = ed25519_dalek::SigningKey::from_bytes(secret);
    ed25519_dalek::Signer::<ed25519_dalek::Signature>::sign(&key, message).to_bytes()
}

/// Calls `ed25519_dalek::VerifyingKey::from_bytes`, `Signature::from_slice`
/// and then `verify`: succeeds exactly where the bytes are a public key and
/// a signature of the message that verifies under it, a function of the
/// three alone.
#[verifier::external_body]
fn ed25519_verify(public: &KeyData, message: &[u8], signature: &[u8]) -> (r: Result<
    (),
    ed25519_dalek::SignatureError,
>)
    ensures
        r is Ok <==> ed25519_verifies(public@, message@, signature@),
{
    let key = ed25519_dalek::VerifyingKey::from_bytes(public)?;
    let signature = ed25519_dalek::Signature::from_slice(signature)?;
    ed25519_dalek::Verifier::verify(&key, message, &signature)
}

/// Calls `hpke::Kem::gen_keypair` for X25519 with the operating system's
/// random numbers and keeps the secret key. Nothing is claimed of it.
#[verifier::external_body]
pub(crate) fn x25519_generate() -> (secret: KeyData) {
    let pair = <hpke::kem::X25519HkdfSha256 as hpke::Kem>::gen_keypair(&mut rand::rngs::OsRng);
    hpke::Serializable::to_bytes(&pair.0).into()
}

/// Calls `hpke::Kem::sk_to_pk` for X25519: the result is the public key of
/// the secret key, a function of the secret key alone. Reading a secret key
/// from 32 bytes cannot fail.
#[verifier::external_body]
pub(crate) fn x25519_public(secret: &KeyData) -> (r: Result<KeyData, hpke::HpkeError>)
    ensures
        r is Ok,
        r->Ok_0@ == x25519_public_key(secret@),
{
    let key = <<hpke::kem::X25519HkdfSha256 as hpke::Kem>::PrivateKey as hpke::Deserializable>::from_bytes(secret)?;
    let public = <hpke::kem::X25519HkdfSha256 as hpke::Kem>::sk_to_pk(&key);
    Ok(hpke::Serializable::to_bytes(&public).into())
}

/// Calls `hpke::single_shot_seal` in base mode with a fresh ephemeral key.
/// Where it succeeds, the ciphertext is the plaintext's length and a tag
/// long, and whoever holds a secret key of 32 bytes whose public key is the
/// recipient's recovers the plaintext from it under the same `info` and
/// `aad`.
#[verifier::external_body]
fn hpke_seal(recipient: &KeyData, info: &[u8], aad: &[u8], plaintext: &[u8]) -> (r: Result<
    (KeyData, Vec<u8>),
    hpke::HpkeError,
>)
    ensures
        r is Ok ==> r->Ok_0.1@.len() == plaintext@.len() + TAG_LEN,
        r is Ok ==> forall|secret: Seq<u8>|
            secret.len() == 32 && x25519_public_key(secret) == recipient@ ==> #[trigger] hpke_opened(
                secret,
                r->Ok_0.0@,
                info@,
                aad@,
                r->Ok_0.1@,
            ) == Some(plaintext@),
{
    let key = <<hpke::kem::X25519HkdfSha256 as hpke::Kem>::PublicKey as hpke::Deserializable>::from_bytes(recipient)?;
    let (encapsulated, ciphertext) = hpke::single_shot_seal::<
        hpke::aead::ChaCha20Poly1305,
        hpke::kdf::HkdfSha256,
        hpke::kem::X25519HkdfSha256,
        _,
    >(&hpke::OpModeS::Base, &key, info, plaintext, aad, &mut rand::rngs::OsRng)?;
    Ok((hpke::Serializable::to_bytes(&encapsulated).into(), ciphertext))
}

/// Calls `hpke::single_shot_open` in base mode: the result is a function of
/// the arguments alone, and a recovered plaintext is a tag shorter than the
/// ciphertext.
#[verifier::external_body]
fn hpke_open(
    secret: &KeyData,
    encapsulated: &[u8],
    info: &[u8],
    aad: &[u8],
    ciphertext: &[u8],
) -> (r: Result<Vec<u8>, hpke::HpkeError>)
    ensures
        r is Ok <==> hpke_opened(secret@, encapsulated@, info@, aad@, ciphertext@) is Some,
        r is Ok ==> Some(r->Ok_0@) == hpke_opened(
            secret@,
            encapsulated@,
            info@,
            aad@,
            ciphertext@,
        ),
        r is Ok ==> r->Ok_0@.len() + TAG_LEN == ciphertext@.len(),
{
    let key = <<hpke::kem::X25519HkdfSha256 as hpke::Kem>::PrivateKey as hpke::Deserializable>::from_bytes(secret)?;
    let encapsulated = <<hpke::kem::X25519HkdfSha256 as hpke::Kem>::EncappedKey as hpke::Deserializable>::from_bytes(encapsulated)?;
    hpke::single_shot_open::<
        hpke::aead::ChaCha20Poly1305,
        hpke::kdf::HkdfSha256,
        hpke::kem::X25519HkdfSha256,
    >(&hpke::OpModeR::Base, &key, &encapsulated, info, ciphertext, aad)
}

/// The SHA-256 digest of `bytes`.
pub fn sha256(bytes: &[u8]) -> (digest: Digest)
    ensures
        digest@ == sha256_digest(bytes@),
{
    sha256_raw(bytes)
}


/// What ties a ciphertext to its envelope: the sender's identifier, the
/// receiver's identifier and the non-confidential data, one after the other.
pub open spec fn binding(
    sender: Seq<u8>,
    receiver: Seq<u8>,
    nonconfidential_data: Option<Seq<u8>>,
) -> Seq<u8> {
    sender + receiver + match nonconfidential_data {
        Some(data) => data,
        None => Seq::empty(),
    }
}

/// The envelope of a sealed message.
pub open spec fn sealed_envelope(
    sender: Seq<u8>,
    receiver: Seq<u8>,
    nonconfidential_data: Option<Seq<u8>>,
    ciphertext: Seq<u8>,
) -> Envelope {
    Envelope { sender, receiver: Some(receiver), nonconfidential_data, ciphertext: Some(ciphertext) }
}

/// The part of a ciphertext part that HPKE encrypted: all but the
/// encapsulated key at its end.
pub open spec fn ciphertext_body(ciphertext: Seq<u8>) -> Seq<u8> {
    ciphertext.subrange(0, ciphertext.len() - ENCAPSULATED_KEY_LEN)
}

/// The encapsulated key at the end of a ciphertext part.
pub open spec fn ciphertext_key(ciphertext: Seq<u8>) -> Seq<u8> {
    ciphertext.subrange(ciphertext.len() - ENCAPSULATED_KEY_LEN, ciphertext.len() as int)
}

/// `bytes` is the payload sealed into the given ciphertext part for the
/// receiver and signed by the sender.
pub open spec fn is_sealed_with(
    bytes: Seq<u8>,
    sender: Seq<u8>,
    signing_key: Seq<u8>,
    receiver: Seq<u8>,
    encryption_key: Seq<u8>,
    nonconfidential_data: Option<Seq<u8>>,
    payload: PayloadView,
    ciphertext: Seq<u8>,
) -> bool {
    let envelope = sealed_envelope(sender, receiver, nonconfidential_data, ciphertext);
    let signature = ed25519_signature(signing_key, envelope.signed_bytes());
    &&& payload.encodable()
    &&& envelope.encodable()
    &&& signature.len() == SIGNATURE_LEN
    &&& bytes == envelope.message_bytes(signature)
    &&& ed25519_verifies(ed25519_public_key(signing_key), envelope.signed_bytes(), signature)
    &&& ciphertext.len() == payload.bytes().len() + TAG_LEN + ENCAPSULATED_KEY_LEN
    &&& forall|secret: Seq<u8>|
        secret.len() == 32 && x25519_public_key(secret) == encryption_key ==> #[trigger] hpke_opened(
            secret,
            ciphertext_key(ciphertext),
            binding(sender, receiver, nonconfidential_data),
            Seq::empty(),
            ciphertext_body(ciphertext),
        ) == Some(payload.bytes())
}

/// `bytes` is an outcome of sealing the payload for the receiver, signed by
/// the sender. Sealing draws a fresh key each time, so there are many.
pub open spec fn is_sealed(
    bytes: Seq<u8>,
    sender: Seq<u8>,
    signing_key: Seq<u8>,
    receiver: Seq<u8>,
    encryption_key: Seq<u8>,
    nonconfidential_data: Option<Seq<u8>>,
    payload: PayloadView,
) -> bool {
    exists|ciphertext: Seq<u8>| #[trigger]
        is_sealed_with(
            bytes,
            sender,
            signing_key,
            receiver,
            encryption_key,
            nonconfidential_data,
            payload,
            ciphertext,
        )
}

/// The error that sealing owes to its input alone, if any: the payload or
/// a part of the envelope is too long to encode.
pub open spec fn seal_refusal(
    sender: Seq<u8>,
    receiver: Seq<u8>,
    nonconfidential_data: Option<Seq<u8>>,
    payload: PayloadView,
) -> Option<CryptoError> {
    if !payload.encodable() {
        Some(CryptoError::Encode(crate::payload::encode_failure(payload)))
    } else if sender.len() > MAX_PART_LEN || receiver.len() > MAX_PART_LEN || (
    nonconfidential_data matches Some(data) && data.len() > MAX_PART_LEN) || payload.bytes().len()
        + TAG_LEN + ENCAPSULATED_KEY_LEN > MAX_PART_LEN {
        Some(CryptoError::Encode(EncodeError::PartTooLong))
    } else {
        None
    }
}

/// The signed message made of an envelope: its encoding, followed by the
/// signature that the secret key makes of that encoding.
pub open spec fn signed_message(envelope: Envelope, signing_key: Seq<u8>) -> Seq<u8> {
    envelope.message_bytes(ed25519_signature(signing_key, envelope.signed_bytes()))
}

/// Encodes an envelope and signs it.
///
/// Fails exactly where a part is too long to encode. The signature is the
/// one that the key makes of the encoded envelope, and it verifies under
/// the public key of that key.
pub fn sign_envelope(
    signing_key: &KeyData,
    sender: &[u8],
    receiver: Option<&[u8]>,
    nonconfidential_data: Option<&[u8]>,
    ciphertext: Option<&[u8]>,
) -> (r: Result<Vec<u8>, CryptoError>)
    ensures
        ({
            let envelope = envelope_of(sender, receiver, nonconfidential_data, ciphertext);
            if envelope.encodable() {
                &&& r matches Ok(bytes) && bytes@ == signed_message(envelope, signing_key@)
                &&& ed25519_signature(signing_key@, envelope.signed_bytes()).len() == SIGNATURE_LEN
                &&& ed25519_verifies(
                    ed25519_public_key(signing_key@),
                    envelope.signed_bytes(),
                    ed25519_signature(signing_key@, envelope.signed_bytes()),
                )
            } else {
                r matches Err(CryptoError::Encode(EncodeError::PartTooLong))
            }
        }),
{
    let mut bytes = match encode_envelope(sender, receiver, nonconfidential_data, ciphertext) {
        Ok(bytes) => bytes,
        Err(e) => {
            return Err(CryptoError::Encode(e));
        },
    };
    let signature = ed25519_sign(signing_key, bytes.as_slice());
    encode_signature(&signature, &mut bytes);
    Ok(bytes)
}

/// Seals a payload for the receiver and signs the envelope as the sender.
///
/// The input alone decides whether the message can be encoded; where it
/// can, the encryption may still fail, and every message that comes back
/// is the payload sealed for the receiver's encryption key and signed with
/// the sender's signing key.
pub fn seal<S: Sender, R: VerifiedVid>(
    sender: &S,
    receiver: &R,
    nonconfidential_data: Option<&[u8]>,
    payload: &Payload,
) -> (r: Result<Vec<u8>, CryptoError>)
    ensures
        match seal_refusal(
            encode_utf8(sender.vid_view().identifier),
            encode_utf8(receiver.vid_view().identifier),
            optional_view(nonconfidential_data),
            payload@,
        ) {
            Some(e) => r matches Err(x) && x == e,
            None => match r {
                Ok(bytes) => is_sealed(
                    bytes@,
                    encode_utf8(sender.vid_view().identifier),
                    sender.signing_key_view(),
                    encode_utf8(receiver.vid_view().identifier),
                    receiver.vid_view().encryption_key,
                    optional_view(nonconfidential_data),
                    payload@,
                ),
                Err(e) => e == CryptoError::Cryptographic,
            },
        },
{
    let plaintext = match encode_payload(payload) {
        Ok(plaintext) => plaintext,
        Err(e) => {
            return Err(CryptoError::Encode(e));
        },
    };
    let sender_id = sender.identifier().as_bytes();
    let receiver_id = receiver.identifier().as_bytes();
    let too_long = match nonconfidential_data {
        Some(data) => data.len() > MAX_PART_LEN,
        None => false,
    };
    if sender_id.len() > MAX_PART_LEN || receiver_id.len() > MAX_PART_LEN || too_long
        || plaintext.len() > MAX_PART_LEN - TAG_LEN - ENCAPSULATED_KEY_LEN {
        return Err(CryptoError::Encode(EncodeError::PartTooLong));
    }
    let mut info: Vec<u8> = Vec::new();
    crate::cesr::append_bytes(&mut info, sender_id);
    crate::cesr::append_bytes(&mut info, receiver_id);
    match nonconfidential_data {
        Some(data) => {
            crate::cesr::append_bytes(&mut info, data);
        },
        None => {
            assert(info@ =~= info@ + Seq::<u8>::empty());
        },
    }
    let aad: Vec<u8> = Vec::new();
    let (encapsulated, body) = match hpke_seal(
        receiver.encryption_key(),
        info.as_slice(),
        aad.as_slice(),
        plaintext.as_slice(),
    ) {
        Ok(sealed) => sealed,
        Err(_) => {
            return Err(CryptoError::Cryptographic);
        },
    };
    let mut ciphertext = body;
    crate::cesr::append_bytes(&mut ciphertext, encapsulated.as_slice());
    let r = sign_envelope(
        sender.signing_key(),
        sender_id,
        Some(receiver_id),
        nonconfidential_data,
        Some(ciphertext.as_slice()),
    );
    proof {
        let c = ciphertext@;
        assert(ciphertext_body(c) =~= body@);
        assert(ciphertext_key(c) =~= encapsulated@);
        assert(aad@ =~= Seq::<u8>::empty());
        assert(is_sealed_with(
            r->Ok_0@,
            sender_id@,
            sender.signing_key_view(),
            receiver_id@,
            receiver.vid_view().encryption_key,
            optional_view(nonconfidential_data),
            payload@,
            c,
        ));
    }
    r
}

/// Seals a payload as `seal` does and also gives the SHA-256 digest of the
/// sealed message, which names the thread that the message starts.
pub fn seal_and_hash<S: Sender, R: VerifiedVid>(
    sender: &S,
    receiver: &R,
    nonconfidential_data: Option<&[u8]>,
    payload: &Payload,
) -> (r: Result<(Vec<u8>, Digest), CryptoError>)
    ensures
        match seal_refusal(
            encode_utf8(sender.vid_view().identifier),
            encode_utf8(receiver.vid_view().identifier),
            optional_view(nonconfidential_data),
            payload@,
        ) {
            Some(e) => r matches Err(x) && x == e,
            None => match r {
                Ok((bytes, thread_id)) => is_sealed(
                    bytes@,
                    encode_utf8(sender.vid_view().identifier),
                    sender.signing_key_view(),
                    encode_utf8(receiver.vid_view().identifier),
                    receiver.vid_view().encryption_key,
                    optional_view(nonconfidential_data),
                    payload@,
                ) && thread_id@ == sha256_digest(bytes@),
                Err(e) => e == CryptoError::Cryptographic,
            },
        },
{
    match seal(sender, receiver, nonconfidential_data, payload) {
        Ok(bytes) => {
            let thread_id = sha256(bytes.as_slice());
            Ok((bytes, thread_id))
        },
        Err(e) => Err(e),
    }
}


/// The envelope of a signed message: the message travels as the
/// non-confidential data, and there is no ciphertext.
pub open spec fn signed_envelope(sender: Seq<u8>, receiver: Option<Seq<u8>>, message: Seq<u8>) -> Envelope {
    Envelope { sender, receiver, nonconfidential_data: Some(message), ciphertext: None }
}

/// The identifier of a receiver that may be absent, as it stands in
/// messages.
pub open spec fn optional_identifier<R: VerifiedVid>(receiver: Option<&R>) -> Option<Seq<u8>> {
    match receiver {
        Some(r) => Some(encode_utf8(r.vid_view().identifier)),
        None => None,
    }
}

/// Signs a message that is not encrypted, addressed to a receiver or to
/// nobody in particular.
///
/// Fails exactly where a part is too long to encode.
pub fn sign<S: Sender, R: VerifiedVid>(sender: &S, receiver: Option<&R>, message: &[u8]) -> (r:
    Result<Vec<u8>, CryptoError>)
    ensures
        ({
            let envelope = signed_envelope(
                encode_utf8(sender.vid_view().identifier),
                optional_identifier(receiver),
                message@,
            );
            if envelope.encodable() {
                &&& r matches Ok(bytes) && bytes@ == signed_message(
                    envelope,
                    sender.signing_key_view(),
                )
                &&& ed25519_signature(sender.signing_key_view(), envelope.signed_bytes()).len()
                    == SIGNATURE_LEN
                &&& ed25519_verifies(
                    ed25519_public_key(sender.signing_key_view()),
                    envelope.signed_bytes(),
                    ed25519_signature(sender.signing_key_view(), envelope.signed_bytes()),
                )
            } else {
                r matches Err(CryptoError::Encode(EncodeError::PartTooLong))
            }
        }),
{
    let receiver_id: Option<&[u8]> = match receiver {
        Some(r) => Some(r.identifier().as_bytes()),
        None => None,
    };
    sign_envelope(
        sender.signing_key(),
        sender.identifier().as_bytes(),
        receiver_id,
        Some(message),
        None,
    )
}

/// What opening a message gives: the non-confidential data and the
/// payload, or the first check that the message fails. The checks, in
/// order: the bytes decode; the signature verifies over the bytes before
/// it; there is a ciphertext; the message is addressed to the receiver;
/// HPKE opens the ciphertext to a plaintext that is a tag shorter; the
/// plaintext is a payload.
pub open spec fn open_result(
    receiver: Seq<u8>,
    decryption_key: Seq<u8>,
    verifying_key: Seq<u8>,
    message: Seq<u8>,
) -> Result<(Option<Seq<u8>>, PayloadView), CryptoError> {
    match decode(message) {
        Err(e) => Err(CryptoError::Decode(e)),
        Ok(decoded) => if !ed25519_verifies(verifying_key, decoded.signed, decoded.signature) {
            Err(CryptoError::Verify)
        } else {
            match decoded.envelope.ciphertext {
                None => Err(CryptoError::MissingCiphertext),
                Some(ciphertext) => if decoded.envelope.receiver != Some(receiver) {
                    Err(CryptoError::UnexpectedRecipient)
                } else if ciphertext.len() < ENCAPSULATED_KEY_LEN {
                    Err(CryptoError::Cryptographic)
                } else {
                    match hpke_opened(
                        decryption_key,
                        ciphertext_key(ciphertext),
                        binding(
                            decoded.envelope.sender,
                            receiver,
                            decoded.envelope.nonconfidential_data,
                        ),
                        Seq::empty(),
                        ciphertext_body(ciphertext),
                    ) {
                        None => Err(CryptoError::Cryptographic),
                        Some(plaintext) => if plaintext.len() + TAG_LEN != ciphertext_body(
                            ciphertext,
                        ).len() {
                            Err(CryptoError::Cryptographic)
                        } else {
                            match parse_payload(plaintext) {
                                Err(e) => Err(CryptoError::Decode(e)),
                                Ok(payload) => Ok((decoded.envelope.nonconfidential_data, payload)),
                            }
                        },
                    }
                },
            }
        },
    }
}

/// View of an optional byte vector.
pub open spec fn optional_vec_view(data: Option<Vec<u8>>) -> Option<Seq<u8>> {
    match data {
        Some(d) => Some(d@),
        None => None,
    }
}

/// Compares two byte strings.
pub fn bytes_eq(a: &[u8], b: &[u8]) -> (r: bool)
    ensures
        r == (a@ == b@),
{
    if a.len() != b.len() {
        return false;
    }
    let mut i: usize = 0;
    while i < a.len()
        invariant
            i <= a@.len(),
            a@.len() == b@.len(),
            forall|j: int| 0 <= j < i ==> a@[j] == b@[j],
        decreases a@.len() - i,
    {
        if a[i] != b[i] {
            return false;
        }
        i += 1;
    }
    assert(a@ =~= b@);
    true
}

/// Opens a message addressed to the receiver: verifies the sender's
/// signature, decrypts the ciphertext and reads the payload.
///
/// Gives the non-confidential data, the payload and the message as it
/// came, or the first check of `open_result` that the message fails.
pub fn open<'a, R: Receiver, S: VerifiedVid>(receiver: &R, sender: &S, message: &'a [u8]) -> (r:
    Result<(Option<Vec<u8>>, Payload, &'a [u8]), CryptoError>)
    ensures
        match open_result(
            encode_utf8(receiver.vid_view().identifier),
            receiver.decryption_key_view(),
            sender.vid_view().verifying_key,
            message@,
        ) {
            Ok((nonconfidential_data, payload)) => r matches Ok(opened) && optional_vec_view(
                opened.0,
            ) == nonconfidential_data && opened.1@ == payload && opened.2@ == message@,
            Err(e) => r matches Err(x) && x == e,
        },
        r matches Ok(opened) ==> opened.1@.message().len() < message@.len(),
{
    let parts = match decode_parts(message) {
        Ok(parts) => parts,
        Err(e) => {
            return Err(CryptoError::Decode(e));
        },
    };
    proof {
        crate::cesr::lemma_layout_contiguous(message@);
    }
    let signed_len = message.len() - SIGNATURE_LEN - 1;
    let signed = &message[0..signed_len];
    match ed25519_verify(sender.verifying_key(), signed, parts.signature.data) {
        Ok(()) => {},
        Err(_) => {
            return Err(CryptoError::Verify);
        },
    }
    let ciphertext = match parts.ciphertext {
        Some(part) => part.data,
        None => {
            return Err(CryptoError::MissingCiphertext);
        },
    };
    let receiver_id = receiver.identifier().as_bytes();
    let addressed = match parts.receiver {
        Some(part) => bytes_eq(part.data, receiver_id),
        None => false,
    };
    if !addressed {
        return Err(CryptoError::UnexpectedRecipient);
    }
    if ciphertext.len() < ENCAPSULATED_KEY_LEN {
        return Err(CryptoError::Cryptographic);
    }
    let split = ciphertext.len() - ENCAPSULATED_KEY_LEN;
    let mut info: Vec<u8> = Vec::new();
    crate::cesr::append_bytes(&mut info, parts.sender.data);
    crate::cesr::append_bytes(&mut info, receiver_id);
    let nonconfidential_data = match parts.nonconfidential_data {
        Some(part) => {
            crate::cesr::append_bytes(&mut info, part.data);
            Some(slice_to_vec(part.data))
        },
        None => {
            assert(info@ =~= info@ + Seq::<u8>::empty());
            None
        },
    };
    let aad: Vec<u8> = Vec::new();
    assert(aad@ =~= Seq::<u8>::empty());
    let plaintext = match hpke_open(
        receiver.decryption_key(),
        &ciphertext[split..ciphertext.len()],
        info.as_slice(),
        aad.as_slice(),
        &ciphertext[0..split],
    ) {
        Ok(plaintext) => plaintext,
        Err(_) => {
            return Err(CryptoError::Cryptographic);
        },
    };
    if plaintext.len() != split - TAG_LEN {
        return Err(CryptoError::Cryptographic);
    }
    match decode_payload(plaintext.as_slice()) {
        Ok(payload) => {
            proof {
                lemma_parsed_message_shorter(plaintext@);
            }
            Ok((nonconfidential_data, payload, message))
        },
        Err(e) => Err(CryptoError::Decode(e)),
    }
}

/// What verifying a signed message gives: the data that the signature
/// covers as non-confidential, which is empty where the part is absent, or
/// the first check that the message fails.
pub open spec fn verify_result(verifying_key: Seq<u8>, message: Seq<u8>) -> Result<
    Seq<u8>,
    CryptoError,
> {
    match decode(message) {
        Err(e) => Err(CryptoError::Decode(e)),
        Ok(decoded) => if !ed25519_verifies(verifying_key, decoded.signed, decoded.signature) {
            Err(CryptoError::Verify)
        } else {
            match decoded.envelope.nonconfidential_data {
                Some(data) => Ok(data),
                None => Ok(Seq::empty()),
            }
        },
    }
}

/// Verifies the sender's signature on a message and gives the data that it
/// authenticates, a slice of the message.
pub fn verify<'a, S: VerifiedVid>(sender: &S, message: &'a [u8]) -> (r: Result<
    &'a [u8],
    CryptoError,
>)
    ensures
        match verify_result(sender.vid_view().verifying_key, message@) {
            Ok(data) => r matches Ok(d) && d@ == data,
            Err(e) => r matches Err(x) && x == e,
        },
        r matches Ok(d) ==> d@.len() < message@.len(),
{
    let parts = match decode_parts(message) {
        Ok(parts) => parts,
        Err(e) => {
            return Err(CryptoError::Decode(e));
        },
    };
    proof {
        crate::cesr::lemma_layout_contiguous(message@);
    }
    let signed_len = message.len() - SIGNATURE_LEN - 1;
    let signed = &message[0..signed_len];
    match ed25519_verify(sender.verifying_key(), signed, parts.signature.data) {
        Ok(()) => {},
        Err(_) => {
            return Err(CryptoError::Verify);
        },
    }
    match parts.nonconfidential_data {
        Some(part) => Ok(part.data),
        None => {
            let empty = &message[0..0];
            assert(empty@ =~= Seq::<u8>::empty());
            Ok(empty)
        },
    }
}


/// Opening inverts sealing: whatever `seal` gave for a sender, a receiver,
/// non-confidential data and a payload, the receiver opens it to the same
/// non-confidential data and payload, where each side's public keys are
/// those of its secret keys.
pub proof fn lemma_open_sealed(
    bytes: Seq<u8>,
    sender: Seq<u8>,
    signing_key: Seq<u8>,
    verifying_key: Seq<u8>,
    receiver: Seq<u8>,
    decryption_key: Seq<u8>,
    encryption_key: Seq<u8>,
    nonconfidential_data: Option<Seq<u8>>,
    payload: PayloadView,
)
    requires
        is_sealed(
            bytes,
            sender,
            signing_key,
            receiver,
            encryption_key,
            nonconfidential_data,
            payload,
        ),
        verifying_key == ed25519_public_key(signing_key),
        decryption_key.len() == 32,
        encryption_key == x25519_public_key(decryption_key),
    ensures
        open_result(receiver, decryption_key, verifying_key, bytes) == Ok::<
            (Option<Seq<u8>>, PayloadView),
            CryptoError,
        >((nonconfidential_data, payload)),
        decode(bytes) matches Ok(decoded) && decoded.envelope.sender == sender
            && decoded.envelope.receiver == Some(receiver) && decoded.envelope.ciphertext is Some,
{
    let ciphertext = choose|ciphertext: Seq<u8>| #[trigger]
        is_sealed_with(
            bytes,
            sender,
            signing_key,
            receiver,
            encryption_key,
            nonconfidential_data,
            payload,
            ciphertext,
        );
    let envelope = sealed_envelope(sender, receiver, nonconfidential_data, ciphertext);
    let signature = ed25519_signature(signing_key, envelope.signed_bytes());
    lemma_decode_encoded(envelope, signature);
    lemma_parse_encoded_payload(payload);
    assert(hpke_opened(
        decryption_key,
        ciphertext_key(ciphertext),
        binding(sender, receiver, nonconfidential_data),
        Seq::empty(),
        ciphertext_body(ciphertext),
    ) == Some(payload.bytes()));
}

/// Verifying inverts signing: a message signed with a secret key verifies
/// under the public key of that key and gives back what was signed, where
/// signing succeeded.
pub proof fn lemma_verify_signed(
    sender: Seq<u8>,
    signing_key: Seq<u8>,
    verifying_key: Seq<u8>,
    receiver: Option<Seq<u8>>,
    message: Seq<u8>,
)
    requires
        signed_envelope(sender, receiver, message).encodable(),
        ed25519_signature(
            signing_key,
            signed_envelope(sender, receiver, message).signed_bytes(),
        ).len() == SIGNATURE_LEN,
        ed25519_verifies(
            verifying_key,
            signed_envelope(sender, receiver, message).signed_bytes(),
            ed25519_signature(
                signing_key,
                signed_envelope(sender, receiver, message).signed_bytes(),
            ),
        ),
    ensures
        verify_result(
            verifying_key,
            signed_message(signed_envelope(sender, receiver, message), signing_key),
        ) == Ok::<Seq<u8>, CryptoError>(message),
{
    let envelope = signed_envelope(sender, receiver, message);
    lemma_decode_encoded(envelope, ed25519_signature(signing_key, envelope.signed_bytes()));
}

/// A sealed message whose receiver field names someone else is refused as
/// such by everyone but the one named, however valid its signature.
pub proof fn lemma_open_misaddressed(
    envelope: Envelope,
    signature: Seq<u8>,
    verifying_key: Seq<u8>,
    receiver: Seq<u8>,
    decryption_key: Seq<u8>,
)
    requires
        envelope.encodable(),
        envelope.ciphertext is Some,
        signature.len() == SIGNATURE_LEN,
        ed25519_verifies(verifying_key, envelope.signed_bytes(), signature),
        envelope.receiver != Some(receiver),
    ensures
        open_result(receiver, decryption_key, verifying_key, envelope.message_bytes(signature))
            == Err::<(Option<Seq<u8>>, PayloadView), CryptoError>(
            CryptoError::UnexpectedRecipient,
        ),
{
    lemma_decode_encoded(envelope, signature);
}

/// Nothing opens unless its signature verifies over the bytes before it:
/// a message that opens decodes, and the sender's key accepts its
/// signature.
pub proof fn lemma_opened_is_signed(
    receiver: Seq<u8>,
    decryption_key: Seq<u8>,
    verifying_key: Seq<u8>,
    message: Seq<u8>,
)
    requires
        open_result(receiver, decryption_key, verifying_key, message) is Ok,
    ensures
        decode(message) matches Ok(decoded) && ed25519_verifies(
            verifying_key,
            decoded.signed,
            decoded.signature,
        ),
{
}


/// What a message that opens carries as the message of its payload is
/// shorter than the message itself.
pub proof fn lemma_opened_message_shorter(
    receiver: Seq<u8>,
    decryption_key: Seq<u8>,
    verifying_key: Seq<u8>,
    message: Seq<u8>,
)
    ensures
        open_result(receiver, decryption_key, verifying_key, message) matches Ok(opened)
            ==> opened.1.message().len() < message.len(),
{
    if open_result(receiver, decryption_key, verifying_key, message) is Ok {
        crate::cesr::lemma_layout_contiguous(message);
        let decoded = decode(message)->Ok_0;
        let ciphertext = decoded.envelope.ciphertext->Some_0;
        let plaintext = hpke_opened(
            decryption_key,
            ciphertext_key(ciphertext),
            binding(decoded.envelope.sender, receiver, decoded.envelope.nonconfidential_data),
            Seq::empty(),
            ciphertext_body(ciphertext),
        )->Some_0;
        lemma_parsed_message_shorter(plaintext);
    }
}


/// Tampering shows: a message that differs from another in any byte and
/// still opens carries another envelope or another signature, and the
/// sender's key accepted that signature over that envelope. So a changed
/// message opens only where the change is a signature that the sender's
/// key accepts.
pub proof fn lemma_tampered_opens_as_another(
    receiver: Seq<u8>,
    decryption_key: Seq<u8>,
    verifying_key: Seq<u8>,
    message: Seq<u8>,
    tampered: Seq<u8>,
)
    requires
        decode(message) is Ok,
        tampered != message,
        open_result(receiver, decryption_key, verifying_key, tampered) is Ok,
    ensures
        decode(tampered) matches Ok(changed) && (changed.envelope != decode(
            message,
        )->Ok_0.envelope || changed.signature != decode(message)->Ok_0.signature)
            && ed25519_verifies(verifying_key, changed.envelope.signed_bytes(), changed.signature),
{
    lemma_decoded_is_encoding(message);
    lemma_decoded_is_encoding(tampered);
}


/// Number of bytes that a part with `len` bytes of data takes.
pub open spec fn part_len(len: nat) -> nat {
    (crate::cesr::part_prefix_len(len) + len) as nat
}

/// Number of bytes of every message that sealing the payload gives.
pub open spec fn sealed_len(
    sender: Seq<u8>,
    receiver: Seq<u8>,
    nonconfidential_data: Option<Seq<u8>>,
    payload: PayloadView,
) -> nat {
    crate::cesr::PREFIX_LEN as nat + part_len(sender.len()) + part_len(receiver.len())
        + match nonconfidential_data {
        Some(data) => part_len(data.len()),
        None => 0,
    } + part_len(payload.bytes().len() + TAG_LEN as nat + ENCAPSULATED_KEY_LEN as nat) + 1
        + SIGNATURE_LEN as nat
}

/// All outcomes of sealing a payload have the same length.
pub proof fn lemma_sealed_len(
    bytes: Seq<u8>,
    sender: Seq<u8>,
    signing_key: Seq<u8>,
    receiver: Seq<u8>,
    encryption_key: Seq<u8>,
    nonconfidential_data: Option<Seq<u8>>,
    payload: PayloadView,
)
    requires
        is_sealed(
            bytes,
            sender,
            signing_key,
            receiver,
            encryption_key,
            nonconfidential_data,
            payload,
        ),
    ensures
        bytes.len() == sealed_len(sender, receiver, nonconfidential_data, payload),
{
    let ciphertext = choose|ciphertext: Seq<u8>| #[trigger]
        is_sealed_with(
            bytes,
            sender,
            signing_key,
            receiver,
            encryption_key,
            nonconfidential_data,
            payload,
            ciphertext,
        );
    let envelope = sealed_envelope(sender, receiver, nonconfidential_data, ciphertext);
    assert(crate::cesr::part_bytes(crate::cesr::KIND_SENDER, sender).len() == part_len(
        sender.len(),
    ));
    assert(crate::cesr::part_bytes(crate::cesr::KIND_RECEIVER, receiver).len() == part_len(
        receiver.len(),
    ));
    assert(crate::cesr::part_bytes(crate::cesr::KIND_CIPHERTEXT, ciphertext).len() == part_len(
        ciphertext.len(),
    ));
    if nonconfidential_data is Some {
        let data = nonconfidential_data->Some_0;
        assert(crate::cesr::part_bytes(crate::cesr::KIND_NONCONFIDENTIAL, data).len() == part_len(
            data.len(),
        ));
    }
}

/// Whether a routed payload can be sealed depends on the length of what it
/// carries, not on its content.
pub proof fn lemma_routed_refusal_by_length(
    sender: Seq<u8>,
    receiver: Seq<u8>,
    nonconfidential_data: Option<Seq<u8>>,
    hops: Seq<Seq<u8>>,
    one: Seq<u8>,
    other: Seq<u8>,
)
    requires
        one.len() == other.len(),
    ensures
        seal_refusal(
            sender,
            receiver,
            nonconfidential_data,
            PayloadView::RoutedMessage(hops, one),
        ) == seal_refusal(
            sender,
            receiver,
            nonconfidential_data,
            PayloadView::RoutedMessage(hops, other),
        ),
{
}

} // verus!
