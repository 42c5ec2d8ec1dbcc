//! Identifiers of the `did:peer` and `did:web` methods.
//!
//! A `did:peer` identifier of this library carries its own keys and its
//! transport endpoint: `did:peer:2.Vz<key>.Ez<key>.S<service>`, where the
//! keys are base58-encoded with a two-byte prefix for their kind and the
//! service is base64url-encoded JSON. A `did:web` identifier names the
//! place where its document is published.

use crate::cesr::append_bytes;
use crate::crypto::{bytes_eq, ed25519_generate, x25519_generate};
use crate::definitions::{KeyData, VerifiedVid, VidView};
use crate::payload::digest_at;
use crate::text::{text_of, text_view};
use crate::vid::{OwnedVid, Vid, VidError, VidErrorView, url_normal_form};
use vstd::prelude::*;
use vstd::string::StringExecFns;
use vstd::utf8::encode_utf8;

verus! {

/// The longest input that is handed to the base64 encoder.
pub const MAX_SERVICE_LEN: usize = 0x1000_0000;

/// The base58 text of bytes, in the Bitcoin alphabet.
pub uninterp spec fn base58_text(bytes: Seq<u8>) -> Seq<char>;

/// The bytes that a base58 text in the Bitcoin alphabet stands for, or
/// `None` where the text is none.
pub uninterp spec fn base58_bytes(text: Seq<u8>) -> Option<Seq<u8>>;

/// The unpadded base64url text of bytes.
pub uninterp spec fn base64url_text(bytes: Seq<u8>) -> Seq<char>;

/// The bytes that an unpadded base64url text stands for, or `None` where
/// the text is none.
pub uninterp spec fn base64url_bytes(text: Seq<u8>) -> Option<Seq<u8>>;

/// A text written as a JSON string, with its quotes and escapes.
pub uninterp spec fn json_string_text(text: Seq<char>) -> Seq<char>;

/// The string that a JSON document holds where a JSON pointer points:
/// `None` where the document is no JSON, `Some(None)` where nothing or no
/// string is there.
pub uninterp spec fn json_string_at(document: Seq<u8>, pointer: Seq<char>) -> Option<
    Option<Seq<char>>,
>;

/// Whether 32 bytes are an Ed25519 public key.
pub uninterp spec fn ed25519_is_key(public: Seq<u8>) -> bool;

/// Calls `bs58::encode` with the Bitcoin alphabet: the text is a function
/// of the bytes alone.
#[verifier::external_body]
fn base58_encode(bytes: &[u8]) -> (r: String)
    ensures
        r@ == base58_text(bytes@),
{
    bs58::encode(bytes).with_alphabet(bs58::Alphabet::BITCOIN).into_string()
}

/// Calls `bs58::decode` with the Bitcoin alphabet: the result is a
/// function of the text alone.
#[verifier::external_body]
fn base58_decode(text: &[u8]) -> (r: Option<Vec<u8>>)
    ensures
        r is Some <==> base58_bytes(text@) is Some,
        r is Some ==> Some(r->Some_0@) == base58_bytes(text@),
{
    bs58::decode(text).with_alphabet(bs58::Alphabet::BITCOIN).into_vec().ok()
}

/// Calls `base64ct::Base64UrlUnpadded::encode_string`: the text is a
/// function of the bytes alone. The encoder gives up on inputs whose
/// encoded length does not fit, so the input is bounded.
#[verifier::external_body]
fn base64url_encode(bytes: &[u8]) -> (r: String)
    requires
        bytes@.len() <= MAX_SERVICE_LEN,
    ensures
        r@ == base64url_text(bytes@),
{
    <base64ct::Base64UrlUnpadded as base64ct::Encoding>::encode_string(bytes)
}

/// Calls `base64ct::Base64UrlUnpadded::decode` into a buffer as long as the
/// text: the result is a function of the text alone.
#[verifier::external_body]
fn base64url_decode(text: &[u8]) -> (r: Option<Vec<u8>>)
    ensures
        r is Some <==> base64url_bytes(text@) is Some,
        r is Some ==> Some(r->Some_0@) == base64url_bytes(text@),
{
    let mut buffer = vec![0u8; text.len()];
    let len = <base64ct::Base64UrlUnpadded as base64ct::Encoding>::decode(text, &mut buffer).ok()?.len();
    buffer.truncate(len);
    Some(buffer)
}

/// Writes a text as a JSON string with `serde_json`: the result is a
/// function of the text alone.
#[verifier::external_body]
fn json_quote(text: &str) -> (r: String)
    ensures
        r@ == json_string_text(text@),
{
    serde_json::Value::from(text).to_string()
}

/// Calls `serde_json::from_slice` and then `Value::pointer`: fails where
/// the document is no JSON, and else gives the string at the pointer, if
/// one is there; a function of the document and the pointer alone.
#[verifier::external_body]
fn json_lookup(document: &[u8], pointer: &str) -> (r: Option<Option<String>>)
    ensures
        r is Some <==> json_string_at(document@, pointer@) is Some,
        r is Some ==> Some(crate::text::optional_text_view(r->Some_0)) == json_string_at(
            document@,
            pointer@,
        ),
{
    let value: serde_json::Value = serde_json::from_slice(document).ok()?;
    match value.pointer(pointer) {
        Some(serde_json::Value::String(text)) => Some(Some(text.clone())),
        _ => Some(None),
    }
}

/// Calls `ed25519_dalek::VerifyingKey::from_bytes`: succeeds exactly on
/// the bytes that are a public key.
#[verifier::external_body]
fn ed25519_check_key(public: &KeyData) -> (r: Result<(), ed25519_dalek::SignatureError>)
    ensures
        r is Ok <==> ed25519_is_key(public@),
{
    match ed25519_dalek::VerifyingKey::from_bytes(public) {
        Ok(_) => Ok(()),
        Err(e) => Err(e),
    }
}

/// The two bytes that mark an Ed25519 public key.
pub open spec fn verifying_key_prefix() -> Seq<u8> {
    seq![0xedu8, 0x20u8]
}

/// The two bytes that mark an X25519 public key.
pub open spec fn encryption_key_prefix() -> Seq<u8> {
    seq![0xecu8, 0x20u8]
}

/// The service of a `did:peer` identifier: a JSON document that names the
/// transport endpoint.
pub open spec fn service_text(endpoint: Seq<char>) -> Seq<char> {
    "{\"s\":{\"uri\":"@ + json_string_text(endpoint) + "},\"t\":\"tsp\"}"@
}

/// The `did:peer` identifier of a verifying key, an encryption key and a
/// transport endpoint.
pub open spec fn did_peer_text(
    verifying_key: Seq<u8>,
    encryption_key: Seq<u8>,
    endpoint: Seq<char>,
) -> Seq<char> {
    "did:peer:2.Vz"@ + base58_text(verifying_key_prefix() + verifying_key) + ".Ez"@ + base58_text(
        encryption_key_prefix() + encryption_key,
    ) + ".S"@ + base64url_text(encode_utf8(service_text(endpoint)))
}

/// Writes the `did:peer` identifier of the keys and the endpoint of a
/// verified identifier.
///
/// Fails exactly where the service is too long to encode.
pub fn encode_did_peer<V: VerifiedVid>(vid: &V) -> (r: Result<String, VidError>)
    ensures
        encode_utf8(service_text(vid.vid_view().endpoint)).len() <= MAX_SERVICE_LEN ==> (r matches Ok(
            id,
        ) && id@ == did_peer_text(
            vid.vid_view().verifying_key,
            vid.vid_view().encryption_key,
            vid.vid_view().endpoint,
        )),
        encode_utf8(service_text(vid.vid_view().endpoint)).len() > MAX_SERVICE_LEN ==> (r matches Err(
            e,
        ) && e@ == VidErrorView::ResolveVid("transport too long for did:peer"@)),
{
    let mut service = "{\"s\":{\"uri\":".to_owned();
    service.append(json_quote(vid.endpoint()).as_str());
    service.append("},\"t\":\"tsp\"}");
    if service.as_str().as_bytes().len() > MAX_SERVICE_LEN {
        return Err(VidError::ResolveVid("transport too long for did:peer"));
    }
    let mut material: Vec<u8> = Vec::new();
    material.push(0xedu8);
    material.push(0x20u8);
    append_bytes(&mut material, vid.verifying_key().as_slice());
    assert(material@ =~= verifying_key_prefix() + vid.vid_view().verifying_key);
    let mut id = "did:peer:2.Vz".to_owned();
    id.append(base58_encode(material.as_slice()).as_str());
    let mut material: Vec<u8> = Vec::new();
    material.push(0xecu8);
    material.push(0x20u8);
    append_bytes(&mut material, vid.encryption_key().as_slice());
    assert(material@ =~= encryption_key_prefix() + vid.vid_view().encryption_key);
    id.append(".Ez");
    id.append(base58_encode(material.as_slice()).as_str());
    id.append(".S");
    id.append(base64url_encode(service.as_str().as_bytes()).as_str());
    Ok(id)
}


/// The position of the first separator at or after `from`, or the length
/// of the bytes where there is none.
pub open spec fn next_separator(bytes: Seq<u8>, from: int, separator: u8) -> int
    decreases bytes.len() - from,
{
    if from < 0 || from >= bytes.len() {
        bytes.len() as int
    } else if bytes[from] == separator {
        from
    } else {
        next_separator(bytes, from + 1, separator)
    }
}

/// Finds the first separator at or after `from`.
pub fn find_separator(bytes: &[u8], from: usize, separator: u8) -> (r: usize)
    requires
        from <= bytes@.len(),
    ensures
        r == next_separator(bytes@, from as int, separator),
        from <= r <= bytes@.len(),
{
    let mut i: usize = from;
    while i < bytes.len() && bytes[i] != separator
        invariant
            from <= i <= bytes@.len(),
            next_separator(bytes@, from as int, separator) == next_separator(
                bytes@,
                i as int,
                separator,
            ),
        decreases bytes@.len() - i,
    {
        i += 1;
    }
    i
}

/// The bytes start with the prefix.
pub open spec fn starts_with(bytes: Seq<u8>, prefix: Seq<u8>) -> bool {
    bytes.len() >= prefix.len() && bytes.subrange(0, prefix.len() as int) == prefix
}

/// Tells whether the bytes start with the prefix.
pub fn has_prefix(bytes: &[u8], prefix: &[u8]) -> (r: bool)
    ensures
        r == starts_with(bytes@, prefix@),
{
    if bytes.len() < prefix.len() {
        return false;
    }
    bytes_eq(&bytes[0..prefix.len()], prefix)
}

/// The bytes of `did:peer:`.
pub open spec fn did_peer_prefix() -> Seq<u8> {
    seq![0x64u8, 0x69u8, 0x64u8, 0x3au8, 0x70u8, 0x65u8, 0x65u8, 0x72u8, 0x3au8]
}

/// The bytes of `did:web:`.
pub open spec fn did_web_prefix() -> Seq<u8> {
    seq![0x64u8, 0x69u8, 0x64u8, 0x3au8, 0x77u8, 0x65u8, 0x62u8, 0x3au8]
}

/// What the elements of a `did:peer` identifier have told so far.
pub struct PeerParts {
    pub verifying_key: Option<Seq<u8>>,
    pub encryption_key: Option<Seq<u8>>,
    pub endpoint: Option<Seq<char>>,
}

/// The key that decoded key material holds: the material starts with the
/// two bytes of its kind, and the key is what follows them.
pub open spec fn key_of_material(material: Seq<u8>, kind: Seq<u8>) -> Option<Seq<u8>> {
    if material.len() >= 2 && material[0] == kind[0] && material[1] == kind[1] {
        Some(material.skip(2))
    } else {
        None
    }
}

/// What one more element of a `did:peer` identifier tells, or why the
/// element is refused. An element starts with `Vz` for the verifying key,
/// with `Ez` for the encryption key, or with `S` and the first letter of
/// its base64 text, `e`, for the service. A key of another length than 32
/// bytes is no key; a verifying key of that length counts only where it is
/// an Ed25519 key; a service without a transport address leaves the
/// endpoint as it is.
pub open spec fn peer_element(parts: PeerParts, element: Seq<u8>) -> Result<PeerParts, Seq<char>> {
    if element.len() < 2 {
        Err("invalid part in did:peer"@)
    } else if element[0] == 0x45 && element[1] == 0x7a {
        match base58_bytes(element.skip(2)) {
            None => Err("invalid encoded encryption key in did:peer"@),
            Some(material) => match key_of_material(material, encryption_key_prefix()) {
                None => Err("invalid encryption key type in did:peer"@),
                Some(key) => Ok(
                    PeerParts {
                        encryption_key: if key.len() == 32 {
                            Some(key)
                        } else {
                            None
                        },
                        ..parts
                    },
                ),
            },
        }
    } else if element[0] == 0x56 && element[1] == 0x7a {
        match base58_bytes(element.skip(2)) {
            None => Err("invalid encoded verification key in did:peer"@),
            Some(material) => match key_of_material(material, verifying_key_prefix()) {
                None => Err("invalid verification key type in did:peer"@),
                Some(key) => if key.len() != 32 {
                    Ok(parts)
                } else {
                    Ok(
                        PeerParts {
                            verifying_key: if ed25519_is_key(key) {
                                Some(key)
                            } else {
                                None
                            },
                            ..parts
                        },
                    )
                },
            },
        }
    } else if element[0] == 0x53 && element[1] == 0x65 {
        match base64url_bytes(element.skip(1)) {
            None => Err("invalid encoded transport in did:peer"@),
            Some(document) => match json_string_at(document, "/t"@) {
                None => Err("invalid encoded transport in did:peer"@),
                Some(kind) => if kind != Some("tsp"@) {
                    Err("invalid transport type in did:peer"@)
                } else {
                    match json_string_at(document, "/s/uri"@) {
                        Some(Some(uri)) => Ok(
                            PeerParts { endpoint: url_normal_form(uri), ..parts },
                        ),
                        _ => Ok(parts),
                    }
                },
            },
        }
    } else {
        Err("invalid part in did:peer"@)
    }
}

/// What the elements from position `at` on tell, each between two dots,
/// or why one of them is refused.
pub open spec fn peer_elements(method: Seq<u8>, at: int, parts: PeerParts) -> Result<
    PeerParts,
    Seq<char>,
>
    decreases method.len() - at,
{
    if at < 0 || at >= method.len() {
        Ok(parts)
    } else {
        let end = next_separator(method, at + 1, 0x2e);
        if end <= at || end > method.len() {
            Ok(parts)
        } else {
            match peer_element(parts, method.subrange(at + 1, end)) {
                Err(reason) => Err(reason),
                Ok(more) => peer_elements(method, end, more),
            }
        }
    }
}

/// The part of an identifier that is specific to its method: what stands
/// between the second colon and the third, or the end.
pub open spec fn method_part(bytes: Seq<u8>, prefix_len: int) -> Seq<u8> {
    bytes.subrange(prefix_len, next_separator(bytes, prefix_len, 0x3a))
}

/// What a `did:peer` identifier resolves to, or why it does not resolve.
/// Its method-specific part starts with `2`; the elements that follow must
/// tell a verifying key, an encryption key and a transport endpoint.
pub open spec fn did_peer_resolution(id: Seq<char>) -> Result<VidView, VidErrorView> {
    let bytes = encode_utf8(id);
    if !starts_with(bytes, did_peer_prefix()) {
        Err(VidErrorView::InvalidVid(id))
    } else {
        let method = method_part(bytes, 9);
        let first = next_separator(method, 0, 0x2e);
        if method.subrange(0, first) != seq![0x32u8] {
            Err(VidErrorView::ResolveVid("only numalgo 2 is supported for did:peer"@))
        } else {
            match peer_elements(
                method,
                first,
                PeerParts { verifying_key: None, encryption_key: None, endpoint: None },
            ) {
                Err(reason) => Err(VidErrorView::ResolveVid(reason)),
                Ok(parts) => if parts.verifying_key is None {
                    Err(VidErrorView::ResolveVid("missing verification key in did:peer"@))
                } else if parts.encryption_key is None {
                    Err(VidErrorView::ResolveVid("missing encryption key in did:peer"@))
                } else if parts.endpoint is None {
                    Err(VidErrorView::ResolveVid("missing transport in did:peer"@))
                } else {
                    Ok(
                        VidView {
                            identifier: id,
                            endpoint: parts.endpoint->Some_0,
                            verifying_key: parts.verifying_key->Some_0,
                            encryption_key: parts.encryption_key->Some_0,
                        },
                    )
                },
            }
        }
    }
}

/// What the elements of a `did:peer` identifier have told so far, in
/// executable form.
struct Collected {
    verifying_key: Option<KeyData>,
    encryption_key: Option<KeyData>,
    endpoint: Option<String>,
}

impl View for Collected {
    type V = PeerParts;

    closed spec fn view(&self) -> PeerParts {
        PeerParts {
            verifying_key: match self.verifying_key {
                Some(key) => Some(key@),
                None => None,
            },
            encryption_key: match self.encryption_key {
                Some(key) => Some(key@),
                None => None,
            },
            endpoint: crate::text::optional_text_view(self.endpoint),
        }
    }
}

/// Reads the key that decoded key material holds: `None` where the material
/// is not of the kind asked for, and no key where it has another length
/// than 32 bytes after its kind.
pub fn read_key_material(material: &[u8], kind0: u8, kind1: u8) -> (r: Option<Option<KeyData>>)
    ensures
        match key_of_material(material@, seq![kind0, kind1]) {
            None => r is None,
            Some(key) => r matches Some(k) && if key.len() == 32 {
                k matches Some(data) && data@ == key
            } else {
                k is None
            },
        },
{
    if material.len() < 2 || material[0] != kind0 || material[1] != kind1 {
        return None;
    }
    if material.len() != 34 {
        return Some(None);
    }
    let key = digest_at(material, 2);
    assert(material@.skip(2) =~= material@.subrange(2, 34));
    Some(Some(key))
}

/// Takes in one more element of a `did:peer` identifier.
fn read_peer_element(parts: Collected, element: &[u8]) -> (r: Result<Collected, &'static str>)
    ensures
        match peer_element(parts@, element@) {
            Ok(more) => r matches Ok(x) && x@ == more,
            Err(reason) => r matches Err(x) && x@ == reason,
        },
{
    let mut parts = parts;
    if element.len() < 2 {
        return Err("invalid part in did:peer");
    }
    let first = element[0];
    let second = element[1];
    let rest = &element[2..element.len()];
    assert(rest@ =~= element@.skip(2));
    if first == 0x45 && second == 0x7a {
        let material = match base58_decode(rest) {
            Some(material) => material,
            None => {
                return Err("invalid encoded encryption key in did:peer");
            },
        };
        match read_key_material(material.as_slice(), 0xec, 0x20) {
            None => Err("invalid encryption key type in did:peer"),
            Some(key) => {
                parts.encryption_key = key;
                Ok(parts)
            },
        }
    } else if first == 0x56 && second == 0x7a {
        let material = match base58_decode(rest) {
            Some(material) => material,
            None => {
                return Err("invalid encoded verification key in did:peer");
            },
        };
        match read_key_material(material.as_slice(), 0xed, 0x20) {
            None => Err("invalid verification key type in did:peer"),
            Some(None) => Ok(parts),
            Some(Some(key)) => {
                parts.verifying_key = match ed25519_check_key(&key) {
                    Ok(()) => Some(key),
                    Err(_) => None,
                };
                Ok(parts)
            },
        }
    } else if first == 0x53 && second == 0x65 {
        let encoded = &element[1..element.len()];
        assert(encoded@ =~= element@.skip(1));
        let document = match base64url_decode(encoded) {
            Some(document) => document,
            None => {
                return Err("invalid encoded transport in did:peer");
            },
        };
        let kind = match json_lookup(document.as_slice(), "/t") {
            Some(kind) => kind,
            None => {
                return Err("invalid encoded transport in did:peer");
            },
        };
        let is_tsp = match &kind {
            Some(text) => crate::text::str_eq(text.as_str(), "tsp"),
            None => false,
        };
        if !is_tsp {
            return Err("invalid transport type in did:peer");
        }
        match json_lookup(document.as_slice(), "/s/uri") {
            Some(Some(uri)) => {
                parts.endpoint = match crate::vid::parse_url(uri.as_str()) {
                    Ok(endpoint) => Some(endpoint),
                    Err(_) => None,
                };
                Ok(parts)
            },
            _ => Ok(parts),
        }
    } else {
        Err("invalid part in did:peer")
    }
}

/// Resolves a `did:peer` identifier to the keys and the endpoint that it
/// carries.
pub fn verify_did_peer(id: &str) -> (r: Result<Vid, VidError>)
    ensures
        match did_peer_resolution(id@) {
            Ok(vid) => r matches Ok(x) && x@ == vid,
            Err(e) => r matches Err(x) && x@ == e,
        },
{
    let bytes = id.as_bytes();
    let prefix: [u8; 9] = [0x64u8, 0x69u8, 0x64u8, 0x3au8, 0x70u8, 0x65u8, 0x65u8, 0x72u8, 0x3au8];
    assert(prefix@ =~= did_peer_prefix());
    if !has_prefix(bytes, prefix.as_slice()) {
        return Err(VidError::InvalidVid(id.to_owned()));
    }
    let end = find_separator(bytes, 9, 0x3a);
    let method = &bytes[9..end];
    let first = find_separator(method, 0, 0x2e);
    let numalgo = &method[0..first];
    if !(numalgo.len() == 1 && numalgo[0] == 0x32) {
        assert(numalgo@ != seq![0x32u8]) by {
            if numalgo@.len() == 1 {
                assert(seq![0x32u8][0] == 0x32u8);
            } else {
                assert(seq![0x32u8].len() == 1);
            }
        }
        return Err(VidError::ResolveVid("only numalgo 2 is supported for did:peer"));
    }
    assert(numalgo@ =~= seq![0x32u8]);
    let mut parts = Collected { verifying_key: None, encryption_key: None, endpoint: None };
    let mut at: usize = first;
    let ghost start = parts@;
    while at < method.len()
        invariant
            at <= method@.len(),
            bytes@ == encode_utf8(id@),
            starts_with(bytes@, did_peer_prefix()),
            method@ == method_part(bytes@, 9),
            first == next_separator(method@, 0, 0x2e),
            method@.subrange(0, first as int) == seq![0x32u8],
            start == (PeerParts { verifying_key: None, encryption_key: None, endpoint: None }),
            peer_elements(method@, first as int, start) == peer_elements(
                method@,
                at as int,
                parts@,
            ),
        ensures
            peer_elements(method@, first as int, start) == Ok::<PeerParts, Seq<char>>(parts@),
        decreases method@.len() - at,
    {
        let next = find_separator(method, at + 1, 0x2e);
        parts = match read_peer_element(parts, &method[at + 1..next]) {
            Ok(more) => more,
            Err(reason) => {
                return Err(VidError::ResolveVid(reason));
            },
        };
        at = next;
    }
    let verifying_key = match parts.verifying_key {
        Some(key) => key,
        None => {
            return Err(VidError::ResolveVid("missing verification key in did:peer"));
        },
    };
    let encryption_key = match parts.encryption_key {
        Some(key) => key,
        None => {
            return Err(VidError::ResolveVid("missing encryption key in did:peer"));
        },
    };
    let endpoint = match parts.endpoint {
        Some(endpoint) => endpoint,
        None => {
            return Err(VidError::ResolveVid("missing transport in did:peer"));
        },
    };
    Ok(Vid::assemble(id.to_owned(), endpoint, verifying_key, encryption_key))
}


/// The bytes of `https://`.
pub open spec fn https_prefix() -> Seq<u8> {
    seq![0x68u8, 0x74u8, 0x74u8, 0x70u8, 0x73u8, 0x3au8, 0x2fu8, 0x2fu8]
}

/// The bytes of `/did.json`.
pub open spec fn document_suffix() -> Seq<u8> {
    seq![0x2fu8, 0x64u8, 0x69u8, 0x64u8, 0x2eu8, 0x6au8, 0x73u8, 0x6fu8, 0x6eu8]
}

/// A colon becomes a slash; every other byte stays.
pub open spec fn colon_to_slash(byte: u8) -> u8 {
    if byte == 0x3a {
        0x2fu8
    } else {
        byte
    }
}

/// Where the document of a `did:web` identifier is published: host and
/// path segments come after `did:web:`, separated by colons, and the
/// document lies at `https://<host>/<segments>/did.json`.
pub open spec fn did_web_location(name: Seq<u8>) -> Seq<u8> {
    https_prefix() + name.map_values(|byte: u8| colon_to_slash(byte)) + document_suffix()
}

/// The URL of the document of a `did:web` identifier, or why it has none:
/// the identifier names no host, or what it names is no URL.
pub open spec fn did_web_resolution(id: Seq<char>) -> Result<Seq<char>, VidErrorView> {
    let bytes = encode_utf8(id);
    if !starts_with(bytes, did_web_prefix()) {
        Err(VidErrorView::InvalidVid(id))
    } else {
        let name = bytes.skip(8);
        if name.len() == 0 || name[0] == 0x3a {
            Err(VidErrorView::InvalidVid(id))
        } else {
            match text_view(did_web_location(name)) {
                None => Err(VidErrorView::InvalidVid(id)),
                Some(location) => match url_normal_form(location) {
                    None => Err(VidErrorView::InvalidVid(id)),
                    Some(url) => Ok(url),
                },
            }
        }
    }
}

/// Tells where the document of a `did:web` identifier is published.
pub fn did_web_url(id: &str) -> (r: Result<String, VidError>)
    ensures
        match did_web_resolution(id@) {
            Ok(url) => r matches Ok(x) && x@ == url,
            Err(e) => r matches Err(x) && x@ == e,
        },
{
    let bytes = id.as_bytes();
    let prefix: [u8; 8] = [0x64u8, 0x69u8, 0x64u8, 0x3au8, 0x77u8, 0x65u8, 0x62u8, 0x3au8];
    assert(prefix@ =~= did_web_prefix());
    if !has_prefix(bytes, prefix.as_slice()) {
        return Err(VidError::InvalidVid(id.to_owned()));
    }
    let len = bytes.len();
    if len == 8 || bytes[8] == 0x3a {
        return Err(VidError::InvalidVid(id.to_owned()));
    }
    let ghost name = bytes@.skip(8);
    let scheme: [u8; 8] = [0x68u8, 0x74u8, 0x74u8, 0x70u8, 0x73u8, 0x3au8, 0x2fu8, 0x2fu8];
    let suffix: [u8; 9] = [0x2fu8, 0x64u8, 0x69u8, 0x64u8, 0x2eu8, 0x6au8, 0x73u8, 0x6fu8, 0x6eu8];
    let mut location: Vec<u8> = Vec::new();
    append_bytes(&mut location, scheme.as_slice());
    assert(location@ =~= https_prefix());
    let mut i: usize = 8;
    while i < len
        invariant
            8 <= i <= len,
            len == bytes@.len(),
            name == bytes@.skip(8),
            location@ == https_prefix() + name.subrange(0, i - 8).map_values(
                |byte: u8| colon_to_slash(byte),
            ),
        decreases len - i,
    {
        let byte = bytes[i];
        location.push(if byte == 0x3a { 0x2fu8 } else { byte });
        i += 1;
        assert(location@ =~= https_prefix() + name.subrange(0, i - 8).map_values(
            |byte: u8| colon_to_slash(byte),
        ));
    }
    assert(name.subrange(0, len - 8) =~= name);
    append_bytes(&mut location, suffix.as_slice());
    assert(location@ =~= did_web_location(name));
    let text = match text_of(location.as_slice()) {
        Some(text) => text,
        None => {
            return Err(VidError::InvalidVid(id.to_owned()));
        },
    };
    match crate::vid::parse_url(text) {
        Ok(url) => Ok(url),
        Err(_) => Err(VidError::InvalidVid(id.to_owned())),
    }
}

/// How an identifier is resolved.
#[derive(Debug)]
pub enum Resolution {
    /// By the document that is published at the URL.
    Web { url: String },
    /// The identifier carried everything itself.
    Peer(Vid),
}

/// The content of a `Resolution`.
pub enum ResolutionView {
    Web { url: Seq<char> },
    Peer(VidView),
}

impl View for Resolution {
    type V = ResolutionView;

    open spec fn view(&self) -> ResolutionView {
        match *self {
            Resolution::Web { url } => ResolutionView::Web { url: url@ },
            Resolution::Peer(vid) => ResolutionView::Peer(vid@),
        }
    }
}

/// How an identifier is resolved, by its method, or why it is not.
pub open spec fn resolution(id: Seq<char>) -> Result<ResolutionView, VidErrorView> {
    if starts_with(encode_utf8(id), did_web_prefix()) {
        match did_web_resolution(id) {
            Ok(url) => Ok(ResolutionView::Web { url }),
            Err(e) => Err(e),
        }
    } else if starts_with(encode_utf8(id), did_peer_prefix()) {
        match did_peer_resolution(id) {
            Ok(vid) => Ok(ResolutionView::Peer(vid)),
            Err(e) => Err(e),
        }
    } else {
        Err(VidErrorView::InvalidVid(id))
    }
}

/// Resolves an identifier as far as that takes no network: a `did:peer`
/// identifier fully, a `did:web` identifier to the URL of its document.
pub fn verify_vid(id: &str) -> (r: Result<Resolution, VidError>)
    ensures
        match resolution(id@) {
            Ok(resolved) => r matches Ok(x) && x@ == resolved,
            Err(e) => r matches Err(x) && x@ == e,
        },
{
    let bytes = id.as_bytes();
    let web: [u8; 8] = [0x64u8, 0x69u8, 0x64u8, 0x3au8, 0x77u8, 0x65u8, 0x62u8, 0x3au8];
    let peer: [u8; 9] = [0x64u8, 0x69u8, 0x64u8, 0x3au8, 0x70u8, 0x65u8, 0x65u8, 0x72u8, 0x3au8];
    assert(web@ =~= did_web_prefix());
    assert(peer@ =~= did_peer_prefix());
    if has_prefix(bytes, web.as_slice()) {
        match did_web_url(id) {
            Ok(url) => Ok(Resolution::Web { url }),
            Err(e) => Err(e),
        }
    } else if has_prefix(bytes, peer.as_slice()) {
        match verify_did_peer(id) {
            Ok(vid) => Ok(Resolution::Peer(vid)),
            Err(e) => Err(e),
        }
    } else {
        Err(VidError::InvalidVid(id.to_owned()))
    }
}

impl OwnedVid {
    /// Makes an owned identifier with freshly drawn keys whose name is the
    /// `did:peer` identifier of its own keys and endpoint.
    ///
    /// Fails exactly where the transport endpoint is no URL or too long to
    /// encode. Whatever keys were drawn, the public ones are those of the
    /// private ones.
    pub fn new_did_peer(transport: &str) -> (r: Result<OwnedVid, VidError>)
        ensures
            match url_normal_form(transport@) {
                None => r matches Err(e) && e@ == VidErrorView::InvalidEndpoint(transport@),
                Some(endpoint) => if encode_utf8(service_text(endpoint)).len() > MAX_SERVICE_LEN {
                    r matches Err(e) && e@ == VidErrorView::ResolveVid(
                        "transport too long for did:peer"@,
                    )
                } else {
                    r matches Ok(owned) && owned@.keys_match() && owned@.vid.endpoint == endpoint
                        && owned@.vid.identifier == did_peer_text(
                        owned@.vid.verifying_key,
                        owned@.vid.encryption_key,
                        endpoint,
                    )
                },
            },
    {
        let signing_key = ed25519_generate();
        let decryption_key = x25519_generate();
        let unnamed = match OwnedVid::from_keys("", transport, signing_key, decryption_key) {
            Ok(owned) => owned,
            Err(e) => {
                return Err(e);
            },
        };
        let id = match encode_did_peer(&unnamed) {
            Ok(id) => id,
            Err(e) => {
                return Err(e);
            },
        };
        let vid = Vid::assemble(
            id,
            unnamed.endpoint().to_owned(),
            *unnamed.verifying_key(),
            *unnamed.encryption_key(),
        );
        Ok(OwnedVid::assemble(vid, signing_key, decryption_key))
    }
}

} // verus!
