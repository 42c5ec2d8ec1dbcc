//! Verified identifiers and the identifiers that this process owns.

use crate::crypto::{
    ed25519_generate, ed25519_public, ed25519_public_key, x25519_generate, x25519_public,
    x25519_public_key,
};
use crate::definitions::{KeyData, Receiver, Sender, VerifiedVid, VidView};
use vstd::prelude::*;
use vstd::string::StringExecFns;

verus! {

/// The error type of `url::Url::parse`, `url::ParseError`. Nothing is
/// known of its values.
#[verifier::external_type_specification]
#[verifier::external_body]
pub struct ExUrlParseError(url::ParseError);

/// The normal form in which a URL is written, or `None` where the text is
/// no URL.
pub uninterp spec fn url_normal_form(text: Seq<char>) -> Option<Seq<char>>;

/// Calls `url::Url::parse` and writes the URL back as text: succeeds
/// exactly on the texts that are URLs, and the result is a function of the
/// text alone.
#[verifier::external_body]
pub(crate) fn parse_url(text: &str) -> (r: Result<String, url::ParseError>)
    ensures
        r is Ok <==> url_normal_form(text@) is Some,
        r is Ok ==> Some(r->Ok_0@) == url_normal_form(text@),
{
    url::Url::parse(text).map(String::from)
}

/// Why an identifier could not be made or resolved.
#[derive(Clone, Debug, PartialEq, Eq)]
pub enum VidError {
    /// The identifier is of no known scheme.
    InvalidVid(String),
    /// The identifier could not be resolved, for the reason given.
    ResolveVid(&'static str),
    /// The transport endpoint is no URL.
    InvalidEndpoint(String),
}

/// The texts that a `VidError` holds.
pub enum VidErrorView {
    InvalidVid(Seq<char>),
    ResolveVid(Seq<char>),
    InvalidEndpoint(Seq<char>),
}

impl View for VidError {
    type V = VidErrorView;

    open spec fn view(&self) -> VidErrorView {
        match *self {
            VidError::InvalidVid(id) => VidErrorView::InvalidVid(id@),
            VidError::ResolveVid(reason) => VidErrorView::ResolveVid(reason@),
            VidError::InvalidEndpoint(text) => VidErrorView::InvalidEndpoint(text@),
        }
    }
}

/// A verified identifier: it holds nothing that could prove ownership.
#[derive(Debug)]
pub struct Vid {
    id: String,
    transport: String,
    public_sigkey: KeyData,
    public_enckey: KeyData,
}

/// An identifier that this process owns: a verified identifier with the
/// two private keys that belong to it.
pub struct OwnedVid {
    vid: Vid,
    sigkey: KeyData,
    enckey: KeyData,
}

/// What is known of an owned identifier.
pub struct OwnedVidView {
    pub vid: VidView,
    pub signing_key: Seq<u8>,
    pub decryption_key: Seq<u8>,
}

impl OwnedVidView {
    /// The public keys are those of the private keys.
    pub open spec fn keys_match(self) -> bool {
        &&& self.vid.verifying_key == ed25519_public_key(self.signing_key)
        &&& self.vid.encryption_key == x25519_public_key(self.decryption_key)
    }
}

impl View for Vid {
    type V = VidView;

    closed spec fn view(&self) -> VidView {
        VidView {
            identifier: self.id@,
            endpoint: self.transport@,
            verifying_key: self.public_sigkey@,
            encryption_key: self.public_enckey@,
        }
    }
}

impl View for OwnedVid {
    type V = OwnedVidView;

    closed spec fn view(&self) -> OwnedVidView {
        OwnedVidView { vid: self.vid@, signing_key: self.sigkey@, decryption_key: self.enckey@ }
    }
}

impl Clone for Vid {
    fn clone(&self) -> (r: Self)
        ensures
            r@ == self@,
    {
        Vid {
            id: self.id.clone(),
            transport: self.transport.clone(),
            public_sigkey: self.public_sigkey,
            public_enckey: self.public_enckey,
        }
    }
}

impl Clone for OwnedVid {
    fn clone(&self) -> (r: Self)
        ensures
            r@ == self@,
    {
        OwnedVid { vid: self.vid.clone(), sigkey: self.sigkey, enckey: self.enckey }
    }
}

impl VerifiedVid for Vid {
    open spec fn vid_view(&self) -> VidView {
        self@
    }

    fn identifier(&self) -> (r: &str) {
        self.id.as_str()
    }

    fn endpoint(&self) -> (r: &str) {
        self.transport.as_str()
    }

    fn verifying_key(&self) -> (r: &KeyData) {
        &self.public_sigkey
    }

    fn encryption_key(&self) -> (r: &KeyData) {
        &self.public_enckey
    }
}

impl VerifiedVid for OwnedVid {
    open spec fn vid_view(&self) -> VidView {
        self@.vid
    }

    fn identifier(&self) -> (r: &str) {
        self.vid.identifier()
    }

    fn endpoint(&self) -> (r: &str) {
        self.vid.endpoint()
    }

    fn verifying_key(&self) -> (r: &KeyData) {
        self.vid.verifying_key()
    }

    fn encryption_key(&self) -> (r: &KeyData) {
        self.vid.encryption_key()
    }
}

impl Receiver for OwnedVid {
    open spec fn decryption_key_view(&self) -> Seq<u8> {
        self@.decryption_key
    }

    fn decryption_key(&self) -> (r: &KeyData) {
        &self.enckey
    }
}

impl Sender for OwnedVid {
    open spec fn signing_key_view(&self) -> Seq<u8> {
        self@.signing_key
    }

    fn signing_key(&self) -> (r: &KeyData) {
        &self.sigkey
    }
}

impl Vid {
    /// Puts a verified identifier together of parts that are known to be
    /// in order.
    pub(crate) fn assemble(
        id: String,
        endpoint: String,
        verifying_key: KeyData,
        encryption_key: KeyData,
    ) -> (r: Vid)
        ensures
            r@ == (VidView {
                identifier: id@,
                endpoint: endpoint@,
                verifying_key: verifying_key@,
                encryption_key: encryption_key@,
            }),
    {
        Vid { id, transport: endpoint, public_sigkey: verifying_key, public_enckey: encryption_key }
    }

    /// Makes a verified identifier of its parts.
    ///
    /// Fails exactly where the transport endpoint is no URL; the endpoint
    /// is kept in its normal form.
    pub fn new(id: &str, transport: &str, verifying_key: KeyData, encryption_key: KeyData) -> (r:
        Result<Vid, VidError>)
        ensures
            match url_normal_form(transport@) {
                Some(endpoint) => r matches Ok(vid) && vid@ == (VidView {
                    identifier: id@,
                    endpoint,
                    verifying_key: verifying_key@,
                    encryption_key: encryption_key@,
                }),
                None => r matches Err(VidError::InvalidEndpoint(t)) && t@ == transport@,
            },
    {
        match parse_url(transport) {
            Ok(endpoint) => Ok(
                Vid {
                    id: id.to_owned(),
                    transport: endpoint,
                    public_sigkey: verifying_key,
                    public_enckey: encryption_key,
                },
            ),
            Err(_) => Err(VidError::InvalidEndpoint(transport.to_owned())),
        }
    }
}

impl OwnedVid {
    /// Puts an owned identifier together of a verified identifier and the
    /// private keys that belong to it.
    pub(crate) fn assemble(vid: Vid, signing_key: KeyData, decryption_key: KeyData) -> (r: OwnedVid)
        ensures
            r@ == (OwnedVidView {
                vid: vid@,
                signing_key: signing_key@,
                decryption_key: decryption_key@,
            }),
    {
        OwnedVid { vid, sigkey: signing_key, enckey: decryption_key }
    }

    /// Makes an owned identifier of its parts and the two private keys; the
    /// public keys are derived from them.
    ///
    /// Fails exactly where the transport endpoint is no URL.
    pub fn from_keys(id: &str, transport: &str, signing_key: KeyData, decryption_key: KeyData) -> (r:
        Result<OwnedVid, VidError>)
        ensures
            match url_normal_form(transport@) {
                Some(endpoint) => r matches Ok(owned) && owned@ == (OwnedVidView {
                    vid: VidView {
                        identifier: id@,
                        endpoint,
                        verifying_key: ed25519_public_key(signing_key@),
                        encryption_key: x25519_public_key(decryption_key@),
                    },
                    signing_key: signing_key@,
                    decryption_key: decryption_key@,
                }) && owned@.keys_match(),
                None => r matches Err(VidError::InvalidEndpoint(t)) && t@ == transport@,
            },
    {
        let verifying_key = ed25519_public(&signing_key);
        let encryption_key = match x25519_public(&decryption_key) {
            Ok(key) => key,
            Err(_) => vstd::pervasive::unreached(),
        };
        match Vid::new(id, transport, verifying_key, encryption_key) {
            Ok(vid) => Ok(OwnedVid { vid, sigkey: signing_key, enckey: decryption_key }),
            Err(e) => Err(e),
        }
    }

    /// Binds an identifier and a transport endpoint to freshly drawn keys.
    ///
    /// Fails exactly where the transport endpoint is no URL. Whatever keys
    /// were drawn, the public ones are those of the private ones.
    pub fn bind(id: &str, transport: &str) -> (r: Result<OwnedVid, VidError>)
        ensures
            match url_normal_form(transport@) {
                Some(endpoint) => r matches Ok(owned) && owned@.vid.identifier == id@
                    && owned@.vid.endpoint == endpoint && owned@.keys_match(),
                None => r matches Err(VidError::InvalidEndpoint(t)) && t@ == transport@,
            },
    {
        let signing_key = ed25519_generate();
        let decryption_key = x25519_generate();
        OwnedVid::from_keys(id, transport, signing_key, decryption_key)
    }

    /// Describes the identifier without its private keys.
    pub fn redacted(&self) -> (r: String)
        ensures
            r@ == "PrivateVid { vid: "@ + self@.vid.identifier + ", transport: "@
                + self@.vid.endpoint + ", sigkey: <secret>, enckey: <secret> }"@,
    {
        let mut text = "PrivateVid { vid: ".to_owned();
        text.append(self.vid.identifier());
        text.append(", transport: ");
        text.append(self.vid.endpoint());
        text.append(", sigkey: <secret>, enckey: <secret> }");
        text
    }

    /// The verified identifier that is owned.
    pub fn vid(&self) -> (r: &Vid)
        ensures
            r@ == self@.vid,
    {
        &self.vid
    }

    /// Gives up the private keys.
    pub fn into_vid(self) -> (r: Vid)
        ensures
            r@ == self@.vid,
    {
        self.vid
    }
}

} // verus!
