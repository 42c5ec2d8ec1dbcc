//! The steps of the store that a caller with a transport puts together:
//! nested identifiers, the messages of the relationship protocol, and the
//! endpoint on which to listen.

use crate::crypto::{CryptoError, seal_and_hash, sha256_digest};
use crate::definitions::{Digest, VerifiedVid};
use crate::did::{MAX_SERVICE_LEN, did_peer_text, service_text};
use crate::error::{Error, ErrorView};
use crate::payload::{Payload, PayloadView};
use crate::store::{
    RelationshipStatus, Store, VidContextView, choose_transform, private_of, refusal_between,
    sealed_between, with_status,
};
use crate::text::optional_str_view;
use crate::vid::{OwnedVid, VidErrorView, url_normal_form};
use vstd::prelude::*;
use vstd::utf8::encode_utf8;

verus! {

/// The thread identifier that a status carries, or zeros where it carries
/// none.
pub open spec fn thread_of(status: RelationshipStatus) -> Seq<u8> {
    match status {
        RelationshipStatus::Bidirectional(digest) => digest@,
        RelationshipStatus::Unidirectional(digest) => digest@,
        _ => Seq::new(32, |i: int| 0u8),
    }
}

/// The endpoint of the outermost parent of an identifier: the one that is
/// reached by going from parent to parent, at most `steps` times.
pub open spec fn outermost_endpoint(
    store: Map<Seq<char>, VidContextView>,
    id: Seq<char>,
    steps: nat,
) -> Result<Seq<char>, ErrorView>
    decreases steps,
{
    if !store.contains_key(id) {
        Err(ErrorView::UnverifiedVid(id))
    } else if steps > 0 && store[id].parent_vid is Some {
        outermost_endpoint(store, store[id].parent_vid->Some_0, (steps - 1) as nat)
    } else {
        Ok(store[id].vid.endpoint)
    }
}

/// Why no nested identifier can be made behind a parent, if anything: the
/// parent is none of ours, or its endpoint is no URL or too long to stand
/// in a `did:peer` identifier.
pub open spec fn nested_failure(store: Map<Seq<char>, VidContextView>, parent: Seq<char>) -> Option<
    ErrorView,
> {
    match private_of(store, parent) {
        Err(e) => Some(e),
        Ok(owned) => match url_normal_form(owned.vid.endpoint) {
            None => Some(ErrorView::Vid(VidErrorView::InvalidEndpoint(owned.vid.endpoint))),
            Some(endpoint) => if encode_utf8(service_text(endpoint)).len() > MAX_SERVICE_LEN {
                Some(ErrorView::Vid(VidErrorView::ResolveVid("transport too long for did:peer"@)))
            } else {
                None
            },
        },
    }
}

impl Store {
    /// Makes a nested identifier of ours behind a parent of ours: a
    /// `did:peer` identifier with fresh keys and the parent's endpoint in
    /// its normal form, with the parent and the relation set.
    pub fn create_private_nested_vid(&mut self, parent_vid: &str, relation_vid: Option<&str>) -> (r:
        Result<String, Error>)
        requires
            old(self).wf(),
        ensures
            final(self).wf(),
            match nested_failure(old(self)@, parent_vid@) {
                Some(e) => r matches Err(x) && x@ == e && final(self)@ == old(self)@,
                None => r matches Ok(id) && ({
                    let nested = final(self)@[id@].private->Some_0;
                    &&& final(self)@.contains_key(id@)
                    &&& final(self)@[id@].private is Some
                    &&& nested.keys_match()
                    &&& nested.vid.identifier == id@
                    &&& Some(nested.vid.endpoint) == url_normal_form(
                        old(self)@[parent_vid@].vid.endpoint,
                    )
                    &&& id@ == did_peer_text(
                        nested.vid.verifying_key,
                        nested.vid.encryption_key,
                        nested.vid.endpoint,
                    )
                    &&& final(self)@ == old(self)@.insert(
                        id@,
                        VidContextView {
                            parent_vid: Some(parent_vid@),
                            relation_vid: optional_str_view(relation_vid),
                            ..VidContextView::owned(nested)
                        },
                    )
                }),
            },
    {
        let nested = {
            let parent = match self.get_private_vid(parent_vid) {
                Ok(owned) => owned,
                Err(e) => {
                    return Err(e);
                },
            };
            match OwnedVid::new_did_peer(parent.endpoint()) {
                Ok(nested) => nested,
                Err(e) => {
                    return Err(Error::Vid(e));
                },
            }
        };
        let id = nested.identifier().to_owned();
        let ghost view = nested@;
        let ghost before = self@;
        match self.add_private_vid(nested) {
            Ok(()) => {},
            Err(e) => {
                return Err(e);
            },
        }
        match self.set_parent_for_vid(id.as_str(), Some(parent_vid)) {
            Ok(()) => {},
            Err(e) => {
                return Err(e);
            },
        }
        match self.set_relation_for_vid(id.as_str(), relation_vid) {
            Ok(()) => {},
            Err(e) => {
                return Err(e);
            },
        }
        assert(self@ =~= before.insert(
            id@,
            VidContextView {
                parent_vid: Some(parent_vid@),
                relation_vid: optional_str_view(relation_vid),
                ..VidContextView::owned(view)
            },
        ));
        Ok(id)
    }

    /// Seals a request for a relationship from one of ours to a receiver,
    /// directly, and gives the thread identifier that names the request:
    /// the SHA-256 digest of the sealed message.
    pub fn seal_relationship_request(&self, sender: &str, receiver: &str) -> (r: Result<
        (String, Vec<u8>, Digest),
        Error,
    >)
        requires
            self.wf(),
        ensures
            match private_of(self@, sender@) {
                Err(e) => r matches Err(x) && x@ == e,
                Ok(owned) => if !self@.contains_key(receiver@) {
                    r matches Err(x) && x@ == ErrorView::UnverifiedVid(receiver@)
                } else {
                    match r {
                        Ok((endpoint, bytes, thread_id)) => endpoint@
                            == self@[receiver@].vid.endpoint && sealed_between(
                            bytes@,
                            owned,
                            self@[receiver@].vid,
                            None,
                            PayloadView::RequestRelationship,
                        ) && thread_id@ == sha256_digest(bytes@),
                        Err(e) => e@ matches ErrorView::Crypto(c) && match refusal_between(
                            owned,
                            self@[receiver@].vid,
                            None,
                            PayloadView::RequestRelationship,
                        ) {
                            Some(refusal) => c == refusal,
                            None => c == CryptoError::Cryptographic,
                        },
                    }
                },
            },
    {
        let owned = match self.get_private_vid(sender) {
            Ok(owned) => owned,
            Err(e) => {
                return Err(e);
            },
        };
        let verified = match self.get_verified_vid(receiver) {
            Ok(verified) => verified,
            Err(e) => {
                return Err(e);
            },
        };
        match seal_and_hash(owned, verified, None, &Payload::RequestRelationship) {
            Ok((bytes, thread_id)) => Ok((verified.endpoint().to_owned(), bytes, thread_id)),
            Err(e) => Err(Error::Crypto(e)),
        }
    }

    /// Ends the relationship with a receiver on our side, and then seals
    /// the cancellation for it, with the thread identifier that the
    /// relationship had.
    ///
    /// Our side is ended first: where sealing fails after that, the
    /// relationship stays ended.
    pub fn start_relationship_cancel(&mut self, sender: &str, receiver: &str) -> (r: Result<
        (String, Vec<u8>),
        Error,
    >)
        requires
            old(self).wf(),
        ensures
            final(self).wf(),
            if !old(self)@.contains_key(receiver@) {
                r matches Err(x) && x@ == ErrorView::UnverifiedVid(receiver@) && final(self)@
                    == old(self)@
            } else {
                let payload = PayloadView::CancelRelationship {
                    thread_id: thread_of(old(self)@[receiver@].relation_status),
                };
                &&& final(self)@ == with_status(
                    old(self)@,
                    receiver@,
                    RelationshipStatus::Unrelated,
                )
                &&& match choose_transform(final(self)@, sender@, receiver@) {
                    Err(e) => r matches Err(x) && x@ == e,
                    Ok(transform) => match r {
                        Ok((endpoint, bytes)) => endpoint@ == transform.endpoint()
                            && transform.produces(None, payload, bytes@) && !transform.refused(
                            None,
                            payload,
                        ),
                        Err(e) => e@ matches ErrorView::Crypto(c) && transform.fails_with(
                            None,
                            payload,
                            c,
                        ),
                    },
                }
            },
    {
        let status = match self.get_vid(receiver) {
            Ok(context) => context.get_relation_status(),
            Err(e) => {
                return Err(e);
            },
        };
        let thread_id: Digest = match status {
            RelationshipStatus::Bidirectional(digest) => digest,
            RelationshipStatus::Unidirectional(digest) => digest,
            _ => {
                let zeros: Digest = [0u8; 32];
                assert(zeros@ =~= Seq::new(32, |i: int| 0u8));
                zeros
            },
        };
        match self.set_relation_status_for_vid(receiver, RelationshipStatus::Unrelated) {
            Ok(()) => {},
            Err(e) => {
                return Err(e);
            },
        }
        self.seal_message_payload(
            sender,
            receiver,
            None,
            &Payload::CancelRelationship { thread_id },
        )
    }

    /// The endpoint on which messages for one of ours arrive: that of its
    /// outermost parent.
    pub fn receive_endpoint(&self, vid: &str) -> (r: Result<String, Error>)
        requires
            self.wf(),
        ensures
            match private_of(self@, vid@) {
                Err(e) => r matches Err(x) && x@ == e,
                Ok(_) => match outermost_endpoint(self@, vid@, self.count()) {
                    Ok(endpoint) => r matches Ok(x) && x@ == endpoint,
                    Err(e) => r matches Err(x) && x@ == e,
                },
            },
    {
        match self.get_private_vid(vid) {
            Ok(_) => {},
            Err(e) => {
                return Err(e);
            },
        }
        let mut current: String = vid.to_owned();
        let mut steps: usize = self.len();
        loop
            invariant
                self.wf(),
                private_of(self@, vid@) is Ok,
                outermost_endpoint(self@, vid@, self.count()) == outermost_endpoint(
                    self@,
                    current@,
                    steps as nat,
                ),
            decreases steps,
        {
            let context = match self.get_vid(current.as_str()) {
                Ok(context) => context,
                Err(e) => {
                    return Err(e);
                },
            };
            let parent = match context.get_parent_vid() {
                Some(parent) => parent,
                None => {
                    return Ok(context.vid().endpoint().to_owned());
                },
            };
            if steps == 0 {
                return Ok(context.vid().endpoint().to_owned());
            }
            let next = parent.to_owned();
            current = next;
            steps -= 1;
        }
    }
}

} // verus!
