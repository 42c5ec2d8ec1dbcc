//! The store: the verified and owned identifiers that this process knows,
//! each with the state of its relationship, and the sealing and opening of
//! messages that goes by that state.

use crate::cesr::{DecodeError, EnvelopeKind, EnvelopeType, probe, probe_kind};
use crate::crypto::{
    CryptoError, bytes_eq, ed25519_public_key, ed25519_signature, ed25519_verifies, is_sealed,
    open, open_result, seal, seal_refusal, sha256, sha256_digest, sign, signed_envelope,
    signed_message, verify, verify_result,
};
use crate::definitions::{
    Digest, MessageType, ReceivedTspMessage, ReceivedView, Receiver, VerifiedVid, VidView,
};
use crate::error::{Error, ErrorView};
use crate::payload::{Payload, PayloadView, hops_view, remaining_hops};
use crate::text::{
    optional_str_view, optional_text_view, optional_to_owned, str_eq, text_of, text_view,
    texts_view,
};
use crate::vid::{OwnedVid, OwnedVidView, Vid, VidErrorView};
use vstd::prelude::*;
use vstd::utf8::encode_utf8;

verus! {

/// How we stand with another identifier.
#[derive(Clone, Copy, Debug, PartialEq, Eq)]
pub enum RelationshipStatus {
    /// Reserved; nothing that arrives leads here.
    Controlled,
    /// Both sides agreed on the thread that the digest names.
    Bidirectional(Digest),
    /// We asked for a relationship; the digest names our request.
    Unidirectional(Digest),
    /// No relationship.
    Unrelated,
}

/// What the store keeps of one identifier.
pub struct VidContext {
    vid: Vid,
    private: Option<OwnedVid>,
    relation_status: RelationshipStatus,
    relation_vid: Option<String>,
    parent_vid: Option<String>,
    tunnel: Option<Vec<String>>,
}

/// The mathematical content of a `VidContext`.
pub struct VidContextView {
    /// What is publicly known of the identifier.
    pub vid: VidView,
    /// The owned identifier, where it is one of ours.
    pub private: Option<OwnedVidView>,
    /// How we stand with the identifier.
    pub relation_status: RelationshipStatus,
    /// The identifier of ours that we use towards this one.
    pub relation_vid: Option<Seq<char>>,
    /// The publicly known identifier behind this one, where it is nested.
    pub parent_vid: Option<Seq<char>>,
    /// The intermediaries through which messages to this one go.
    pub tunnel: Option<Seq<Seq<char>>>,
}

impl VidContextView {
    /// The context that a newly added verified identifier gets.
    pub open spec fn verified(vid: VidView) -> VidContextView {
        VidContextView {
            vid,
            private: None,
            relation_status: RelationshipStatus::Unrelated,
            relation_vid: None,
            parent_vid: None,
            tunnel: None,
        }
    }

    /// The context that a newly added owned identifier gets.
    pub open spec fn owned(private: OwnedVidView) -> VidContextView {
        VidContextView {
            vid: private.vid,
            private: Some(private),
            relation_status: RelationshipStatus::Unrelated,
            relation_vid: None,
            parent_vid: None,
            tunnel: None,
        }
    }

    /// An owned identifier is the verified one with its keys, and a route
    /// has at least two hops.
    pub open spec fn wf(self) -> bool {
        &&& self.private matches Some(private) ==> private.vid == self.vid
        &&& self.tunnel matches Some(route) ==> route.len() >= 2
    }
}

/// The texts of an optional list of strings.
pub open spec fn optional_texts_view(texts: Option<Vec<String>>) -> Option<Seq<Seq<char>>> {
    match texts {
        Some(t) => Some(texts_view(t@)),
        None => None,
    }
}

/// The content of an optional owned identifier.
pub open spec fn optional_owned_view(private: Option<OwnedVid>) -> Option<OwnedVidView> {
    match private {
        Some(p) => Some(p@),
        None => None,
    }
}

impl View for VidContext {
    type V = VidContextView;

    closed spec fn view(&self) -> VidContextView {
        VidContextView {
            vid: self.vid@,
            private: optional_owned_view(self.private),
            relation_status: self.relation_status,
            relation_vid: optional_text_view(self.relation_vid),
            parent_vid: optional_text_view(self.parent_vid),
            tunnel: optional_texts_view(self.tunnel),
        }
    }
}

impl VidContext {
    /// The verified identifier that the context is about.
    pub fn vid(&self) -> (r: &Vid)
        ensures
            r@ == self@.vid,
    {
        &self.vid
    }

    /// The publicly known identifier behind this one, where it is nested.
    pub fn get_parent_vid(&self) -> (r: Option<&str>)
        ensures
            optional_str_view(r) == self@.parent_vid,
    {
        match &self.parent_vid {
            Some(id) => Some(id.as_str()),
            None => None,
        }
    }

    /// The identifier of ours that we use towards this one.
    pub fn get_relation_vid(&self) -> (r: Option<&str>)
        ensures
            optional_str_view(r) == self@.relation_vid,
    {
        match &self.relation_vid {
            Some(id) => Some(id.as_str()),
            None => None,
        }
    }

    /// The intermediaries through which messages to this one go.
    pub fn get_route(&self) -> (r: Option<&Vec<String>>)
        ensures
            match r {
                Some(route) => self@.tunnel == Some(texts_view(route@)),
                None => self@.tunnel is None,
            },
    {
        match &self.tunnel {
            Some(route) => Some(route),
            None => None,
        }
    }

    /// How we stand with this one.
    pub fn get_relation_status(&self) -> (r: RelationshipStatus)
        ensures
            r == self@.relation_status,
    {
        self.relation_status
    }
}

/// Some entry is about the identifier.
pub open spec fn has_entry(entries: Seq<VidContextView>, id: Seq<char>) -> bool {
    exists|i: int| 0 <= i < entries.len() && (#[trigger] entries[i]).vid.identifier == id
}

/// The entry that is about the identifier.
pub open spec fn entry_of(entries: Seq<VidContextView>, id: Seq<char>) -> VidContextView {
    entries[choose|i: int| 0 <= i < entries.len() && (#[trigger] entries[i]).vid.identifier == id]
}

/// No two entries are about the same identifier.
pub open spec fn distinct_entries(entries: Seq<VidContextView>) -> bool {
    forall|i: int, j: int|
        0 <= i < j < entries.len() ==> (#[trigger] entries[i]).vid.identifier != (
        #[trigger] entries[j]).vid.identifier
}

/// The entries as a map from identifier to context.
pub open spec fn map_of(entries: Seq<VidContextView>) -> Map<Seq<char>, VidContextView> {
    Map::new(|id: Seq<char>| has_entry(entries, id), |id: Seq<char>| entry_of(entries, id))
}

/// Among distinct entries, each is the one that the map holds for its
/// identifier.
pub proof fn lemma_entry_found(entries: Seq<VidContextView>, i: int)
    requires
        distinct_entries(entries),
        0 <= i < entries.len(),
    ensures
        map_of(entries).contains_key(entries[i].vid.identifier),
        map_of(entries)[entries[i].vid.identifier] == entries[i],
{
    let id = entries[i].vid.identifier;
    assert(has_entry(entries, id));
    let j = choose|j: int| 0 <= j < entries.len() && (#[trigger] entries[j]).vid.identifier == id;
    assert(j == i);
}

/// Replacing an entry by one about the same identifier replaces it in the
/// map.
pub proof fn lemma_entry_replaced(
    entries: Seq<VidContextView>,
    i: int,
    context: VidContextView,
)
    requires
        distinct_entries(entries),
        0 <= i < entries.len(),
        context.vid.identifier == entries[i].vid.identifier,
    ensures
        distinct_entries(entries.update(i, context)),
        map_of(entries.update(i, context)) == map_of(entries).insert(
            context.vid.identifier,
            context,
        ),
{
    let after = entries.update(i, context);
    assert(distinct_entries(after)) by {
        assert forall|a: int, b: int| 0 <= a < b < after.len() implies (#[trigger] after[a]).vid.identifier
            != (#[trigger] after[b]).vid.identifier by {
            assert(after[a].vid.identifier == entries[a].vid.identifier);
            assert(after[b].vid.identifier == entries[b].vid.identifier);
        }
    }
    let expected = map_of(entries).insert(context.vid.identifier, context);
    assert forall|id: Seq<char>| map_of(after).contains_key(id) <==> expected.contains_key(
        id,
    ) by {
        if has_entry(after, id) {
            let j = choose|j: int|
                0 <= j < after.len() && (#[trigger] after[j]).vid.identifier == id;
            assert(entries[j].vid.identifier == id);
        }
        if has_entry(entries, id) {
            let j = choose|j: int|
                0 <= j < entries.len() && (#[trigger] entries[j]).vid.identifier == id;
            assert(after[j].vid.identifier == id);
        }
        if id == context.vid.identifier {
            assert(after[i].vid.identifier == id);
        }
    }
    assert forall|id: Seq<char>| map_of(after).contains_key(id) implies map_of(after)[id]
        == expected[id] by {
        let j = choose|j: int| 0 <= j < after.len() && (#[trigger] after[j]).vid.identifier == id;
        lemma_entry_found(after, j);
        if j != i {
            assert(entries[j] == after[j]);
            lemma_entry_found(entries, j);
        }
    }
    assert(map_of(after) =~= expected);
}

/// Adding an entry about an identifier that has none adds it to the map.
pub proof fn lemma_entry_added(entries: Seq<VidContextView>, context: VidContextView)
    requires
        distinct_entries(entries),
        !has_entry(entries, context.vid.identifier),
    ensures
        distinct_entries(entries.push(context)),
        map_of(entries.push(context)) == map_of(entries).insert(context.vid.identifier, context),
{
    let after = entries.push(context);
    let last = entries.len() as int;
    assert(distinct_entries(after)) by {
        assert forall|a: int, b: int| 0 <= a < b < after.len() implies (#[trigger] after[a]).vid.identifier
            != (#[trigger] after[b]).vid.identifier by {
            assert(after[a] == entries[a]);
            if b < last {
                assert(after[b] == entries[b]);
            }
        }
    }
    let expected = map_of(entries).insert(context.vid.identifier, context);
    assert forall|id: Seq<char>| map_of(after).contains_key(id) <==> expected.contains_key(
        id,
    ) by {
        if has_entry(after, id) {
            let j = choose|j: int|
                0 <= j < after.len() && (#[trigger] after[j]).vid.identifier == id;
            if j < last {
                assert(entries[j].vid.identifier == id);
            }
        }
        if has_entry(entries, id) {
            let j = choose|j: int|
                0 <= j < entries.len() && (#[trigger] entries[j]).vid.identifier == id;
            assert(after[j].vid.identifier == id);
        }
        if id == context.vid.identifier {
            assert(after[last].vid.identifier == id);
        }
    }
    assert forall|id: Seq<char>| map_of(after).contains_key(id) implies map_of(after)[id]
        == expected[id] by {
        let j = choose|j: int| 0 <= j < after.len() && (#[trigger] after[j]).vid.identifier == id;
        lemma_entry_found(after, j);
        if j < last {
            assert(entries[j] == after[j]);
            lemma_entry_found(entries, j);
        }
    }
    assert(map_of(after) =~= expected);
}

/// Distinct entries make a map of as many identifiers as there are
/// entries.
pub proof fn lemma_entries_counted(entries: Seq<VidContextView>)
    requires
        distinct_entries(entries),
    ensures
        map_of(entries).dom().finite(),
        map_of(entries).dom().len() == entries.len(),
    decreases entries.len(),
{
    if entries.len() == 0 {
        assert(map_of(entries).dom() =~= Set::<Seq<char>>::empty());
    } else {
        let earlier = entries.drop_last();
        let last = entries.last();
        lemma_entries_counted(earlier);
        assert(!has_entry(earlier, last.vid.identifier)) by {
            if has_entry(earlier, last.vid.identifier) {
                let j = choose|j: int|
                    0 <= j < earlier.len() && (#[trigger] earlier[j]).vid.identifier
                        == last.vid.identifier;
                assert(entries[j].vid.identifier == entries[entries.len() - 1].vid.identifier);
            }
        }
        lemma_entry_added(earlier, last);
        assert(earlier.push(last) =~= entries);
        assert(map_of(entries).dom() =~= map_of(earlier).dom().insert(last.vid.identifier));
    }
}

/// Holds the verified and the owned identifiers, and how we stand with
/// each of them.
pub struct Store {
    vids: Vec<VidContext>,
}

impl Default for Store {
    fn default() -> (r: Store)
        ensures
            r.wf(),
            r@ == Map::<Seq<char>, VidContextView>::empty(),
    {
        Store::new()
    }
}

impl View for Store {
    type V = Map<Seq<char>, VidContextView>;

    closed spec fn view(&self) -> Map<Seq<char>, VidContextView> {
        map_of(self.entries())
    }
}

impl Store {
    /// The contexts in the order in which they are kept.
    pub closed spec fn entries(&self) -> Seq<VidContextView> {
        Seq::new(self.vids@.len(), |i: int| self.vids@[i]@)
    }

    /// An identifier has at most one context, and each context is well
    /// formed.
    pub closed spec fn wf(&self) -> bool {
        &&& distinct_entries(self.entries())
        &&& forall|i: int| 0 <= i < self.entries().len() ==> (#[trigger] self.entries()[i]).wf()
    }

    /// Every context in a well-formed store is well formed.
    pub proof fn lemma_contexts_wf(&self, id: Seq<char>)
        requires
            self.wf(),
            self@.contains_key(id),
        ensures
            self@[id].wf(),
            self@[id].vid.identifier == id,
    {
        let entries = self.entries();
        let j = choose|j: int| 0 <= j < entries.len() && (#[trigger] entries[j]).vid.identifier == id;
        lemma_entry_found(entries, j);
    }

    /// The number of identifiers in the store.
    pub open spec fn count(&self) -> nat {
        self@.dom().len()
    }

    /// The number of identifiers in the store.
    pub fn len(&self) -> (r: usize)
        requires
            self.wf(),
        ensures
            r == self.count(),
            self@.dom().finite(),
    {
        proof {
            lemma_entries_counted(self.entries());
        }
        self.vids.len()
    }

    /// Makes an empty store.
    pub fn new() -> (r: Store)
        ensures
            r.wf(),
            r@ == Map::<Seq<char>, VidContextView>::empty(),
    {
        let r = Store { vids: Vec::new() };
        assert(r@ =~= Map::<Seq<char>, VidContextView>::empty());
        r
    }

    /// Where the context of an identifier is kept.
    fn position(&self, id: &str) -> (r: Option<usize>)
        ensures
            match r {
                Some(i) => i < self.entries().len() && self.entries()[i as int].vid.identifier
                    == id@,
                None => !has_entry(self.entries(), id@),
            },
    {
        let mut i: usize = 0;
        while i < self.vids.len()
            invariant
                i <= self.vids@.len(),
                forall|j: int| 0 <= j < i ==> (#[trigger] self.entries()[j]).vid.identifier != id@,
            decreases self.vids@.len() - i,
        {
            if str_eq(self.vids[i].vid.identifier(), id) {
                return Some(i);
            }
            i += 1;
        }
        None
    }

    /// Puts a context into the store, in place of the one that its
    /// identifier had, if it had one.
    fn insert(&mut self, context: VidContext)
        requires
            old(self).wf(),
            context@.wf(),
        ensures
            final(self).wf(),
            final(self)@ == old(self)@.insert(context@.vid.identifier, context@),
    {
        let ghost before = self.entries();
        match self.position(context.vid.identifier()) {
            Some(i) => {
                proof {
                    lemma_entry_replaced(before, i as int, context@);
                }
                self.vids[i] = context;
                assert(self.entries() =~= before.update(i as int, context@));
            },
            None => {
                proof {
                    lemma_entry_added(before, context@);
                }
                self.vids.push(context);
                assert(self.entries() =~= before.push(context@));
            },
        }
    }

    /// Adds a verified identifier to the store. Whatever the store held of
    /// that identifier is replaced.
    pub fn add_verified_vid(&mut self, verified_vid: Vid) -> (r: Result<(), Error>)
        requires
            old(self).wf(),
        ensures
            final(self).wf(),
            r is Ok,
            final(self)@ == old(self)@.insert(
                verified_vid@.identifier,
                VidContextView::verified(verified_vid@),
            ),
    {
        self.insert(
            VidContext {
                vid: verified_vid,
                private: None,
                relation_status: RelationshipStatus::Unrelated,
                relation_vid: None,
                parent_vid: None,
                tunnel: None,
            },
        );
        Ok(())
    }

    /// Adds an owned identifier to the store. Whatever the store held of
    /// that identifier is replaced.
    pub fn add_private_vid(&mut self, private_vid: OwnedVid) -> (r: Result<(), Error>)
        requires
            old(self).wf(),
        ensures
            final(self).wf(),
            r is Ok,
            final(self)@ == old(self)@.insert(
                private_vid@.vid.identifier,
                VidContextView::owned(private_vid@),
            ),
    {
        self.insert(
            VidContext {
                vid: private_vid.vid().clone(),
                private: Some(private_vid),
                relation_status: RelationshipStatus::Unrelated,
                relation_vid: None,
                parent_vid: None,
                tunnel: None,
            },
        );
        Ok(())
    }

    /// Whether the store holds the identifier as one of ours.
    pub open spec fn owns(&self, id: Seq<char>) -> bool {
        self@.contains_key(id) && self@[id].private is Some
    }

    /// The identifiers in the store, each once.
    pub fn list_vids(&self) -> (r: Result<Vec<String>, Error>)
        requires
            self.wf(),
        ensures
            r matches Ok(ids) && texts_view(ids@).no_duplicates() && texts_view(ids@).to_set()
                == self@.dom(),
    {
        let mut ids: Vec<String> = Vec::new();
        let mut i: usize = 0;
        while i < self.vids.len()
            invariant
                i <= self.vids@.len(),
                ids@.len() == i,
                forall|j: int| 0 <= j < i ==> (#[trigger] ids@[j])@ == self.entries()[j].vid.identifier,
            decreases self.vids@.len() - i,
        {
            ids.push(self.vids[i].vid.identifier().to_owned());
            i += 1;
        }
        proof {
            let texts = texts_view(ids@);
            let entries = self.entries();
            assert forall|a: int, b: int| 0 <= a < texts.len() && 0 <= b < texts.len() && a
                != b implies texts[a] != texts[b] by {
                assert(texts[a] == entries[a].vid.identifier);
                assert(texts[b] == entries[b].vid.identifier);
                if a < b {
                    assert(entries[a].vid.identifier != entries[b].vid.identifier);
                } else {
                    assert(entries[b].vid.identifier != entries[a].vid.identifier);
                }
            }
            assert forall|id: Seq<char>| texts.to_set().contains(id) <==> self@.dom().contains(
                id,
            ) by {
                if texts.contains(id) {
                    let j = choose|j: int| 0 <= j < texts.len() && texts[j] == id;
                    assert(entries[j].vid.identifier == id);
                }
                if has_entry(entries, id) {
                    let j = choose|j: int|
                        0 <= j < entries.len() && (#[trigger] entries[j]).vid.identifier == id;
                    assert(texts[j] == id);
                }
            }
            assert(texts.to_set() =~= self@.dom());
        }
        Ok(ids)
    }

    /// Names the publicly known identifier behind a nested one, or takes
    /// that name away.
    pub fn set_parent_for_vid(&mut self, vid: &str, parent_vid: Option<&str>) -> (r: Result<
        (),
        Error,
    >)
        requires
            old(self).wf(),
        ensures
            final(self).wf(),
            match r {
                Ok(()) => old(self)@.contains_key(vid@) && final(self)@ == old(self)@.insert(
                    vid@,
                    VidContextView { parent_vid: optional_str_view(parent_vid), ..old(self)@[vid@] },
                ),
                Err(e) => !old(self)@.contains_key(vid@) && e@ == ErrorView::UnverifiedVid(vid@)
                    && final(self)@ == old(self)@,
            },
    {
        let ghost before = self.entries();
        match self.position(vid) {
            Some(i) => {
                let ghost context = VidContextView {
                    parent_vid: optional_str_view(parent_vid),
                    ..before[i as int]
                };
                proof {
                    lemma_entry_found(before, i as int);
                    lemma_entry_replaced(before, i as int, context);
                }
                self.vids[i].parent_vid = optional_to_owned(parent_vid);
                assert(self.entries() =~= before.update(i as int, context));
                Ok(())
            },
            None => Err(Error::UnverifiedVid(vid.to_owned())),
        }
    }

    /// Names the identifier of ours that we use towards this one, or takes
    /// that name away.
    pub fn set_relation_for_vid(&mut self, vid: &str, relation_vid: Option<&str>) -> (r: Result<
        (),
        Error,
    >)
        requires
            old(self).wf(),
        ensures
            final(self).wf(),
            match r {
                Ok(()) => old(self)@.contains_key(vid@) && final(self)@ == old(self)@.insert(
                    vid@,
                    VidContextView {
                        relation_vid: optional_str_view(relation_vid),
                        ..old(self)@[vid@]
                    },
                ),
                Err(e) => !old(self)@.contains_key(vid@) && e@ == ErrorView::UnverifiedVid(vid@)
                    && final(self)@ == old(self)@,
            },
    {
        let ghost before = self.entries();
        match self.position(vid) {
            Some(i) => {
                let ghost context = VidContextView {
                    relation_vid: optional_str_view(relation_vid),
                    ..before[i as int]
                };
                proof {
                    lemma_entry_found(before, i as int);
                    lemma_entry_replaced(before, i as int, context);
                }
                self.vids[i].relation_vid = optional_to_owned(relation_vid);
                assert(self.entries() =~= before.update(i as int, context));
                Ok(())
            },
            None => Err(Error::UnverifiedVid(vid.to_owned())),
        }
    }

    /// Sets how we stand with an identifier.
    pub fn set_relation_status_for_vid(
        &mut self,
        vid: &str,
        relation_status: RelationshipStatus,
    ) -> (r: Result<(), Error>)
        requires
            old(self).wf(),
        ensures
            final(self).wf(),
            match r {
                Ok(()) => old(self)@.contains_key(vid@) && final(self)@ == old(self)@.insert(
                    vid@,
                    VidContextView { relation_status, ..old(self)@[vid@] },
                ),
                Err(e) => !old(self)@.contains_key(vid@) && e@ == ErrorView::UnverifiedVid(vid@)
                    && final(self)@ == old(self)@,
            },
    {
        let ghost before = self.entries();
        match self.position(vid) {
            Some(i) => {
                let ghost context = VidContextView { relation_status, ..before[i as int] };
                proof {
                    lemma_entry_found(before, i as int);
                    lemma_entry_replaced(before, i as int, context);
                }
                self.vids[i].relation_status = relation_status;
                assert(self.entries() =~= before.update(i as int, context));
                Ok(())
            },
            None => Err(Error::UnverifiedVid(vid.to_owned())),
        }
    }

    /// Sets the intermediaries through which messages to an identifier go.
    /// An empty route takes the route away.
    ///
    /// A route of exactly one hop is refused before anything else is
    /// looked at, and the store stays as it is.
    pub fn set_route_for_vid(&mut self, vid: &str, route: &[&str]) -> (r: Result<(), Error>)
        requires
            old(self).wf(),
        ensures
            final(self).wf(),
            match r {
                Ok(()) => route@.len() != 1 && old(self)@.contains_key(vid@) && final(self)@
                    == old(self)@.insert(
                    vid@,
                    VidContextView { tunnel: route_view(route@), ..old(self)@[vid@] },
                ),
                Err(e) => final(self)@ == old(self)@ && if route@.len() == 1 {
                    e@ == ErrorView::InvalidRoute("A route must have at least two VID's"@)
                } else {
                    !old(self)@.contains_key(vid@) && e@ == ErrorView::UnverifiedVid(vid@)
                },
            },
    {
        if route.len() == 1 {
            return Err(Error::InvalidRoute("A route must have at least two VID's".to_owned()));
        }
        let ghost before = self.entries();
        match self.position(vid) {
            Some(i) => {
                let ghost context = VidContextView { tunnel: route_view(route@), ..before[i as int] };
                proof {
                    lemma_entry_found(before, i as int);
                    lemma_entry_replaced(before, i as int, context);
                }
                let tunnel = if route.len() == 0 {
                    None
                } else {
                    let mut hops: Vec<String> = Vec::new();
                    let mut j: usize = 0;
                    while j < route.len()
                        invariant
                            j <= route@.len(),
                            hops@.len() == j,
                            forall|k: int| 0 <= k < j ==> (#[trigger] hops@[k])@ == route@[k]@,
                        decreases route@.len() - j,
                    {
                        hops.push(route[j].to_owned());
                        j += 1;
                    }
                    assert(texts_view(hops@) =~= strs_view(route@));
                    Some(hops)
                };
                self.vids[i].tunnel = tunnel;
                assert(self.entries() =~= before.update(i as int, context));
                Ok(())
            },
            None => Err(Error::UnverifiedVid(vid.to_owned())),
        }
    }

    /// Whether the store holds the identifier as one of ours.
    pub fn has_private_vid(&self, vid: &str) -> (r: Result<bool, Error>)
        requires
            self.wf(),
        ensures
            r matches Ok(owned) && owned == self.owns(vid@),
    {
        match self.position(vid) {
            Some(i) => {
                proof {
                    lemma_entry_found(self.entries(), i as int);
                }
                Ok(self.vids[i].private.is_some())
            },
            None => Ok(false),
        }
    }

    /// The context of an identifier.
    pub fn get_vid(&self, vid: &str) -> (r: Result<&VidContext, Error>)
        requires
            self.wf(),
        ensures
            match r {
                Ok(context) => self@.contains_key(vid@) && context@ == self@[vid@] && context@.wf()
                    && context@.vid.identifier == vid@,
                Err(e) => !self@.contains_key(vid@) && e@ == ErrorView::UnverifiedVid(vid@),
            },
    {
        match self.position(vid) {
            Some(i) => {
                proof {
                    lemma_entry_found(self.entries(), i as int);
                }
                Ok(&self.vids[i])
            },
            None => Err(Error::UnverifiedVid(vid.to_owned())),
        }
    }

    /// The owned identifier of that name.
    pub fn get_private_vid(&self, vid: &str) -> (r: Result<&OwnedVid, Error>)
        requires
            self.wf(),
        ensures
            match r {
                Ok(owned) => self.owns(vid@) && Some(owned@) == self@[vid@].private && owned@.vid
                    == self@[vid@].vid && owned@.vid.identifier == vid@,
                Err(e) => !self.owns(vid@) && e@ == private_failure(self@, vid@),
            },
    {
        match self.get_vid(vid) {
            Ok(context) => match &context.private {
                Some(private) => Ok(private),
                None => Err(Error::MissingPrivateVid(vid.to_owned())),
            },
            Err(e) => Err(e),
        }
    }

    /// The verified identifier of that name.
    pub fn get_verified_vid(&self, vid: &str) -> (r: Result<&Vid, Error>)
        requires
            self.wf(),
        ensures
            match r {
                Ok(verified) => self@.contains_key(vid@) && verified@ == self@[vid@].vid
                    && verified@.identifier == vid@,
                Err(e) => !self@.contains_key(vid@) && e@ == ErrorView::UnverifiedVid(vid@),
            },
    {
        match self.get_vid(vid) {
            Ok(context) => Ok(&context.vid),
            Err(e) => Err(e),
        }
    }
}

/// The texts of a list of string slices.
pub open spec fn strs_view(texts: Seq<&str>) -> Seq<Seq<char>> {
    Seq::new(texts.len(), |i: int| texts[i]@)
}

/// The route that a list of hops stands for: none where the list is empty.
pub open spec fn route_view(route: Seq<&str>) -> Option<Seq<Seq<char>>> {
    if route.len() == 0 {
        None
    } else {
        Some(strs_view(route))
    }
}

/// Why an identifier is not available as one of ours: the store does not
/// hold it, or holds it without private keys.
pub open spec fn private_failure(store: Map<Seq<char>, VidContextView>, id: Seq<char>) -> ErrorView {
    if store.contains_key(id) {
        ErrorView::MissingPrivateVid(id)
    } else {
        ErrorView::UnverifiedVid(id)
    }
}


/// How a message to a receiver is sent, and between whom.
pub enum Transform {
    /// One sealed message from the sender to the receiver.
    Direct { sender: OwnedVidView, receiver: VidView },
    /// A message signed between the inner identifiers, sealed between
    /// their parents.
    Nested {
        inner_sender: OwnedVidView,
        receiver: VidView,
        outer_sender: OwnedVidView,
        outer_receiver: VidView,
    },
    /// A message sealed for the receiver, sealed again for the first hop
    /// together with the hops that remain.
    Routed {
        inner_sender: OwnedVidView,
        receiver: VidView,
        outer_sender: OwnedVidView,
        first_hop: VidView,
        hops: Seq<Seq<u8>>,
    },
}

/// The identifiers of a route as they stand in messages.
pub open spec fn route_bytes(route: Seq<Seq<char>>) -> Seq<Seq<u8>> {
    Seq::new(route.len(), |i: int| encode_utf8(route[i]))
}

/// The owned identifier of that name, or why there is none.
pub open spec fn private_of(store: Map<Seq<char>, VidContextView>, id: Seq<char>) -> Result<
    OwnedVidView,
    ErrorView,
> {
    if store.contains_key(id) && store[id].private is Some {
        Ok(store[id].private->Some_0)
    } else {
        Err(private_failure(store, id))
    }
}

/// The error that says that an identifier could not be resolved.
pub open spec fn unresolved(reason: Seq<char>) -> ErrorView {
    ErrorView::Vid(VidErrorView::ResolveVid(reason))
}

/// How a routed message to a receiver is sent, by its route.
pub open spec fn routed_transform(
    store: Map<Seq<char>, VidContextView>,
    receiver: VidContextView,
    route: Seq<Seq<char>>,
) -> Result<Transform, ErrorView> {
    let first = route[0];
    if !store.contains_key(first) {
        Err(ErrorView::UnverifiedVid(first))
    } else if store[first].relation_vid is None {
        Err(unresolved("missing sender VID for first hop"@))
    } else if receiver.relation_vid is None {
        Err(unresolved("missing sender VID for receiver"@))
    } else {
        match private_of(store, receiver.relation_vid->Some_0) {
            Err(e) => Err(e),
            Ok(inner_sender) => match private_of(store, store[first].relation_vid->Some_0) {
                Err(e) => Err(e),
                Ok(outer_sender) => Ok(
                    Transform::Routed {
                        inner_sender,
                        receiver: receiver.vid,
                        outer_sender,
                        first_hop: store[first].vid,
                        hops: route_bytes(route.skip(1)),
                    },
                ),
            },
        }
    }
}

/// How a nested message to a receiver is sent, by its parent.
pub open spec fn nested_transform(
    store: Map<Seq<char>, VidContextView>,
    receiver: VidContextView,
    parent: Seq<char>,
) -> Result<Transform, ErrorView> {
    if receiver.relation_vid is None {
        Err(unresolved("missing sender VID for receiver"@))
    } else {
        let inner = receiver.relation_vid->Some_0;
        if !store.contains_key(inner) {
            Err(ErrorView::UnverifiedVid(inner))
        } else if store[inner].parent_vid is None {
            Err(unresolved("missing parent for inner VID"@))
        } else {
            match private_of(store, inner) {
                Err(e) => Err(e),
                Ok(inner_sender) => match private_of(store, store[inner].parent_vid->Some_0) {
                    Err(e) => Err(e),
                    Ok(outer_sender) => if !store.contains_key(parent) {
                        Err(ErrorView::UnverifiedVid(parent))
                    } else {
                        Ok(
                            Transform::Nested {
                                inner_sender,
                                receiver: receiver.vid,
                                outer_sender,
                                outer_receiver: store[parent].vid,
                            },
                        )
                    },
                },
            }
        }
    }
}

/// How a message from a sender to a receiver is sent. The sender must be
/// one of ours and the receiver known. A route on the receiver makes it
/// routed; else a parent makes it nested; else it is direct.
pub open spec fn choose_transform(
    store: Map<Seq<char>, VidContextView>,
    sender: Seq<char>,
    receiver: Seq<char>,
) -> Result<Transform, ErrorView> {
    match private_of(store, sender) {
        Err(e) => Err(e),
        Ok(owned) => if !store.contains_key(receiver) {
            Err(ErrorView::UnverifiedVid(receiver))
        } else {
            match store[receiver].tunnel {
                Some(route) => routed_transform(store, store[receiver], route),
                None => match store[receiver].parent_vid {
                    Some(parent) => nested_transform(store, store[receiver], parent),
                    None => Ok(Transform::Direct { sender: owned, receiver: store[receiver].vid }),
                },
            }
        },
    }
}

/// `bytes` is the payload sealed by `sender` for `receiver`.
pub open spec fn sealed_between(
    bytes: Seq<u8>,
    sender: OwnedVidView,
    receiver: VidView,
    nonconfidential_data: Option<Seq<u8>>,
    payload: PayloadView,
) -> bool {
    is_sealed(
        bytes,
        encode_utf8(sender.vid.identifier),
        sender.signing_key,
        encode_utf8(receiver.identifier),
        receiver.encryption_key,
        nonconfidential_data,
        payload,
    )
}

/// What `sender` owes for `receiver` to its input alone, if anything.
pub open spec fn refusal_between(
    sender: OwnedVidView,
    receiver: VidView,
    nonconfidential_data: Option<Seq<u8>>,
    payload: PayloadView,
) -> Option<CryptoError> {
    seal_refusal(
        encode_utf8(sender.vid.identifier),
        encode_utf8(receiver.identifier),
        nonconfidential_data,
        payload,
    )
}

/// The inner message of a nested send: the message of the payload, signed
/// by the inner sender and addressed to the receiver.
pub open spec fn nested_inner(
    inner_sender: OwnedVidView,
    receiver: VidView,
    payload: PayloadView,
) -> Seq<u8> {
    signed_message(
        signed_envelope(
            encode_utf8(inner_sender.vid.identifier),
            Some(encode_utf8(receiver.identifier)),
            payload.message(),
        ),
        inner_sender.signing_key,
    )
}

impl Transform {
    /// Where the message goes.
    pub open spec fn endpoint(self) -> Seq<char> {
        match self {
            Transform::Direct { receiver, .. } => receiver.endpoint,
            Transform::Nested { outer_receiver, .. } => outer_receiver.endpoint,
            Transform::Routed { first_hop, .. } => first_hop.endpoint,
        }
    }

    /// `bytes` is an outcome of sending the payload this way.
    pub open spec fn produces(
        self,
        nonconfidential_data: Option<Seq<u8>>,
        payload: PayloadView,
        bytes: Seq<u8>,
    ) -> bool {
        match self {
            Transform::Direct { sender, receiver } => sealed_between(
                bytes,
                sender,
                receiver,
                nonconfidential_data,
                payload,
            ),
            Transform::Nested { inner_sender, receiver, outer_sender, outer_receiver } => {
                let envelope = signed_envelope(
                    encode_utf8(inner_sender.vid.identifier),
                    Some(encode_utf8(receiver.identifier)),
                    payload.message(),
                );
                &&& envelope.encodable()
                &&& ed25519_signature(inner_sender.signing_key, envelope.signed_bytes()).len()
                    == crate::cesr::SIGNATURE_LEN
                &&& ed25519_verifies(
                    ed25519_public_key(inner_sender.signing_key),
                    envelope.signed_bytes(),
                    ed25519_signature(inner_sender.signing_key, envelope.signed_bytes()),
                )
                &&& sealed_between(
                    bytes,
                    outer_sender,
                    outer_receiver,
                    nonconfidential_data,
                    PayloadView::NestedMessage(nested_inner(inner_sender, receiver, payload)),
                )
            },
            Transform::Routed { inner_sender, receiver, outer_sender, first_hop, hops } => exists|
                inner: Seq<u8>,
            |
                #![trigger sealed_between(inner, inner_sender, receiver, nonconfidential_data, payload)]
                sealed_between(inner, inner_sender, receiver, nonconfidential_data, payload)
                    && sealed_between(
                    bytes,
                    outer_sender,
                    first_hop,
                    None,
                    PayloadView::RoutedMessage(hops, inner),
                ),
        }
    }

    /// The failure is one that sending this way can end in: what the input
    /// owes to the first seal or signature, or else to the second seal, or
    /// a failure to encrypt.
    pub open spec fn fails_with(
        self,
        nonconfidential_data: Option<Seq<u8>>,
        payload: PayloadView,
        error: CryptoError,
    ) -> bool {
        match self {
            Transform::Direct { sender, receiver } => match refusal_between(
                sender,
                receiver,
                nonconfidential_data,
                payload,
            ) {
                Some(e) => error == e,
                None => error == CryptoError::Cryptographic,
            },
            Transform::Nested { inner_sender, receiver, outer_sender, outer_receiver } => {
                let envelope = signed_envelope(
                    encode_utf8(inner_sender.vid.identifier),
                    Some(encode_utf8(receiver.identifier)),
                    payload.message(),
                );
                if !envelope.encodable() {
                    error == CryptoError::Encode(crate::cesr::EncodeError::PartTooLong)
                } else {
                    match refusal_between(
                        outer_sender,
                        outer_receiver,
                        nonconfidential_data,
                        PayloadView::NestedMessage(nested_inner(inner_sender, receiver, payload)),
                    ) {
                        Some(e) => error == e,
                        None => error == CryptoError::Cryptographic,
                    }
                }
            },
            Transform::Routed { inner_sender, receiver, .. } => match refusal_between(
                inner_sender,
                receiver,
                nonconfidential_data,
                payload,
            ) {
                Some(e) => error == e,
                None => error == CryptoError::Cryptographic || Some(error) == self.outer_refusal(
                    nonconfidential_data,
                    payload,
                ),
            },
        }
    }

    /// Sending this way cannot succeed, whatever the encryption does.
    pub open spec fn refused(self, nonconfidential_data: Option<Seq<u8>>, payload: PayloadView) -> bool {
        match self {
            Transform::Direct { sender, receiver } => refusal_between(
                sender,
                receiver,
                nonconfidential_data,
                payload,
            ) is Some,
            Transform::Nested { inner_sender, receiver, outer_sender, outer_receiver } => {
                let envelope = signed_envelope(
                    encode_utf8(inner_sender.vid.identifier),
                    Some(encode_utf8(receiver.identifier)),
                    payload.message(),
                );
                !envelope.encodable() || refusal_between(
                    outer_sender,
                    outer_receiver,
                    nonconfidential_data,
                    PayloadView::NestedMessage(nested_inner(inner_sender, receiver, payload)),
                ) is Some
            },
            Transform::Routed { inner_sender, receiver, .. } => refusal_between(
                inner_sender,
                receiver,
                nonconfidential_data,
                payload,
            ) is Some || self.outer_refusal(nonconfidential_data, payload) is Some,
        }
    }

    /// What the outer seal of a routed send owes to its input alone, if
    /// anything: it carries the hops and an inner message whose length is
    /// that of the payload sealed for the receiver.
    pub open spec fn outer_refusal(
        self,
        nonconfidential_data: Option<Seq<u8>>,
        payload: PayloadView,
    ) -> Option<CryptoError>
        recommends
            self is Routed,
    {
        refusal_between(
            self->Routed_outer_sender,
            self->Routed_first_hop,
            None,
            PayloadView::RoutedMessage(
                self->Routed_hops,
                Seq::new(
                    crate::crypto::sealed_len(
                        encode_utf8(self->Routed_inner_sender.vid.identifier),
                        encode_utf8(self->Routed_receiver.identifier),
                        nonconfidential_data,
                        payload,
                    ),
                    |i: int| 0u8,
                ),
            ),
        )
    }
}

/// Copies the hops of a route after the first as they stand in messages.
fn later_hops(route: &Vec<String>) -> (r: Vec<Vec<u8>>)
    requires
        route@.len() >= 1,
    ensures
        hops_view(r@) == route_bytes(texts_view(route@).skip(1)),
{
    let mut hops: Vec<Vec<u8>> = Vec::new();
    let mut i: usize = 1;
    while i < route.len()
        invariant
            1 <= i <= route@.len(),
            hops@.len() == i - 1,
            forall|j: int| 0 <= j < i - 1 ==> (#[trigger] hops@[j])@ == encode_utf8(route@[j + 1]@),
        decreases route@.len() - i,
    {
        hops.push(vstd::slice::slice_to_vec(route[i].as_str().as_bytes()));
        i += 1;
    }
    assert(hops_view(hops@) =~= route_bytes(texts_view(route@).skip(1)));
    hops
}

impl Store {
    /// Seals a payload from a sender to a receiver in the way that the
    /// receiver's context asks for, and says where to send it.
    ///
    /// The store alone decides the way and every failure to resolve an
    /// identifier. Whatever comes back then is an outcome of sending the
    /// payload that way, or a failure to encode or to encrypt.
    pub fn seal_message_payload(
        &self,
        sender: &str,
        receiver: &str,
        nonconfidential_data: Option<&[u8]>,
        payload: &Payload,
    ) -> (r: Result<(String, Vec<u8>), Error>)
        requires
            self.wf(),
        ensures
            match choose_transform(self@, sender@, receiver@) {
                Err(e) => r matches Err(x) && x@ == e,
                Ok(transform) => match r {
                    Ok((endpoint, bytes)) => endpoint@ == transform.endpoint()
                        && transform.produces(
                        crate::cesr::optional_view(nonconfidential_data),
                        payload@,
                        bytes@,
                    ) && !transform.refused(
                        crate::cesr::optional_view(nonconfidential_data),
                        payload@,
                    ),
                    Err(e) => e@ matches ErrorView::Crypto(c) && transform.fails_with(
                        crate::cesr::optional_view(nonconfidential_data),
                        payload@,
                        c,
                    ),
                },
            },
    {
        let owned = match self.get_private_vid(sender) {
            Ok(owned) => owned,
            Err(e) => {
                return Err(e);
            },
        };
        let receiver_context = match self.get_vid(receiver) {
            Ok(context) => context,
            Err(e) => {
                return Err(e);
            },
        };
        match &receiver_context.tunnel {
            Some(route) => self.seal_routed(receiver_context, route, nonconfidential_data, payload),
            None => match &receiver_context.parent_vid {
                Some(parent) => self.seal_nested(
                    receiver_context,
                    parent.as_str(),
                    nonconfidential_data,
                    payload,
                ),
                None => match seal(owned, &receiver_context.vid, nonconfidential_data, payload) {
                    Ok(bytes) => Ok((receiver_context.vid.endpoint().to_owned(), bytes)),
                    Err(e) => Err(Error::Crypto(e)),
                },
            },
        }
    }

    /// Seals a payload for a receiver that is reached through a route.
    fn seal_routed(
        &self,
        receiver: &VidContext,
        route: &Vec<String>,
        nonconfidential_data: Option<&[u8]>,
        payload: &Payload,
    ) -> (r: Result<(String, Vec<u8>), Error>)
        requires
            self.wf(),
            receiver@.wf(),
            receiver@.tunnel == Some(texts_view(route@)),
        ensures
            match routed_transform(self@, receiver@, texts_view(route@)) {
                Err(e) => r matches Err(x) && x@ == e,
                Ok(transform) => match r {
                    Ok((endpoint, bytes)) => endpoint@ == transform.endpoint()
                        && transform.produces(
                        crate::cesr::optional_view(nonconfidential_data),
                        payload@,
                        bytes@,
                    ) && !transform.refused(
                        crate::cesr::optional_view(nonconfidential_data),
                        payload@,
                    ),
                    Err(e) => e@ matches ErrorView::Crypto(c) && transform.fails_with(
                        crate::cesr::optional_view(nonconfidential_data),
                        payload@,
                        c,
                    ),
                },
            },
    {
        let first_hop = match self.get_vid(route[0].as_str()) {
            Ok(context) => context,
            Err(e) => {
                return Err(e);
            },
        };
        let first_sender = match &first_hop.relation_vid {
            Some(id) => id,
            None => {
                return Err(
                    Error::Vid(crate::vid::VidError::ResolveVid("missing sender VID for first hop")),
                );
            },
        };
        let inner_sender = match &receiver.relation_vid {
            Some(id) => id,
            None => {
                return Err(
                    Error::Vid(crate::vid::VidError::ResolveVid("missing sender VID for receiver")),
                );
            },
        };
        let inner_sender = match self.get_private_vid(inner_sender.as_str()) {
            Ok(owned) => owned,
            Err(e) => {
                return Err(e);
            },
        };
        let first_sender = match self.get_private_vid(first_sender.as_str()) {
            Ok(owned) => owned,
            Err(e) => {
                return Err(e);
            },
        };
        let inner = match seal(inner_sender, &receiver.vid, nonconfidential_data, payload) {
            Ok(bytes) => bytes,
            Err(e) => {
                return Err(Error::Crypto(e));
            },
        };
        let ghost inner_bytes = inner@;
        let outer_payload = Payload::RoutedMessage(later_hops(route), inner);
        proof {
            let nc = crate::cesr::optional_view(nonconfidential_data);
            crate::crypto::lemma_sealed_len(
                inner_bytes,
                encode_utf8(inner_sender@.vid.identifier),
                inner_sender@.signing_key,
                encode_utf8(receiver@.vid.identifier),
                receiver@.vid.encryption_key,
                nc,
                payload@,
            );
            crate::crypto::lemma_routed_refusal_by_length(
                encode_utf8(first_sender@.vid.identifier),
                encode_utf8(first_hop@.vid.identifier),
                None,
                route_bytes(texts_view(route@).skip(1)),
                inner_bytes,
                Seq::new(inner_bytes.len(), |i: int| 0u8),
            );
        }
        match seal(first_sender, &first_hop.vid, None, &outer_payload) {
            Ok(bytes) => {
                assert(sealed_between(
                    inner_bytes,
                    inner_sender@,
                    receiver@.vid,
                    crate::cesr::optional_view(nonconfidential_data),
                    payload@,
                ));
                Ok((first_hop.vid.endpoint().to_owned(), bytes))
            },
            Err(e) => Err(Error::Crypto(e)),
        }
    }

    /// Seals a payload for a receiver that is nested behind a parent.
    fn seal_nested(
        &self,
        receiver: &VidContext,
        parent: &str,
        nonconfidential_data: Option<&[u8]>,
        payload: &Payload,
    ) -> (r: Result<(String, Vec<u8>), Error>)
        requires
            self.wf(),
            receiver@.wf(),
        ensures
            match nested_transform(self@, receiver@, parent@) {
                Err(e) => r matches Err(x) && x@ == e,
                Ok(transform) => match r {
                    Ok((endpoint, bytes)) => endpoint@ == transform.endpoint()
                        && transform.produces(
                        crate::cesr::optional_view(nonconfidential_data),
                        payload@,
                        bytes@,
                    ) && !transform.refused(
                        crate::cesr::optional_view(nonconfidential_data),
                        payload@,
                    ),
                    Err(e) => e@ matches ErrorView::Crypto(c) && transform.fails_with(
                        crate::cesr::optional_view(nonconfidential_data),
                        payload@,
                        c,
                    ),
                },
            },
    {
        let inner_id = match &receiver.relation_vid {
            Some(id) => id,
            None => {
                return Err(
                    Error::Vid(crate::vid::VidError::ResolveVid("missing sender VID for receiver")),
                );
            },
        };
        let sender_context = match self.get_vid(inner_id.as_str()) {
            Ok(context) => context,
            Err(e) => {
                return Err(e);
            },
        };
        let parent_sender = match &sender_context.parent_vid {
            Some(id) => id,
            None => {
                return Err(
                    Error::Vid(crate::vid::VidError::ResolveVid("missing parent for inner VID")),
                );
            },
        };
        let inner_sender = match self.get_private_vid(inner_id.as_str()) {
            Ok(owned) => owned,
            Err(e) => {
                return Err(e);
            },
        };
        let parent_sender = match self.get_private_vid(parent_sender.as_str()) {
            Ok(owned) => owned,
            Err(e) => {
                return Err(e);
            },
        };
        let parent_receiver = match self.get_verified_vid(parent) {
            Ok(verified) => verified,
            Err(e) => {
                return Err(e);
            },
        };
        let inner = match sign(inner_sender, Some(&receiver.vid), payload.as_bytes()) {
            Ok(bytes) => bytes,
            Err(e) => {
                return Err(Error::Crypto(e));
            },
        };
        let outer_payload = Payload::NestedMessage(inner);
        match seal(parent_sender, parent_receiver, nonconfidential_data, &outer_payload) {
            Ok(bytes) => Ok((parent_receiver.endpoint().to_owned(), bytes)),
            Err(e) => Err(Error::Crypto(e)),
        }
    }

    /// Seals a user message from a sender to a receiver in the way that the
    /// receiver's context asks for, and says where to send it.
    pub fn seal_message(
        &self,
        sender: &str,
        receiver: &str,
        nonconfidential_data: Option<&[u8]>,
        message: &[u8],
    ) -> (r: Result<(String, Vec<u8>), Error>)
        requires
            self.wf(),
        ensures
            match choose_transform(self@, sender@, receiver@) {
                Err(e) => r matches Err(x) && x@ == e,
                Ok(transform) => match r {
                    Ok((endpoint, bytes)) => endpoint@ == transform.endpoint()
                        && transform.produces(
                        crate::cesr::optional_view(nonconfidential_data),
                        PayloadView::Content(message@),
                        bytes@,
                    ) && !transform.refused(
                        crate::cesr::optional_view(nonconfidential_data),
                        PayloadView::Content(message@),
                    ),
                    Err(e) => e@ matches ErrorView::Crypto(c) && transform.fails_with(
                        crate::cesr::optional_view(nonconfidential_data),
                        PayloadView::Content(message@),
                        c,
                    ),
                },
            },
    {
        let payload = Payload::Content(vstd::slice::slice_to_vec(message));
        self.seal_message_payload(sender, receiver, nonconfidential_data, &payload)
    }
}


/// What one layer of a message holds: a received message, or an inner
/// message to open in turn.
pub enum Layer {
    Message(ReceivedView),
    Inner(Seq<u8>),
}

/// What opening one layer of a message gives, and the store after it.
pub struct LayerOutcome {
    pub result: Result<Layer, ErrorView>,
    pub store: Map<Seq<char>, VidContextView>,
}

/// What opening a message gives, and the store after it.
pub struct Outcome {
    pub result: Result<ReceivedView, ErrorView>,
    pub store: Map<Seq<char>, VidContextView>,
}

/// The error that says that a relationship message does not fit.
pub open spec fn misfit(reason: Seq<char>) -> ErrorView {
    ErrorView::Relationship(reason)
}

/// The identifier that bytes name, where the store knows it.
pub open spec fn known_vid(store: Map<Seq<char>, VidContextView>, bytes: Seq<u8>) -> Result<
    Seq<char>,
    ErrorView,
> {
    match text_view(bytes) {
        None => Err(ErrorView::Utf8),
        Some(id) => if store.contains_key(id) {
            Ok(id)
        } else {
            Err(ErrorView::UnverifiedVid(id))
        },
    }
}

/// The identifier that bytes name, where it is one of ours.
pub open spec fn our_vid(store: Map<Seq<char>, VidContextView>, bytes: Seq<u8>) -> Result<
    Seq<char>,
    ErrorView,
> {
    match text_view(bytes) {
        None => Err(ErrorView::Utf8),
        Some(id) => if store.contains_key(id) && store[id].private is Some {
            Ok(id)
        } else {
            Err(ErrorView::Crypto(CryptoError::UnexpectedRecipient))
        },
    }
}

/// The store with another status for an identifier.
pub open spec fn with_status(
    store: Map<Seq<char>, VidContextView>,
    id: Seq<char>,
    relation_status: RelationshipStatus,
) -> Map<Seq<char>, VidContextView> {
    store.insert(id, VidContextView { relation_status, ..store[id] })
}

/// What the acceptance of a relationship does to our status with its
/// sender: a request of ours with the same thread identifier becomes a
/// relationship in both directions; anything else is refused.
pub open spec fn accept_transition(status: RelationshipStatus, thread_id: Seq<u8>) -> Result<
    RelationshipStatus,
    ErrorView,
> {
    match status {
        RelationshipStatus::Unidirectional(digest) => if digest@ == thread_id {
            Ok(RelationshipStatus::Bidirectional(digest))
        } else {
            Err(misfit("attempt to change the terms of the relationship"@))
        },
        _ => Err(misfit("received confirmation of a relation that we did not want"@)),
    }
}

/// What the cancellation of a relationship does to our status with its
/// sender: a request or a relationship with the same thread identifier
/// ends; one with another thread identifier is refused; where there is
/// none, nothing changes.
pub open spec fn cancel_transition(status: RelationshipStatus, thread_id: Seq<u8>) -> Result<
    RelationshipStatus,
    ErrorView,
> {
    match status {
        RelationshipStatus::Bidirectional(digest) => if digest@ == thread_id {
            Ok(RelationshipStatus::Unrelated)
        } else {
            Err(misfit("invalid attempt to end the relationship"@))
        },
        RelationshipStatus::Unidirectional(digest) => if digest@ == thread_id {
            Ok(RelationshipStatus::Unrelated)
        } else {
            Err(misfit("invalid attempt to end the relationship"@))
        },
        other => Ok(other),
    }
}

/// What a payload that was opened leads to.
pub open spec fn dispatch(
    store: Map<Seq<char>, VidContextView>,
    sender: Seq<char>,
    nonconfidential_data: Option<Seq<u8>>,
    payload: PayloadView,
    message: Seq<u8>,
) -> LayerOutcome {
    match payload {
        PayloadView::Content(content) => LayerOutcome {
            result: Ok(
                Layer::Message(
                    ReceivedView::GenericMessage {
                        sender,
                        nonconfidential_data,
                        message: content,
                        message_type: MessageType::SignedAndEncrypted,
                    },
                ),
            ),
            store,
        },
        PayloadView::NestedMessage(inner) => LayerOutcome { result: Ok(Layer::Inner(inner)), store },
        PayloadView::RoutedMessage(hops, inner) => if hops.len() == 0 {
            LayerOutcome {
                result: Err(ErrorView::InvalidRoute("A routed message must name its next hop"@)),
                store,
            }
        } else {
            match known_vid(store, hops[0]) {
                Err(e) => LayerOutcome { result: Err(e), store },
                Ok(next_hop) => LayerOutcome {
                    result: Ok(
                        Layer::Message(
                            ReceivedView::ForwardRequest {
                                sender,
                                next_hop,
                                route: hops.skip(1),
                                opaque_payload: inner,
                            },
                        ),
                    ),
                    store,
                },
            }
        },
        PayloadView::RequestRelationship => LayerOutcome {
            result: Ok(
                Layer::Message(
                    ReceivedView::RequestRelationship { sender, thread_id: sha256_digest(message) },
                ),
            ),
            store,
        },
        PayloadView::AcceptRelationship { thread_id } => match accept_transition(
            store[sender].relation_status,
            thread_id,
        ) {
            Ok(status) => LayerOutcome {
                result: Ok(Layer::Message(ReceivedView::AcceptRelationship { sender })),
                store: with_status(store, sender, status),
            },
            Err(e) => LayerOutcome { result: Err(e), store },
        },
        PayloadView::CancelRelationship { thread_id } => match cancel_transition(
            store[sender].relation_status,
            thread_id,
        ) {
            Ok(status) => LayerOutcome {
                result: Ok(Layer::Message(ReceivedView::CancelRelationship { sender })),
                store: with_status(store, sender, status),
            },
            Err(e) => LayerOutcome { result: Err(e), store },
        },
    }
}

/// An outcome that leaves the store as it is.
pub open spec fn failed(store: Map<Seq<char>, VidContextView>, error: ErrorView) -> LayerOutcome {
    LayerOutcome { result: Err(error), store }
}

/// What opening one layer of a message gives. An encrypted message must
/// be addressed to one of ours and come from a known sender; it is opened
/// and its payload dispatched. A signed message must come from a known
/// sender and, where it names a receiver, be addressed to one of ours; it
/// is verified and gives a user message.
pub open spec fn open_layer(store: Map<Seq<char>, VidContextView>, message: Seq<u8>) -> LayerOutcome {
    match probe_kind(message) {
        Err(e) => failed(store, ErrorView::Decode(e)),
        Ok(EnvelopeKind::EncryptedMessage { sender, receiver }) => match our_vid(store, receiver) {
            Err(e) => failed(store, e),
            Ok(receiver_id) => match known_vid(store, sender) {
                Err(e) => failed(store, e),
                Ok(sender_id) => match open_result(
                    receiver,
                    store[receiver_id].private->Some_0.decryption_key,
                    store[sender_id].vid.verifying_key,
                    message,
                ) {
                    Err(e) => failed(store, ErrorView::Crypto(e)),
                    Ok((nonconfidential_data, payload)) => dispatch(
                        store,
                        sender_id,
                        nonconfidential_data,
                        payload,
                        message,
                    ),
                },
            },
        },
        Ok(EnvelopeKind::SignedMessage { sender, receiver }) => {
            if receiver is Some && our_vid(store, receiver->Some_0) is Err {
                failed(store, our_vid(store, receiver->Some_0)->Err_0)
            } else {
                match known_vid(store, sender) {
                    Err(e) => failed(store, e),
                    Ok(sender_id) => match verify_result(
                        store[sender_id].vid.verifying_key,
                        message,
                    ) {
                        Err(e) => failed(store, ErrorView::Crypto(e)),
                        Ok(data) => LayerOutcome {
                            result: Ok(
                                Layer::Message(
                                    ReceivedView::GenericMessage {
                                        sender: sender_id,
                                        nonconfidential_data: None,
                                        message: data,
                                        message_type: MessageType::Signed,
                                    },
                                ),
                            ),
                            store,
                        },
                    },
                }
            }
        },
    }
}

/// What opening a message gives: its layers are opened one after the
/// other until one holds no inner message. An inner message is shorter
/// than the message that holds it; one that is not is refused.
pub open spec fn open_outcome(store: Map<Seq<char>, VidContextView>, message: Seq<u8>) -> Outcome
    decreases message.len(),
{
    let layer = open_layer(store, message);
    match layer.result {
        Err(e) => Outcome { result: Err(e), store: layer.store },
        Ok(Layer::Message(received)) => Outcome { result: Ok(received), store: layer.store },
        Ok(Layer::Inner(inner)) => if inner.len() < message.len() {
            open_outcome(layer.store, inner)
        } else {
            Outcome { result: Err(ErrorView::Decode(DecodeError::Truncated)), store: layer.store }
        },
    }
}

/// What one layer of a message holds, in executable form.
pub enum Opened {
    Message(ReceivedTspMessage),
    Inner(Vec<u8>),
}

impl View for Opened {
    type V = Layer;

    open spec fn view(&self) -> Layer {
        match *self {
            Opened::Message(received) => Layer::Message(received@),
            Opened::Inner(inner) => Layer::Inner(inner@),
        }
    }
}

impl Store {
    /// The identifier that bytes name, where the store knows it.
    fn known(&self, bytes: &[u8]) -> (r: Result<String, Error>)
        requires
            self.wf(),
        ensures
            match known_vid(self@, bytes@) {
                Ok(id) => r matches Ok(x) && x@ == id && encode_utf8(id) == bytes@,
                Err(e) => r matches Err(x) && x@ == e,
            },
    {
        match text_of(bytes) {
            None => Err(Error::Utf8),
            Some(id) => match self.get_vid(id) {
                Ok(_) => Ok(id.to_owned()),
                Err(e) => Err(e),
            },
        }
    }

    /// The identifier that bytes name, where it is one of ours.
    fn ours(&self, bytes: &[u8]) -> (r: Result<String, Error>)
        requires
            self.wf(),
        ensures
            match our_vid(self@, bytes@) {
                Ok(id) => r matches Ok(x) && x@ == id && encode_utf8(id) == bytes@,
                Err(e) => r matches Err(x) && x@ == e,
            },
    {
        match text_of(bytes) {
            None => Err(Error::Utf8),
            Some(id) => match self.get_private_vid(id) {
                Ok(_) => Ok(id.to_owned()),
                Err(_) => Err(Error::Crypto(CryptoError::UnexpectedRecipient)),
            },
        }
    }

    /// Does what a payload that was opened asks for.
    fn dispatch_payload(
        &mut self,
        sender: String,
        nonconfidential_data: Option<Vec<u8>>,
        payload: Payload,
        message: &[u8],
    ) -> (r: Result<Opened, Error>)
        requires
            old(self).wf(),
            old(self)@.contains_key(sender@),
        ensures
            final(self).wf(),
            ({
                let outcome = dispatch(
                    old(self)@,
                    sender@,
                    crate::crypto::optional_vec_view(nonconfidential_data),
                    payload@,
                    message@,
                );
                &&& final(self)@ == outcome.store
                &&& match outcome.result {
                    Ok(layer) => r matches Ok(x) && x@ == layer,
                    Err(e) => r matches Err(x) && x@ == e,
                }
            }),
    {
        match payload {
            Payload::Content(content) => Ok(
                Opened::Message(
                    ReceivedTspMessage::GenericMessage {
                        sender,
                        nonconfidential_data,
                        message: content,
                        message_type: MessageType::SignedAndEncrypted,
                    },
                ),
            ),
            Payload::NestedMessage(inner) => Ok(Opened::Inner(inner)),
            Payload::RoutedMessage(hops, inner) => {
                if hops.len() == 0 {
                    return Err(
                        Error::InvalidRoute("A routed message must name its next hop".to_owned()),
                    );
                }
                let next_hop = match self.known(hops[0].as_slice()) {
                    Ok(id) => id,
                    Err(e) => {
                        return Err(e);
                    },
                };
                let route = remaining_hops(&hops);
                let r = ReceivedTspMessage::ForwardRequest {
                    sender,
                    next_hop,
                    route,
                    opaque_payload: inner,
                };
                assert(r@->ForwardRequest_route =~= hops_view(hops@).skip(1));
                Ok(Opened::Message(r))
            },
            Payload::RequestRelationship => Ok(
                Opened::Message(
                    ReceivedTspMessage::RequestRelationship { sender, thread_id: sha256(message) },
                ),
            ),
            Payload::AcceptRelationship { thread_id } => {
                let status = match self.get_vid(sender.as_str()) {
                    Ok(context) => context.relation_status,
                    Err(e) => {
                        return Err(e);
                    },
                };
                let digest = match status {
                    RelationshipStatus::Unidirectional(digest) => digest,
                    _ => {
                        return Err(
                            Error::Relationship(
                                "received confirmation of a relation that we did not want".to_owned(),
                            ),
                        );
                    },
                };
                if !bytes_eq(digest.as_slice(), thread_id.as_slice()) {
                    return Err(
                        Error::Relationship(
                            "attempt to change the terms of the relationship".to_owned(),
                        ),
                    );
                }
                match self.set_relation_status_for_vid(
                    sender.as_str(),
                    RelationshipStatus::Bidirectional(digest),
                ) {
                    Ok(()) => Ok(Opened::Message(ReceivedTspMessage::AcceptRelationship { sender })),
                    Err(e) => Err(e),
                }
            },
            Payload::CancelRelationship { thread_id } => {
                let status = match self.get_vid(sender.as_str()) {
                    Ok(context) => context.relation_status,
                    Err(e) => {
                        return Err(e);
                    },
                };
                let digest = match status {
                    RelationshipStatus::Bidirectional(digest) => digest,
                    RelationshipStatus::Unidirectional(digest) => digest,
                    _ => {
                        proof {
                            self.lemma_same_status(sender@);
                        }
                        return Ok(
                            Opened::Message(ReceivedTspMessage::CancelRelationship { sender }),
                        );
                    },
                };
                if !bytes_eq(digest.as_slice(), thread_id.as_slice()) {
                    return Err(
                        Error::Relationship("invalid attempt to end the relationship".to_owned()),
                    );
                }
                match self.set_relation_status_for_vid(
                    sender.as_str(),
                    RelationshipStatus::Unrelated,
                ) {
                    Ok(()) => Ok(Opened::Message(ReceivedTspMessage::CancelRelationship { sender })),
                    Err(e) => Err(e),
                }
            },
        }
    }

    /// Setting the status that an identifier has changes nothing.
    pub proof fn lemma_same_status(&self, id: Seq<char>)
        requires
            self@.contains_key(id),
        ensures
            with_status(self@, id, self@[id].relation_status) == self@,
    {
        assert(with_status(self@, id, self@[id].relation_status) =~= self@);
    }

    /// Opens one layer of a message.
    pub fn open_layer(&mut self, message: &[u8]) -> (r: Result<Opened, Error>)
        requires
            old(self).wf(),
        ensures
            final(self).wf(),
            final(self)@ == open_layer(old(self)@, message@).store,
            match open_layer(old(self)@, message@).result {
                Ok(layer) => r matches Ok(x) && x@ == layer,
                Err(e) => r matches Err(x) && x@ == e,
            },
            r matches Ok(Opened::Inner(inner)) ==> inner@.len() < message@.len() && final(self)@
                == old(self)@,
    {
        let kind = match probe(message) {
            Ok(kind) => kind,
            Err(e) => {
                return Err(Error::Decode(e));
            },
        };
        match kind {
            EnvelopeType::EncryptedMessage { sender, receiver } => {
                let receiver_id = match self.ours(receiver) {
                    Ok(id) => id,
                    Err(e) => {
                        return Err(e);
                    },
                };
                let sender_id = match self.known(sender) {
                    Ok(id) => id,
                    Err(e) => {
                        return Err(e);
                    },
                };
                let opened = {
                    let receiver_vid = match self.get_private_vid(receiver_id.as_str()) {
                        Ok(owned) => owned,
                        Err(e) => {
                            return Err(e);
                        },
                    };
                    let sender_vid = match self.get_verified_vid(sender_id.as_str()) {
                        Ok(verified) => verified,
                        Err(e) => {
                            return Err(e);
                        },
                    };
                    open(receiver_vid, sender_vid, message)
                };
                match opened {
                    Ok((nonconfidential_data, payload, _)) => self.dispatch_payload(
                        sender_id,
                        nonconfidential_data,
                        payload,
                        message,
                    ),
                    Err(e) => Err(Error::Crypto(e)),
                }
            },
            EnvelopeType::SignedMessage { sender, receiver } => {
                match receiver {
                    Some(receiver) => match self.ours(receiver) {
                        Ok(_) => {},
                        Err(e) => {
                            return Err(e);
                        },
                    },
                    None => {},
                }
                let sender_id = match self.known(sender) {
                    Ok(id) => id,
                    Err(e) => {
                        return Err(e);
                    },
                };
                let verified = {
                    let sender_vid = match self.get_verified_vid(sender_id.as_str()) {
                        Ok(verified) => verified,
                        Err(e) => {
                            return Err(e);
                        },
                    };
                    verify(sender_vid, message)
                };
                match verified {
                    Ok(data) => Ok(
                        Opened::Message(
                            ReceivedTspMessage::GenericMessage {
                                sender: sender_id,
                                nonconfidential_data: None,
                                message: vstd::slice::slice_to_vec(data),
                                message_type: MessageType::Signed,
                            },
                        ),
                    ),
                    Err(e) => Err(Error::Crypto(e)),
                }
            },
        }
    }

    /// Opens a message: verifies it, decrypts it, opens what is nested in
    /// it, and brings the relationship with its sender up to date.
    pub fn open_message(&mut self, message: &[u8]) -> (r: Result<ReceivedTspMessage, Error>)
        requires
            old(self).wf(),
        ensures
            final(self).wf(),
            final(self)@ == open_outcome(old(self)@, message@).store,
            match open_outcome(old(self)@, message@).result {
                Ok(received) => r matches Ok(x) && x@ == received,
                Err(e) => r matches Err(x) && x@ == e,
            },
    {
        let mut current: Vec<u8> = vstd::slice::slice_to_vec(message);
        loop
            invariant
                self.wf(),
                open_outcome(old(self)@, message@) == open_outcome(self@, current@),
            decreases current@.len(),
        {
            match self.open_layer(current.as_slice()) {
                Ok(Opened::Message(received)) => {
                    return Ok(received);
                },
                Ok(Opened::Inner(inner)) => {
                    current = inner;
                },
                Err(e) => {
                    return Err(e);
                },
            }
        }
    }
}


/// One context of the store in a form that can be written down and read
/// back: what is known of the identifier, its private keys where it is one
/// of ours, and the state of the relationship.
#[derive(Clone, Debug, PartialEq, Eq)]
pub struct ExportVid {
    pub id: String,
    pub transport: String,
    pub public_sigkey: crate::definitions::KeyData,
    pub public_enckey: crate::definitions::KeyData,
    pub sigkey: Option<crate::definitions::KeyData>,
    pub enckey: Option<crate::definitions::KeyData>,
    pub relation_status: RelationshipStatus,
    pub relation_vid: Option<String>,
    pub parent_vid: Option<String>,
    pub tunnel: Option<Vec<String>>,
}

impl ExportVid {
    /// What is known of the identifier.
    pub open spec fn vid(&self) -> VidView {
        VidView {
            identifier: self.id@,
            endpoint: self.transport@,
            verifying_key: self.public_sigkey@,
            encryption_key: self.public_enckey@,
        }
    }

    /// The context that the snapshot stands for. The identifier is one of
    /// ours where both private keys are there.
    pub open spec fn context(&self) -> VidContextView {
        VidContextView {
            vid: self.vid(),
            private: match (self.sigkey, self.enckey) {
                (Some(signing_key), Some(decryption_key)) => Some(
                    OwnedVidView {
                        vid: self.vid(),
                        signing_key: signing_key@,
                        decryption_key: decryption_key@,
                    },
                ),
                _ => None,
            },
            relation_status: self.relation_status,
            relation_vid: optional_text_view(self.relation_vid),
            parent_vid: optional_text_view(self.parent_vid),
            tunnel: optional_texts_view(self.tunnel),
        }
    }
}

/// The contexts that a list of snapshots stands for.
pub open spec fn exported_contexts(vids: Seq<ExportVid>) -> Seq<VidContextView> {
    Seq::new(vids.len(), |i: int| vids[i].context())
}

/// The store after the contexts were put into it one after the other,
/// each in place of what the store held of its identifier.
pub open spec fn with_contexts(
    store: Map<Seq<char>, VidContextView>,
    contexts: Seq<VidContextView>,
) -> Map<Seq<char>, VidContextView>
    decreases contexts.len(),
{
    if contexts.len() == 0 {
        store
    } else {
        with_contexts(store, contexts.drop_last()).insert(
            contexts.last().vid.identifier,
            contexts.last(),
        )
    }
}

/// Every route among the contexts has at least two hops.
pub open spec fn routes_valid(contexts: Seq<VidContextView>) -> bool {
    forall|i: int|
        0 <= i < contexts.len() ==> ((#[trigger] contexts[i]).tunnel matches Some(route)
            ==> route.len() >= 2)
}

/// Copies a list of strings.
fn copy_texts(texts: &Vec<String>) -> (r: Vec<String>)
    ensures
        texts_view(r@) == texts_view(texts@),
{
    let mut copy: Vec<String> = Vec::new();
    let mut i: usize = 0;
    while i < texts.len()
        invariant
            i <= texts@.len(),
            copy@.len() == i,
            forall|j: int| 0 <= j < i ==> (#[trigger] copy@[j])@ == texts@[j]@,
        decreases texts@.len() - i,
    {
        copy.push(texts[i].clone());
        i += 1;
    }
    assert(texts_view(copy@) =~= texts_view(texts@));
    copy
}

/// Copies an optional string.
fn copy_optional_text(text: &Option<String>) -> (r: Option<String>)
    ensures
        optional_text_view(r) == optional_text_view(*text),
{
    match text {
        Some(t) => Some(t.clone()),
        None => None,
    }
}

impl Store {
    /// Takes a snapshot of every context in the store.
    pub fn export(&self) -> (r: Result<Vec<ExportVid>, Error>)
        requires
            self.wf(),
        ensures
            r matches Ok(vids) && distinct_entries(exported_contexts(vids@)) && map_of(
                exported_contexts(vids@),
            ) == self@ && routes_valid(exported_contexts(vids@)),
    {
        let mut vids: Vec<ExportVid> = Vec::new();
        let mut i: usize = 0;
        while i < self.vids.len()
            invariant
                self.wf(),
                i <= self.vids@.len(),
                vids@.len() == i,
                forall|j: int| 0 <= j < i ==> (#[trigger] vids@[j]).context() == self.entries()[j],
            decreases self.vids@.len() - i,
        {
            let context = &self.vids[i];
            assert(self.entries()[i as int].wf());
            let (sigkey, enckey) = match &context.private {
                Some(private) => (
                    Some(*crate::definitions::Sender::signing_key(private)),
                    Some(*crate::definitions::Receiver::decryption_key(private)),
                ),
                None => (None, None),
            };
            let tunnel = match &context.tunnel {
                Some(route) => Some(copy_texts(route)),
                None => None,
            };
            vids.push(
                ExportVid {
                    id: context.vid.identifier().to_owned(),
                    transport: context.vid.endpoint().to_owned(),
                    public_sigkey: *context.vid.verifying_key(),
                    public_enckey: *context.vid.encryption_key(),
                    sigkey,
                    enckey,
                    relation_status: context.relation_status,
                    relation_vid: copy_optional_text(&context.relation_vid),
                    parent_vid: copy_optional_text(&context.parent_vid),
                    tunnel,
                },
            );
            i += 1;
        }
        assert(exported_contexts(vids@) =~= self.entries());
        Ok(vids)
    }

    /// Puts the contexts of a snapshot into the store, one after the other,
    /// each in place of what the store held of its identifier.
    ///
    /// A snapshot with a route of fewer than two hops is refused as a
    /// whole, and the store stays as it is.
    pub fn import(&mut self, vids: Vec<ExportVid>) -> (r: Result<(), Error>)
        requires
            old(self).wf(),
        ensures
            final(self).wf(),
            match r {
                Ok(()) => routes_valid(exported_contexts(vids@)) && final(self)@ == with_contexts(
                    old(self)@,
                    exported_contexts(vids@),
                ),
                Err(e) => !routes_valid(exported_contexts(vids@)) && final(self)@ == old(self)@
                    && e@ == ErrorView::InvalidRoute("A route must have at least two VID's"@),
            },
    {
        let ghost contexts = exported_contexts(vids@);
        let mut i: usize = 0;
        while i < vids.len()
            invariant
                self.wf(),
                self@ == old(self)@,
                i <= vids@.len(),
                contexts == exported_contexts(vids@),
                forall|j: int|
                    0 <= j < i ==> ((#[trigger] contexts[j]).tunnel matches Some(route)
                        ==> route.len() >= 2),
            decreases vids@.len() - i,
        {
            let short = match &vids[i].tunnel {
                Some(route) => route.len() < 2,
                None => false,
            };
            if short {
                assert(contexts[i as int].tunnel matches Some(route) && route.len() < 2);
                return Err(
                    Error::InvalidRoute("A route must have at least two VID's".to_owned()),
                );
            }
            i += 1;
        }
        let mut vids = vids;
        let ghost all = vids@;
        let mut k: usize = 0;
        assert(contexts.take(0) =~= Seq::<VidContextView>::empty());
        while k < vids.len()
            invariant
                self.wf(),
                k <= vids@.len(),
                vids@.len() == all.len(),
                contexts == exported_contexts(all),
                routes_valid(contexts),
                forall|j: int| k <= j < vids@.len() ==> vids@[j] == all[j],
                self@ == with_contexts(old(self)@, contexts.take(k as int)),
            decreases vids@.len() - k,
        {
            let placeholder = ExportVid {
                id: String::new(),
                transport: String::new(),
                public_sigkey: [0u8; 32],
                public_enckey: [0u8; 32],
                sigkey: None,
                enckey: None,
                relation_status: RelationshipStatus::Unrelated,
                relation_vid: None,
                parent_vid: None,
                tunnel: None,
            };
            let mut taken = placeholder;
            core::mem::swap(&mut vids[k], &mut taken);
            assert(taken == all[k as int]);
            let vid = Vid::assemble(
                taken.id,
                taken.transport,
                taken.public_sigkey,
                taken.public_enckey,
            );
            let private = match (taken.sigkey, taken.enckey) {
                (Some(signing_key), Some(decryption_key)) => Some(
                    OwnedVid::assemble(vid.clone(), signing_key, decryption_key),
                ),
                _ => None,
            };
            let context = VidContext {
                vid,
                private,
                relation_status: taken.relation_status,
                relation_vid: taken.relation_vid,
                parent_vid: taken.parent_vid,
                tunnel: taken.tunnel,
            };
            assert(context@ == contexts[k as int]);
            self.insert(context);
            proof {
                assert(contexts.take(k + 1).drop_last() =~= contexts.take(k as int));
                assert(contexts.take(k + 1).last() == contexts[k as int]);
            }
            k += 1;
        }
        assert(contexts.take(k as int) =~= contexts);
        Ok(())
    }
}

/// Reading a snapshot of a store into an empty store gives the store back.
pub proof fn lemma_import_export(contexts: Seq<VidContextView>)
    requires
        distinct_entries(contexts),
    ensures
        with_contexts(Map::empty(), contexts) == map_of(contexts),
    decreases contexts.len(),
{
    if contexts.len() == 0 {
        assert(map_of(contexts) =~= Map::<Seq<char>, VidContextView>::empty());
    } else {
        let earlier = contexts.drop_last();
        lemma_import_export(earlier);
        assert(!has_entry(earlier, contexts.last().vid.identifier)) by {
            if has_entry(earlier, contexts.last().vid.identifier) {
                let j = choose|j: int|
                    0 <= j < earlier.len() && (#[trigger] earlier[j]).vid.identifier
                        == contexts.last().vid.identifier;
                assert(contexts[j].vid.identifier == contexts[contexts.len() - 1].vid.identifier);
            }
        }
        lemma_entry_added(earlier, contexts.last());
        assert(earlier.push(contexts.last()) =~= contexts);
    }
}

} // verus!
