//! The payload of a sealed message and its byte representation: a tag for
//! the variant, then the fields.

use crate::cesr::{
    DecodeError, EncodeError, Scan, KIND_HOP, MAX_PART_LEN, append_bytes, encode_part, find_part,
    lemma_found_part_is_encoding, lemma_scan_encoded_part, lemma_scan_part_within, part_bytes,
    part_prefix_len, scan_part,
};
use crate::definitions::Digest;
use vstd::prelude::*;
use vstd::slice::slice_to_vec;
use vstd::string::StringExecFns;
use vstd::utf8::{encode_utf8, valid_utf8};

verus! {

/// Tag of a user message.
pub const TAG_CONTENT: u8 = 0;

/// Tag of a nested message.
pub const TAG_NESTED: u8 = 1;

/// Tag of a routed message.
pub const TAG_ROUTED: u8 = 2;

/// Tag of a relationship request.
pub const TAG_REQUEST: u8 = 3;

/// Tag of the acceptance of a relationship.
pub const TAG_ACCEPT: u8 = 4;

/// Tag of the cancellation of a relationship.
pub const TAG_CANCEL: u8 = 5;

/// The largest number of hops that a routed message can name.
pub const MAX_HOPS: usize = 255;

/// Number of bytes of a thread identifier.
pub const DIGEST_LEN: usize = 32;

/// What a sealed message carries.
#[derive(Clone, Debug, PartialEq, Eq)]
pub enum Payload {
    /// A user message.
    Content(Vec<u8>),
    /// A whole inner message, opaque to the outer layer.
    NestedMessage(Vec<u8>),
    /// The identifiers of the hops still to go, and an opaque inner message.
    RoutedMessage(Vec<Vec<u8>>, Vec<u8>),
    /// Ends the relationship that the thread identifier names.
    CancelRelationship { thread_id: Digest },
    /// Asks for a relationship.
    RequestRelationship,
    /// Accepts the relationship that the thread identifier names.
    AcceptRelationship { thread_id: Digest },
}

/// The mathematical content of a `Payload`.
pub enum PayloadView {
    Content(Seq<u8>),
    NestedMessage(Seq<u8>),
    RoutedMessage(Seq<Seq<u8>>, Seq<u8>),
    CancelRelationship { thread_id: Seq<u8> },
    RequestRelationship,
    AcceptRelationship { thread_id: Seq<u8> },
}

/// The byte strings that a list of byte vectors holds.
pub open spec fn hops_view(hops: Seq<Vec<u8>>) -> Seq<Seq<u8>> {
    Seq::new(hops.len(), |i: int| hops[i]@)
}

impl View for Payload {
    type V = PayloadView;

    open spec fn view(&self) -> PayloadView {
        match *self {
            Payload::Content(data) => PayloadView::Content(data@),
            Payload::NestedMessage(data) => PayloadView::NestedMessage(data@),
            Payload::RoutedMessage(hops, data) => PayloadView::RoutedMessage(
                hops_view(hops@),
                data@,
            ),
            Payload::CancelRelationship { thread_id } => PayloadView::CancelRelationship {
                thread_id: thread_id@,
            },
            Payload::RequestRelationship => PayloadView::RequestRelationship,
            Payload::AcceptRelationship { thread_id } => PayloadView::AcceptRelationship {
                thread_id: thread_id@,
            },
        }
    }
}

impl PayloadView {
    /// The bytes that stand for the payload when it is signed and not
    /// sealed: the message of a content, nested or routed payload, the
    /// thread identifier of an acceptance, and nothing otherwise.
    pub open spec fn message(self) -> Seq<u8> {
        match self {
            PayloadView::Content(data) => data,
            PayloadView::NestedMessage(data) => data,
            PayloadView::RoutedMessage(_, data) => data,
            PayloadView::CancelRelationship { .. } => Seq::empty(),
            PayloadView::RequestRelationship => Seq::empty(),
            PayloadView::AcceptRelationship { thread_id } => thread_id,
        }
    }

    /// The payload has a byte representation: a route is short enough and
    /// so is each of its hops, and a thread identifier has 32 bytes.
    pub open spec fn encodable(self) -> bool {
        match self {
            PayloadView::RoutedMessage(hops, _) => {
                &&& hops.len() <= MAX_HOPS
                &&& forall|i: int| 0 <= i < hops.len() ==> (#[trigger] hops[i]).len() <= MAX_PART_LEN
            },
            PayloadView::CancelRelationship { thread_id } => thread_id.len() == DIGEST_LEN,
            PayloadView::AcceptRelationship { thread_id } => thread_id.len() == DIGEST_LEN,
            _ => true,
        }
    }

    /// The byte representation of the payload.
    pub open spec fn bytes(self) -> Seq<u8> {
        match self {
            PayloadView::Content(data) => seq![TAG_CONTENT] + data,
            PayloadView::NestedMessage(data) => seq![TAG_NESTED] + data,
            PayloadView::RoutedMessage(hops, data) => seq![TAG_ROUTED, hops.len() as u8]
                + hops_bytes(hops) + data,
            PayloadView::RequestRelationship => seq![TAG_REQUEST],
            PayloadView::AcceptRelationship { thread_id } => seq![TAG_ACCEPT] + thread_id,
            PayloadView::CancelRelationship { thread_id } => seq![TAG_CANCEL] + thread_id,
        }
    }
}

/// Why a payload that is not encodable has no byte representation.
pub open spec fn encode_failure(payload: PayloadView) -> EncodeError {
    match payload {
        PayloadView::RoutedMessage(hops, _) => if hops.len() > MAX_HOPS {
            EncodeError::TooManyHops
        } else {
            EncodeError::PartTooLong
        },
        _ => EncodeError::PartTooLong,
    }
}

/// The hops of a route, each encoded as a part, one after the other.
pub open spec fn hops_bytes(hops: Seq<Seq<u8>>) -> Seq<u8>
    decreases hops.len(),
{
    if hops.len() == 0 {
        Seq::empty()
    } else {
        part_bytes(KIND_HOP, hops[0]) + hops_bytes(hops.drop_first())
    }
}

/// Reads `count` hops from position `at` on and adds them to `hops`; gives
/// the hops and the position behind the last one.
pub open spec fn scan_hops(bytes: Seq<u8>, at: int, count: nat, hops: Seq<Seq<u8>>) -> Result<
    (Seq<Seq<u8>>, int),
    DecodeError,
>
    decreases count,
{
    if count == 0 {
        Ok((hops, at))
    } else {
        match scan_part(bytes, at, KIND_HOP) {
            Scan::Found(span) => scan_hops(
                bytes,
                span.end,
                (count - 1) as nat,
                hops.push(bytes.subrange(span.data, span.end)),
            ),
            Scan::Broken(e) => Err(e),
            Scan::Absent => Err(DecodeError::MissingHop),
        }
    }
}

/// The payload that a plaintext stands for, or why it stands for none.
pub open spec fn parse_payload(bytes: Seq<u8>) -> Result<PayloadView, DecodeError> {
    if bytes.len() == 0 {
        Err(DecodeError::MissingPayload)
    } else if bytes[0] == TAG_CONTENT {
        Ok(PayloadView::Content(bytes.subrange(1, bytes.len() as int)))
    } else if bytes[0] == TAG_NESTED {
        Ok(PayloadView::NestedMessage(bytes.subrange(1, bytes.len() as int)))
    } else if bytes[0] == TAG_ROUTED {
        if bytes.len() < 2 {
            Err(DecodeError::Truncated)
        } else {
            match scan_hops(bytes, 2, bytes[1] as nat, Seq::empty()) {
                Ok((hops, at)) => Ok(
                    PayloadView::RoutedMessage(hops, bytes.subrange(at, bytes.len() as int)),
                ),
                Err(e) => Err(e),
            }
        }
    } else if bytes[0] == TAG_REQUEST {
        if bytes.len() > 1 {
            Err(DecodeError::TrailingData)
        } else {
            Ok(PayloadView::RequestRelationship)
        }
    } else if bytes[0] == TAG_ACCEPT || bytes[0] == TAG_CANCEL {
        if bytes.len() < 1 + DIGEST_LEN {
            Err(DecodeError::Truncated)
        } else if bytes.len() > 1 + DIGEST_LEN {
            Err(DecodeError::TrailingData)
        } else if bytes[0] == TAG_ACCEPT {
            Ok(PayloadView::AcceptRelationship { thread_id: bytes.subrange(1, 1 + DIGEST_LEN) })
        } else {
            Ok(PayloadView::CancelRelationship { thread_id: bytes.subrange(1, 1 + DIGEST_LEN) })
        }
    } else {
        Err(DecodeError::UnknownPayload)
    }
}

impl Payload {
    /// The bytes that stand for the payload when it is signed and not
    /// sealed.
    pub fn as_bytes(&self) -> (r: &[u8])
        ensures
            r@ == self@.message(),
    {
        match self {
            Payload::Content(bytes) => bytes.as_slice(),
            Payload::NestedMessage(bytes) => bytes.as_slice(),
            Payload::RoutedMessage(_, bytes) => bytes.as_slice(),
            Payload::CancelRelationship { thread_id } => {
                let r = &thread_id.as_slice()[0..0];
                assert(r@ =~= Seq::<u8>::empty());
                r
            },
            Payload::RequestRelationship => {
                let empty: &[u8] = &[];
                assert(empty@ =~= Seq::<u8>::empty());
                empty
            },
            Payload::AcceptRelationship { thread_id } => thread_id.as_slice(),
        }
    }
}

/// Encoding a route hop by hop: one more hop adds its part at the end.
pub proof fn lemma_hops_bytes_push(hops: Seq<Seq<u8>>, hop: Seq<u8>)
    ensures
        hops_bytes(hops.push(hop)) == hops_bytes(hops) + part_bytes(KIND_HOP, hop),
    decreases hops.len(),
{
    if hops.len() == 0 {
        assert(hops.push(hop).drop_first() =~= Seq::<Seq<u8>>::empty());
        assert(hops_bytes(Seq::<Seq<u8>>::empty()) =~= Seq::<u8>::empty());
        assert(hops_bytes(hops) =~= Seq::<u8>::empty());
        assert(hops.push(hop)[0] == hop);
        assert(hops_bytes(hops.push(hop)) =~= part_bytes(KIND_HOP, hop) + Seq::<u8>::empty());
        assert(hops_bytes(hops) + part_bytes(KIND_HOP, hop) =~= part_bytes(KIND_HOP, hop));
    } else {
        assert(hops.push(hop).drop_first() =~= hops.drop_first().push(hop));
        lemma_hops_bytes_push(hops.drop_first(), hop);
        assert(hops_bytes(hops.push(hop)) =~= hops_bytes(hops) + part_bytes(KIND_HOP, hop));
    }
}

/// Writes the byte representation of a payload.
///
/// Fails without a result on a route of more than `MAX_HOPS` hops, and on
/// a hop longer than `MAX_PART_LEN`.
pub fn encode_payload(payload: &Payload) -> (r: Result<Vec<u8>, EncodeError>)
    ensures
        payload@.encodable() ==> (r matches Ok(bytes) && bytes@ == payload@.bytes()),
        !payload@.encodable() ==> r is Err,
        r matches Err(e) ==> e == encode_failure(payload@),
{
    let mut out: Vec<u8> = Vec::new();
    match payload {
        Payload::Content(data) => {
            out.push(TAG_CONTENT);
            append_bytes(&mut out, data.as_slice());
        },
        Payload::NestedMessage(data) => {
            out.push(TAG_NESTED);
            append_bytes(&mut out, data.as_slice());
        },
        Payload::RoutedMessage(hops, data) => {
            if hops.len() > MAX_HOPS {
                return Err(EncodeError::TooManyHops);
            }
            out.push(TAG_ROUTED);
            out.push(hops.len() as u8);
            let ghost all = hops_view(hops@);
            let ghost head = seq![TAG_ROUTED, hops.len() as u8];
            assert(out@ =~= head + hops_bytes(all.take(0))) by {
                assert(all.take(0) =~= Seq::<Seq<u8>>::empty());
            }
            let mut i: usize = 0;
            while i < hops.len()
                invariant
                    i <= hops.len(),
                    all == hops_view(hops@),
                    hops@.len() <= MAX_HOPS,
                    payload@ == PayloadView::RoutedMessage(all, data@),
                    out@ == head + hops_bytes(all.take(i as int)),
                    forall|j: int| 0 <= j < i ==> (#[trigger] all[j]).len() <= MAX_PART_LEN,
                decreases hops.len() - i,
            {
                match encode_part(&mut out, KIND_HOP, hops[i].as_slice()) {
                    Ok(()) => {},
                    Err(e) => {
                        assert(all[i as int].len() > MAX_PART_LEN);
                        return Err(e);
                    },
                }
                proof {
                    assert(all.take(i + 1) =~= all.take(i as int).push(all[i as int]));
                    lemma_hops_bytes_push(all.take(i as int), all[i as int]);
                    assert(out@ =~= head + hops_bytes(all.take(i + 1)));
                }
                i += 1;
            }
            assert(all.take(i as int) =~= all);
            append_bytes(&mut out, data.as_slice());
        },
        Payload::RequestRelationship => {
            out.push(TAG_REQUEST);
        },
        Payload::AcceptRelationship { thread_id } => {
            out.push(TAG_ACCEPT);
            append_bytes(&mut out, thread_id.as_slice());
        },
        Payload::CancelRelationship { thread_id } => {
            out.push(TAG_CANCEL);
            append_bytes(&mut out, thread_id.as_slice());
        },
    }
    assert(out@ =~= payload@.bytes());
    Ok(out)
}


/// Copies the 32 bytes that start at position `at`.
pub fn digest_at(bytes: &[u8], at: usize) -> (d: Digest)
    requires
        at + DIGEST_LEN <= bytes@.len(),
    ensures
        d@ == bytes@.subrange(at as int, at + DIGEST_LEN),
{
    let mut d: Digest = [0u8; 32];
    let mut i: usize = 0;
    let len = bytes.len();
    while i < DIGEST_LEN
        invariant
            i <= DIGEST_LEN,
            len == bytes@.len(),
            at + DIGEST_LEN <= len,
            forall|j: int| 0 <= j < i ==> d@[j] == bytes@[at + j],
        decreases DIGEST_LEN - i,
    {
        d[i] = bytes[at + i];
        i += 1;
    }
    assert(d@ =~= bytes@.subrange(at as int, at + DIGEST_LEN));
    d
}

/// Reads a payload from its byte representation.
///
/// Succeeds exactly on the plaintexts that `parse_payload` accepts, and
/// fails with the error that `parse_payload` names on all others.
pub fn decode_payload(bytes: &[u8]) -> (r: Result<Payload, DecodeError>)
    ensures
        match parse_payload(bytes@) {
            Ok(payload) => r matches Ok(p) && p@ == payload,
            Err(e) => r matches Err(x) && x == e,
        },
{
    let len = bytes.len();
    if len == 0 {
        return Err(DecodeError::MissingPayload);
    }
    let tag = bytes[0];
    if tag == TAG_CONTENT {
        Ok(Payload::Content(slice_to_vec(&bytes[1..len])))
    } else if tag == TAG_NESTED {
        Ok(Payload::NestedMessage(slice_to_vec(&bytes[1..len])))
    } else if tag == TAG_ROUTED {
        if len < 2 {
            return Err(DecodeError::Truncated);
        }
        let count = bytes[1] as usize;
        let mut hops: Vec<Vec<u8>> = Vec::new();
        let mut at: usize = 2;
        let mut i: usize = 0;
        assert(hops_view(hops@) =~= Seq::<Seq<u8>>::empty());
        while i < count
            invariant
                i <= count,
                at <= bytes@.len(),
                len == bytes@.len(),
                len >= 2,
                bytes@[0] == TAG_ROUTED,
                bytes@[1] == count,
                scan_hops(bytes@, 2, count as nat, Seq::empty()) == scan_hops(
                    bytes@,
                    at as int,
                    (count - i) as nat,
                    hops_view(hops@),
                ),
            decreases count - i,
        {
            match find_part(bytes, at, KIND_HOP) {
                Err(e) => {
                    return Err(e);
                },
                Ok(None) => {
                    return Err(DecodeError::MissingHop);
                },
                Ok(Some(found)) => {
                    let ghost before = hops_view(hops@);
                    hops.push(slice_to_vec(&bytes[found.data..found.end]));
                    assert(hops_view(hops@) =~= before.push(
                        bytes@.subrange(found.data as int, found.end as int),
                    ));
                    at = found.end;
                },
            }
            i += 1;
        }
        Ok(Payload::RoutedMessage(hops, slice_to_vec(&bytes[at..len])))
    } else if tag == TAG_REQUEST {
        if len > 1 {
            return Err(DecodeError::TrailingData);
        }
        Ok(Payload::RequestRelationship)
    } else if tag == TAG_ACCEPT || tag == TAG_CANCEL {
        if len < 1 + DIGEST_LEN {
            return Err(DecodeError::Truncated);
        }
        if len > 1 + DIGEST_LEN {
            return Err(DecodeError::TrailingData);
        }
        let thread_id = digest_at(bytes, 1);
        if tag == TAG_ACCEPT {
            Ok(Payload::AcceptRelationship { thread_id })
        } else {
            Ok(Payload::CancelRelationship { thread_id })
        }
    } else {
        Err(DecodeError::UnknownPayload)
    }
}

/// Encoded hops are read back one by one, and what follows them is left
/// over.
pub proof fn lemma_scan_encoded_hops(
    bytes: Seq<u8>,
    at: int,
    hops: Seq<Seq<u8>>,
    read: Seq<Seq<u8>>,
    rest: Seq<u8>,
)
    requires
        0 <= at <= bytes.len(),
        forall|i: int| 0 <= i < hops.len() ==> (#[trigger] hops[i]).len() <= MAX_PART_LEN,
        bytes.subrange(at, bytes.len() as int) == hops_bytes(hops) + rest,
    ensures
        scan_hops(bytes, at, hops.len(), read) == Ok::<(Seq<Seq<u8>>, int), DecodeError>(
            (read + hops, at + hops_bytes(hops).len()),
        ),
        bytes.subrange(at + hops_bytes(hops).len(), bytes.len() as int) == rest,
    decreases hops.len(),
{
    if hops.len() == 0 {
        assert(read + hops =~= read);
        assert(hops_bytes(hops) + rest =~= rest);
    } else {
        let first = hops[0];
        let others = hops.drop_first();
        let after = hops_bytes(others) + rest;
        assert(hops_bytes(hops) + rest =~= part_bytes(KIND_HOP, first) + after);
        lemma_scan_encoded_part(bytes, at, KIND_HOP, first, after);
        let next = at + part_prefix_len(first.len()) + first.len();
        assert forall|i: int| 0 <= i < others.len() implies (#[trigger] others[i]).len()
            <= MAX_PART_LEN by {
            assert(others[i] == hops[i + 1]);
        }
        lemma_scan_encoded_hops(bytes, next, others, read.push(first), rest);
        assert(read.push(first) + others =~= read + hops);
        assert(part_bytes(KIND_HOP, first).len() == part_prefix_len(first.len()) + first.len());
    }
}

/// Decoding a payload inverts encoding it.
pub proof fn lemma_parse_encoded_payload(payload: PayloadView)
    requires
        payload.encodable(),
    ensures
        parse_payload(payload.bytes()) == Ok::<PayloadView, DecodeError>(payload),
{
    let bytes = payload.bytes();
    match payload {
        PayloadView::Content(data) => {
            assert(bytes.subrange(1, bytes.len() as int) =~= data);
        },
        PayloadView::NestedMessage(data) => {
            assert(bytes.subrange(1, bytes.len() as int) =~= data);
        },
        PayloadView::RoutedMessage(hops, data) => {
            assert(bytes.subrange(2, bytes.len() as int) =~= hops_bytes(hops) + data);
            lemma_scan_encoded_hops(bytes, 2, hops, Seq::empty(), data);
            assert(Seq::<Seq<u8>>::empty() + hops =~= hops);
            assert(bytes[1] as nat == hops.len());
        },
        PayloadView::RequestRelationship => {},
        PayloadView::AcceptRelationship { thread_id } => {
            assert(bytes.subrange(1, 1 + DIGEST_LEN) =~= thread_id);
        },
        PayloadView::CancelRelationship { thread_id } => {
            assert(bytes.subrange(1, 1 + DIGEST_LEN) =~= thread_id);
        },
    }
}


/// Hops are read forwards and within the bytes.
pub proof fn lemma_scan_hops_within(bytes: Seq<u8>, at: int, count: nat, read: Seq<Seq<u8>>)
    requires
        0 <= at <= bytes.len(),
    ensures
        scan_hops(bytes, at, count, read) matches Ok(found) ==> at <= found.1 <= bytes.len(),
    decreases count,
{
    if count > 0 {
        lemma_scan_part_within(bytes, at, KIND_HOP);
        match scan_part(bytes, at, KIND_HOP) {
            Scan::Found(span) => {
                lemma_scan_hops_within(
                    bytes,
                    span.end,
                    (count - 1) as nat,
                    read.push(bytes.subrange(span.data, span.end)),
                );
            },
            _ => {},
        }
    }
}

/// What a payload carries as its message is shorter than the plaintext it
/// was read from.
pub proof fn lemma_parsed_message_shorter(bytes: Seq<u8>)
    ensures
        parse_payload(bytes) matches Ok(payload) ==> payload.message().len() < bytes.len(),
{
    if bytes.len() >= 2 && bytes[0] == TAG_ROUTED {
        lemma_scan_hops_within(bytes, 2, bytes[1] as nat, Seq::empty());
    }
}


/// The text that bytes are shown as: their text where they are UTF-8, and
/// else a text with a replacement character for what is no text.
pub uninterp spec fn lossy_text(bytes: Seq<u8>) -> Seq<char>;

/// The text that shows the value of each byte.
pub uninterp spec fn bytes_debug_text(bytes: Seq<u8>) -> Seq<char>;

/// Calls `String::from_utf8_lossy`: the text is a function of the bytes
/// alone, and bytes that are UTF-8 are shown as the text that they are.
#[verifier::external_body]
fn show_lossy(bytes: &[u8]) -> (r: String)
    ensures
        r@ == lossy_text(bytes@),
        valid_utf8(bytes@) ==> encode_utf8(r@) == bytes@,
{
    String::from_utf8_lossy(bytes).into_owned()
}

/// Formats bytes with `{:?}`: the text is a function of the bytes alone.
#[verifier::external_body]
fn show_bytes(bytes: &[u8]) -> (r: String)
    ensures
        r@ == bytes_debug_text(bytes@),
{
    format!("{:?}", bytes)
}

/// The hops of a route, each shown by the values of its bytes.
pub open spec fn hops_text(hops: Seq<Seq<u8>>) -> Seq<char>
    decreases hops.len(),
{
    if hops.len() == 0 {
        Seq::empty()
    } else {
        hops_text(hops.drop_last()) + bytes_debug_text(hops.last())
    }
}

impl PayloadView {
    /// A line that says what the payload is.
    pub open spec fn description(self) -> Seq<char> {
        match self {
            PayloadView::Content(data) => "Content: "@ + lossy_text(data),
            PayloadView::NestedMessage(data) => "Nested Message: "@ + lossy_text(data),
            PayloadView::RoutedMessage(hops, data) => "Routed Message: "@ + lossy_text(data)
                + ", route: ["@ + hops_text(hops) + "]"@,
            PayloadView::CancelRelationship { .. } => "Cancel Relationship"@,
            PayloadView::RequestRelationship => "Request Relationship"@,
            PayloadView::AcceptRelationship { .. } => "Accept Relationship"@,
        }
    }
}

impl Payload {
    /// A line that says what the payload is.
    pub fn describe(&self) -> (r: String)
        ensures
            r@ == self@.description(),
    {
        match self {
            Payload::Content(data) => {
                let mut text = "Content: ".to_owned();
                text.append(show_lossy(data.as_slice()).as_str());
                text
            },
            Payload::NestedMessage(data) => {
                let mut text = "Nested Message: ".to_owned();
                text.append(show_lossy(data.as_slice()).as_str());
                text
            },
            Payload::RoutedMessage(hops, data) => {
                let mut text = "Routed Message: ".to_owned();
                text.append(show_lossy(data.as_slice()).as_str());
                text.append(", route: [");
                let ghost head = text@;
                let ghost all = hops_view(hops@);
                let mut i: usize = 0;
                assert(all.take(0) =~= Seq::<Seq<u8>>::empty());
                while i < hops.len()
                    invariant
                        i <= hops@.len(),
                        all == hops_view(hops@),
                        text@ == head + hops_text(all.take(i as int)),
                    decreases hops@.len() - i,
                {
                    text.append(show_bytes(hops[i].as_slice()).as_str());
                    proof {
                        assert(all.take(i + 1).drop_last() =~= all.take(i as int));
                        assert(all.take(i + 1).last() == all[i as int]);
                        assert(text@ =~= head + hops_text(all.take(i + 1)));
                    }
                    i += 1;
                }
                assert(all.take(i as int) =~= all);
                text.append("]");
                text
            },
            Payload::CancelRelationship { .. } => "Cancel Relationship".to_owned(),
            Payload::RequestRelationship => "Request Relationship".to_owned(),
            Payload::AcceptRelationship { .. } => "Accept Relationship".to_owned(),
        }
    }
}


/// Copies the hops of a route after the first.
pub fn remaining_hops(hops: &Vec<Vec<u8>>) -> (r: Vec<Vec<u8>>)
    requires
        hops@.len() >= 1,
    ensures
        hops_view(r@) == hops_view(hops@).skip(1),
{
    let mut route: Vec<Vec<u8>> = Vec::new();
    let mut i: usize = 1;
    while i < hops.len()
        invariant
            1 <= i <= hops@.len(),
            route@.len() == i - 1,
            forall|j: int| 0 <= j < i - 1 ==> (#[trigger] route@[j])@ == hops@[j + 1]@,
        decreases hops@.len() - i,
    {
        route.push(hops[i].clone());
        i += 1;
    }
    assert(hops_view(route@) =~= hops_view(hops@).skip(1));
    route
}


/// Hops that are read are the encoding of what was read.
pub proof fn lemma_scanned_hops_are_encoding(
    bytes: Seq<u8>,
    at: int,
    count: nat,
    read: Seq<Seq<u8>>,
)
    requires
        0 <= at <= bytes.len(),
        scan_hops(bytes, at, count, read) is Ok,
    ensures
        ({
            let found = scan_hops(bytes, at, count, read)->Ok_0;
            let hops = found.0.skip(read.len() as int);
            &&& at <= found.1 <= bytes.len()
            &&& found.0.len() == read.len() + count
            &&& found.0.take(read.len() as int) == read
            &&& forall|i: int| 0 <= i < hops.len() ==> (#[trigger] hops[i]).len() <= MAX_PART_LEN
            &&& bytes.subrange(at, found.1) == hops_bytes(hops)
        }),
    decreases count,
{
    let found = scan_hops(bytes, at, count, read)->Ok_0;
    let hops = found.0.skip(read.len() as int);
    if count == 0 {
        assert(found.0.take(read.len() as int) =~= read);
        assert(hops =~= Seq::<Seq<u8>>::empty());
        assert(bytes.subrange(at, at) =~= hops_bytes(hops));
    } else {
        lemma_scan_part_within(bytes, at, KIND_HOP);
        lemma_found_part_is_encoding(bytes, at, KIND_HOP);
        let span = scan_part(bytes, at, KIND_HOP)->Found_0;
        let hop = bytes.subrange(span.data, span.end);
        let more = read.push(hop);
        lemma_scanned_hops_are_encoding(bytes, span.end, (count - 1) as nat, more);
        let later = found.0.skip(more.len() as int);
        assert(found.0.take(more.len() as int) == more);
        assert(found.0.take(read.len() as int) =~= read) by {
            assert forall|i: int| 0 <= i < read.len() implies found.0[i] == read[i] by {
                assert(found.0.take(more.len() as int)[i] == more[i]);
            }
        }
        assert(hops[0] == hop) by {
            assert(found.0.take(more.len() as int)[read.len() as int] == more[read.len() as int]);
        }
        assert(hops.drop_first() =~= later);
        assert forall|i: int| 0 <= i < hops.len() implies (#[trigger] hops[i]).len()
            <= MAX_PART_LEN by {
            if i > 0 {
                assert(hops[i] == later[i - 1]);
            }
        }
        assert(bytes.subrange(at, found.1) =~= bytes.subrange(at, span.end) + bytes.subrange(
            span.end,
            found.1,
        ));
    }
}

/// Encoding inverts decoding: a plaintext that is a payload is the byte
/// representation of that payload, so no two plaintexts are the same
/// payload.
pub proof fn lemma_parsed_is_encoding(bytes: Seq<u8>)
    ensures
        parse_payload(bytes) matches Ok(payload) ==> payload.encodable() && payload.bytes()
            == bytes,
{
    if parse_payload(bytes) is Ok {
        let payload = parse_payload(bytes)->Ok_0;
        let end = bytes.len() as int;
        if bytes[0] == TAG_ROUTED {
            lemma_scanned_hops_are_encoding(bytes, 2, bytes[1] as nat, Seq::empty());
            let found = scan_hops(bytes, 2, bytes[1] as nat, Seq::empty())->Ok_0;
            assert(found.0.skip(0) =~= found.0);
            assert(bytes =~= seq![TAG_ROUTED, found.0.len() as u8] + bytes.subrange(2, found.1)
                + bytes.subrange(found.1, end));
        } else if bytes[0] == TAG_REQUEST {
            assert(bytes =~= seq![TAG_REQUEST]);
        } else {
            assert(bytes =~= seq![bytes[0]] + bytes.subrange(1, end));
        }
    }
}

} // verus!
