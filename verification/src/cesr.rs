//! The envelope codec: a tagged binary framing of the parts of a message.
//!
//! A message is the framing prefix, the sender part, then optionally the
//! receiver, the non-confidential data and the ciphertext, in that order,
//! and at last the signature. Every part but the signature starts with a
//! tag that names its kind and its length class, followed by the length and
//! the raw data. The signature has a tag and exactly 64 bytes of data.

use vstd::prelude::*;

verus! {

/// Tag of the sender part.
pub const KIND_SENDER: u8 = 1;

/// Tag of the receiver part.
pub const KIND_RECEIVER: u8 = 2;

/// Tag of the non-confidential data part.
pub const KIND_NONCONFIDENTIAL: u8 = 3;

/// Tag of the ciphertext part.
pub const KIND_CIPHERTEXT: u8 = 4;

/// Tag of the signature part.
pub const KIND_SIGNATURE: u8 = 5;

/// Tag of one hop in the route of a routed payload.
pub const KIND_HOP: u8 = 6;

/// Added to a tag when the length that follows takes four bytes.
pub const LONG_FORM: u8 = 0x80;

/// Number of bytes of the framing prefix.
pub const PREFIX_LEN: usize = 4;

/// Number of bytes of a signature.
pub const SIGNATURE_LEN: usize = 64;

/// The longest data a part can carry.
pub const MAX_PART_LEN: usize = 0xFFFF_FFFF;

/// Why a message could not be encoded.
#[derive(Clone, Copy, Debug, PartialEq, Eq, Structural)]
pub enum EncodeError {
    /// The data of a part is longer than `MAX_PART_LEN`.
    PartTooLong,
    /// A route has more than `MAX_HOPS` hops.
    TooManyHops,
}

/// Why a byte string is not a message.
#[derive(Clone, Copy, Debug, PartialEq, Eq, Structural)]
pub enum DecodeError {
    /// The bytes do not start with the framing prefix.
    MissingPrefix,
    /// No sender part follows the framing prefix.
    MissingSender,
    /// The ciphertext of an encrypted message has no receiver before it.
    MissingReceiver,
    /// The bytes end where the signature should start.
    MissingSignature,
    /// A part announces more bytes than the buffer holds.
    Truncated,
    /// A length below 256 is written in four bytes.
    OverlongLength,
    /// A tag that is unknown or out of order stands where the signature
    /// should start.
    UnexpectedPart,
    /// Bytes follow where the message or the payload should end.
    TrailingData,
    /// The plaintext of a message is empty.
    MissingPayload,
    /// The plaintext starts with no tag of a payload.
    UnknownPayload,
    /// A routed payload announces more hops than it holds.
    MissingHop,
}

/// The framing prefix, the four bytes `TSP1`.
pub open spec fn frame_prefix() -> Seq<u8> {
    seq![0x54u8, 0x53u8, 0x50u8, 0x31u8]
}

/// The four bytes of `len`, most significant first.
pub open spec fn length_bytes(len: nat) -> Seq<u8> {
    seq![
        ((len / 0x100 / 0x100 / 0x100) % 0x100) as u8,
        ((len / 0x100 / 0x100) % 0x100) as u8,
        ((len / 0x100) % 0x100) as u8,
        (len % 0x100) as u8,
    ]
}

/// The number that four bytes stand for, most significant first.
pub open spec fn length_value(b0: u8, b1: u8, b2: u8, b3: u8) -> nat {
    (b0 as nat) * 0x100_0000 + (b1 as nat) * 0x1_0000 + (b2 as nat) * 0x100 + (b3 as nat)
}

/// Tag and length of a part of the given kind with `len` bytes of data.
pub open spec fn part_prefix(kind: u8, len: nat) -> Seq<u8> {
    if len < 0x100 {
        seq![kind, len as u8]
    } else {
        seq![(kind + LONG_FORM) as u8] + length_bytes(len)
    }
}

/// The encoding of one part.
pub open spec fn part_bytes(kind: u8, data: Seq<u8>) -> Seq<u8> {
    part_prefix(kind, data.len()) + data
}

/// The encoding of a part that may be absent.
pub open spec fn optional_part_bytes(kind: u8, data: Option<Seq<u8>>) -> Seq<u8> {
    match data {
        Some(d) => part_bytes(kind, d),
        None => Seq::empty(),
    }
}

/// What an envelope carries besides its signature.
pub struct Envelope {
    pub sender: Seq<u8>,
    pub receiver: Option<Seq<u8>>,
    pub nonconfidential_data: Option<Seq<u8>>,
    pub ciphertext: Option<Seq<u8>>,
}

impl Envelope {
    /// Every part is short enough to be encoded.
    pub open spec fn encodable(self) -> bool {
        &&& self.sender.len() <= MAX_PART_LEN
        &&& self.receiver matches Some(r) ==> r.len() <= MAX_PART_LEN
        &&& self.nonconfidential_data matches Some(n) ==> n.len() <= MAX_PART_LEN
        &&& self.ciphertext matches Some(c) ==> c.len() <= MAX_PART_LEN
    }

    /// The bytes that the signature covers: everything before it.
    pub open spec fn signed_bytes(self) -> Seq<u8> {
        frame_prefix() + part_bytes(KIND_SENDER, self.sender) + optional_part_bytes(
            KIND_RECEIVER,
            self.receiver,
        ) + optional_part_bytes(KIND_NONCONFIDENTIAL, self.nonconfidential_data)
            + optional_part_bytes(KIND_CIPHERTEXT, self.ciphertext)
    }

    /// The complete message with its signature.
    pub open spec fn message_bytes(self, signature: Seq<u8>) -> Seq<u8> {
        self.signed_bytes() + seq![KIND_SIGNATURE] + signature
    }
}

/// View of an optional byte slice.
pub open spec fn optional_view(data: Option<&[u8]>) -> Option<Seq<u8>> {
    match data {
        Some(d) => Some(d@),
        None => None,
    }
}

/// Appends `data` to `out`.
pub fn append_bytes(out: &mut Vec<u8>, data: &[u8])
    ensures
        final(out)@ == old(out)@ + data@,
{
    let mut i: usize = 0;
    while i < data.len()
        invariant
            i <= data@.len(),
            out@ == old(out)@ + data@.subrange(0, i as int),
        decreases data@.len() - i,
    {
        out.push(data[i]);
        i += 1;
        assert(data@.subrange(0, i as int) =~= data@.subrange(0, i - 1).push(data@[i - 1]));
    }
    assert(data@.subrange(0, i as int) =~= data@);
}

/// Appends one part to `out`, or leaves `out` as it is when the data is too
/// long.
pub fn encode_part(out: &mut Vec<u8>, kind: u8, data: &[u8]) -> (r: Result<(), EncodeError>)
    requires
        kind < LONG_FORM,
    ensures
        data@.len() <= MAX_PART_LEN ==> r is Ok && final(out)@ == old(out)@ + part_bytes(
            kind,
            data@,
        ),
        data@.len() > MAX_PART_LEN ==> r == Err::<(), EncodeError>(EncodeError::PartTooLong)
            && final(out)@ == old(out)@,
{
    let len = data.len();
    if len > MAX_PART_LEN {
        return Err(EncodeError::PartTooLong);
    }
    if len < 0x100 {
        out.push(kind);
        out.push(len as u8);
        assert(out@ =~= old(out)@ + part_prefix(kind, len as nat));
    } else {
        out.push(kind + LONG_FORM);
        out.push(((len / 0x100 / 0x100 / 0x100) % 0x100) as u8);
        out.push(((len / 0x100 / 0x100) % 0x100) as u8);
        out.push(((len / 0x100) % 0x100) as u8);
        out.push((len % 0x100) as u8);
        assert(out@ =~= old(out)@ + part_prefix(kind, len as nat));
    }
    append_bytes(out, data);
    assert(out@ =~= old(out)@ + part_bytes(kind, data@));
    Ok(())
}

/// Appends a part to `out` where there is one.
pub fn encode_optional_part(out: &mut Vec<u8>, kind: u8, data: Option<&[u8]>) -> (r: Result<
    (),
    EncodeError,
>)
    requires
        kind < LONG_FORM,
    ensures
        (data matches Some(d) && d@.len() > MAX_PART_LEN) ==> r == Err::<(), EncodeError>(
            EncodeError::PartTooLong,
        ) && final(out)@ == old(out)@,
        !(data matches Some(d) && d@.len() > MAX_PART_LEN) ==> r is Ok && final(out)@ == old(out)@
            + optional_part_bytes(kind, optional_view(data)),
{
    match data {
        Some(d) => encode_part(out, kind, d),
        None => {
            assert(out@ =~= old(out)@ + Seq::<u8>::empty());
            Ok(())
        },
    }
}

/// View of the envelope made of the given parts.
pub open spec fn envelope_of(
    sender: &[u8],
    receiver: Option<&[u8]>,
    nonconfidential_data: Option<&[u8]>,
    ciphertext: Option<&[u8]>,
) -> Envelope {
    Envelope {
        sender: sender@,
        receiver: optional_view(receiver),
        nonconfidential_data: optional_view(nonconfidential_data),
        ciphertext: optional_view(ciphertext),
    }
}

/// Encodes everything that comes before the signature: the bytes to sign.
pub fn encode_envelope(
    sender: &[u8],
    receiver: Option<&[u8]>,
    nonconfidential_data: Option<&[u8]>,
    ciphertext: Option<&[u8]>,
) -> (r: Result<Vec<u8>, EncodeError>)
    ensures
        envelope_of(sender, receiver, nonconfidential_data, ciphertext).encodable() ==> r is Ok
            && r.unwrap()@ == envelope_of(
            sender,
            receiver,
            nonconfidential_data,
            ciphertext,
        ).signed_bytes(),
        !envelope_of(sender, receiver, nonconfidential_data, ciphertext).encodable() ==> r
            matches Err(EncodeError::PartTooLong),
{
    let mut out: Vec<u8> = Vec::new();
    out.push(0x54u8);
    out.push(0x53u8);
    out.push(0x50u8);
    out.push(0x31u8);
    assert(out@ =~= frame_prefix());
    match encode_part(&mut out, KIND_SENDER, sender) {
        Ok(()) => {},
        Err(e) => {
            return Err(e);
        },
    }
    match encode_optional_part(&mut out, KIND_RECEIVER, receiver) {
        Ok(()) => {},
        Err(e) => {
            return Err(e);
        },
    }
    match encode_optional_part(&mut out, KIND_NONCONFIDENTIAL, nonconfidential_data) {
        Ok(()) => {},
        Err(e) => {
            return Err(e);
        },
    }
    match encode_optional_part(&mut out, KIND_CIPHERTEXT, ciphertext) {
        Ok(()) => {},
        Err(e) => {
            return Err(e);
        },
    }
    Ok(out)
}

/// Appends the signature part to the signed bytes, which completes the
/// message.
pub fn encode_signature(signature: &[u8; 64], out: &mut Vec<u8>)
    ensures
        final(out)@ == old(out)@ + seq![KIND_SIGNATURE] + signature@,
{
    out.push(KIND_SIGNATURE);
    append_bytes(out, signature.as_slice());
}

/// Encodes a complete message from its parts.
pub fn encode(
    sender: &[u8],
    receiver: Option<&[u8]>,
    nonconfidential_data: Option<&[u8]>,
    ciphertext: Option<&[u8]>,
    signature: &[u8; 64],
) -> (r: Result<Vec<u8>, EncodeError>)
    ensures
        envelope_of(sender, receiver, nonconfidential_data, ciphertext).encodable() ==> r is Ok
            && r.unwrap()@ == envelope_of(
            sender,
            receiver,
            nonconfidential_data,
            ciphertext,
        ).message_bytes(signature@),
        !envelope_of(sender, receiver, nonconfidential_data, ciphertext).encodable() ==> r
            matches Err(EncodeError::PartTooLong),
{
    match encode_envelope(sender, receiver, nonconfidential_data, ciphertext) {
        Ok(mut out) => {
            encode_signature(signature, &mut out);
            Ok(out)
        },
        Err(e) => Err(e),
    }
}


/// Where one part lies in a message: its tag at `start`, its data from
/// `data` up to `end`.
pub struct Span {
    pub start: int,
    pub data: int,
    pub end: int,
}

/// What stands at a position where a part of some kind may start.
pub enum Scan {
    /// No part of that kind starts there.
    Absent,
    /// A part of that kind starts there and is malformed.
    Broken(DecodeError),
    /// A part of that kind lies there.
    Found(Span),
}

impl Scan {
    /// The position at which to look for the next part.
    pub open spec fn next(self, at: int) -> int {
        match self {
            Scan::Found(span) => span.end,
            _ => at,
        }
    }

    /// The part that was found, if any.
    pub open spec fn span(self) -> Option<Span> {
        match self {
            Scan::Found(span) => Some(span),
            _ => None,
        }
    }
}

/// Looks at position `at` for a part of the given kind.
#[verifier::opaque]
pub open spec fn scan_part(bytes: Seq<u8>, at: int, kind: u8) -> Scan {
    if at >= bytes.len() {
        Scan::Absent
    } else if bytes[at] == kind {
        if at + 2 > bytes.len() || at + 2 + bytes[at + 1] > bytes.len() {
            Scan::Broken(DecodeError::Truncated)
        } else {
            Scan::Found(Span { start: at, data: at + 2, end: at + 2 + bytes[at + 1] })
        }
    } else if bytes[at] == kind + LONG_FORM {
        if at + 5 > bytes.len() {
            Scan::Broken(DecodeError::Truncated)
        } else {
            let len = length_value(bytes[at + 1], bytes[at + 2], bytes[at + 3], bytes[at + 4]);
            if len < 0x100 {
                Scan::Broken(DecodeError::OverlongLength)
            } else if at + 5 + len > bytes.len() {
                Scan::Broken(DecodeError::Truncated)
            } else {
                Scan::Found(Span { start: at, data: at + 5, end: at + 5 + len })
            }
        }
    } else {
        Scan::Absent
    }
}

/// Looks at position `at` for the signature, which must end the message.
pub open spec fn scan_signature(bytes: Seq<u8>, at: int) -> Result<Span, DecodeError> {
    if at >= bytes.len() {
        Err(DecodeError::MissingSignature)
    } else if bytes[at] != KIND_SIGNATURE {
        Err(DecodeError::UnexpectedPart)
    } else if at + 1 + SIGNATURE_LEN > bytes.len() {
        Err(DecodeError::Truncated)
    } else if at + 1 + SIGNATURE_LEN < bytes.len() {
        Err(DecodeError::TrailingData)
    } else {
        Ok(Span { start: at, data: at + 1, end: at + 1 + SIGNATURE_LEN })
    }
}

/// Where the parts of a message lie.
pub struct Layout {
    pub sender: Span,
    pub receiver: Option<Span>,
    pub nonconfidential_data: Option<Span>,
    pub ciphertext: Option<Span>,
    pub signature: Span,
}

/// The bytes start with the framing prefix.
pub open spec fn has_frame_prefix(bytes: Seq<u8>) -> bool {
    bytes.len() >= PREFIX_LEN && bytes.subrange(0, PREFIX_LEN as int) == frame_prefix()
}

/// Finds the parts of a message, or says why the bytes are none.
pub open spec fn scan_message(bytes: Seq<u8>) -> Result<Layout, DecodeError> {
    if !has_frame_prefix(bytes) {
        Err(DecodeError::MissingPrefix)
    } else {
        match scan_part(bytes, PREFIX_LEN as int, KIND_SENDER) {
            Scan::Absent => Err(DecodeError::MissingSender),
            Scan::Broken(e) => Err(e),
            Scan::Found(sender) => {
                let receiver = scan_part(bytes, sender.end, KIND_RECEIVER);
                let at_nonconfidential = receiver.next(sender.end);
                let nonconfidential = scan_part(bytes, at_nonconfidential, KIND_NONCONFIDENTIAL);
                let at_ciphertext = nonconfidential.next(at_nonconfidential);
                let ciphertext = scan_part(bytes, at_ciphertext, KIND_CIPHERTEXT);
                let at_signature = ciphertext.next(at_ciphertext);
                if receiver is Broken {
                    Err(receiver->Broken_0)
                } else if nonconfidential is Broken {
                    Err(nonconfidential->Broken_0)
                } else if ciphertext is Broken {
                    Err(ciphertext->Broken_0)
                } else {
                    match scan_signature(bytes, at_signature) {
                        Err(e) => Err(e),
                        Ok(signature) => Ok(
                            Layout {
                                sender,
                                receiver: receiver.span(),
                                nonconfidential_data: nonconfidential.span(),
                                ciphertext: ciphertext.span(),
                                signature,
                            },
                        ),
                    }
                }
            },
        }
    }
}

/// One part of a decoded message: its tag and length, and its data.
#[derive(Clone, Copy, Debug)]
pub struct Part<'a> {
    pub prefix: &'a [u8],
    pub data: &'a [u8],
}

/// The bytes of a part.
pub struct PartView {
    pub prefix: Seq<u8>,
    pub data: Seq<u8>,
}

impl<'a> View for Part<'a> {
    type V = PartView;

    open spec fn view(&self) -> PartView {
        PartView { prefix: self.prefix@, data: self.data@ }
    }
}

/// The part of `bytes` that lies at `span`.
pub open spec fn part_at(bytes: Seq<u8>, span: Span) -> PartView {
    PartView { prefix: bytes.subrange(span.start, span.data), data: bytes.subrange(span.data, span.end) }
}

/// The part of `bytes` that lies at `span`, where there is one.
pub open spec fn optional_part_at(bytes: Seq<u8>, span: Option<Span>) -> Option<PartView> {
    match span {
        Some(s) => Some(part_at(bytes, s)),
        None => None,
    }
}

/// View of a part that may be absent.
pub open spec fn optional_part_view(part: Option<Part<'_>>) -> Option<PartView> {
    match part {
        Some(p) => Some(p@),
        None => None,
    }
}

/// The parts of a decoded message, each a pair of slices of the input.
#[derive(Clone, Copy, Debug)]
pub struct MessageParts<'a> {
    pub prefix: Part<'a>,
    pub sender: Part<'a>,
    pub receiver: Option<Part<'a>>,
    pub nonconfidential_data: Option<Part<'a>>,
    pub ciphertext: Option<Part<'a>>,
    pub signature: Part<'a>,
}

impl<'a> MessageParts<'a> {
    /// These are the parts that lie in `bytes` as `layout` says.
    pub open spec fn lies_at(self, bytes: Seq<u8>, layout: Layout) -> bool {
        &&& self.prefix@ == PartView { prefix: frame_prefix(), data: Seq::<u8>::empty() }
        &&& self.sender@ == part_at(bytes, layout.sender)
        &&& optional_part_view(self.receiver) == optional_part_at(bytes, layout.receiver)
        &&& optional_part_view(self.nonconfidential_data) == optional_part_at(
            bytes,
            layout.nonconfidential_data,
        )
        &&& optional_part_view(self.ciphertext) == optional_part_at(bytes, layout.ciphertext)
        &&& self.signature@ == part_at(bytes, layout.signature)
    }
}

/// A span in executable form: where the data starts and where the part ends.
pub(crate) struct Found {
    pub(crate) data: usize,
    pub(crate) end: usize,
}

/// Looks at position `at` for a part of the given kind.
pub(crate) fn find_part(bytes: &[u8], at: usize, kind: u8) -> (r: Result<Option<Found>, DecodeError>)
    requires
        at <= bytes@.len(),
        kind < LONG_FORM,
    ensures
        match scan_part(bytes@, at as int, kind) {
            Scan::Absent => r matches Ok(None),
            Scan::Broken(e) => r matches Err(x) && x == e,
            Scan::Found(span) => r matches Ok(Some(f)) && span.start == at && f.data == span.data
                && f.end == span.end && at < f.data <= f.end <= bytes@.len(),
        },
{
    reveal(scan_part);
    let len = bytes.len();
    if at >= len {
        return Ok(None);
    }
    let tag = bytes[at];
    if tag == kind {
        if len - at < 2 {
            return Err(DecodeError::Truncated);
        }
        let n = bytes[at + 1] as usize;
        if len - at - 2 < n {
            return Err(DecodeError::Truncated);
        }
        Ok(Some(Found { data: at + 2, end: at + 2 + n }))
    } else if tag == kind + LONG_FORM {
        if len - at < 5 {
            return Err(DecodeError::Truncated);
        }
        let n: usize = (bytes[at + 1] as usize) * 0x100_0000 + (bytes[at + 2] as usize) * 0x1_0000
            + (bytes[at + 3] as usize) * 0x100 + (bytes[at + 4] as usize);
        if n < 0x100 {
            return Err(DecodeError::OverlongLength);
        }
        if len - at - 5 < n {
            return Err(DecodeError::Truncated);
        }
        Ok(Some(Found { data: at + 5, end: at + 5 + n }))
    } else {
        Ok(None)
    }
}

/// The part of `bytes` with its tag at `start`, its data from `data` to `end`.
fn slice_part<'a>(bytes: &'a [u8], start: usize, data: usize, end: usize) -> (r: Part<'a>)
    requires
        start <= data <= end <= bytes@.len(),
    ensures
        r@ == part_at(bytes@, Span { start: start as int, data: data as int, end: end as int }),
{
    Part { prefix: &bytes[start..data], data: &bytes[data..end] }
}

/// Checks for the framing prefix.
fn starts_with_prefix(bytes: &[u8]) -> (r: bool)
    ensures
        r == has_frame_prefix(bytes@),
{
    if bytes.len() < PREFIX_LEN {
        return false;
    }
    let r = bytes[0] == 0x54u8 && bytes[1] == 0x53u8 && bytes[2] == 0x50u8 && bytes[3] == 0x31u8;
    proof {
        let head = bytes@.subrange(0, PREFIX_LEN as int);
        if r {
            assert(head =~= frame_prefix());
        } else {
            assert(head[0] == bytes@[0] && head[1] == bytes@[1] && head[2] == bytes@[2] && head[3]
                == bytes@[3]);
        }
    }
    r
}

/// Decodes a message into its parts without copying them.
///
/// Succeeds exactly on the byte strings that `scan_message` accepts, and
/// fails with the error that `scan_message` names on all others.
pub fn decode_parts<'a>(bytes: &'a [u8]) -> (r: Result<MessageParts<'a>, DecodeError>)
    ensures
        match scan_message(bytes@) {
            Ok(layout) => r matches Ok(parts) && parts.lies_at(bytes@, layout),
            Err(e) => r matches Err(x) && x == e,
        },
{
    if !starts_with_prefix(bytes) {
        return Err(DecodeError::MissingPrefix);
    }
    let prefix = slice_part(bytes, 0, PREFIX_LEN, PREFIX_LEN);
    assert(prefix@.prefix =~= frame_prefix() && prefix@.data =~= Seq::<u8>::empty());
    let sender = match find_part(bytes, PREFIX_LEN, KIND_SENDER) {
        Err(e) => {
            return Err(e);
        },
        Ok(None) => {
            return Err(DecodeError::MissingSender);
        },
        Ok(Some(f)) => f,
    };
    let mut at = sender.end;
    let receiver = match find_part(bytes, at, KIND_RECEIVER) {
        Err(e) => {
            return Err(e);
        },
        Ok(None) => None,
        Ok(Some(f)) => {
            let part = slice_part(bytes, at, f.data, f.end);
            at = f.end;
            Some(part)
        },
    };
    let nonconfidential_data = match find_part(bytes, at, KIND_NONCONFIDENTIAL) {
        Err(e) => {
            return Err(e);
        },
        Ok(None) => None,
        Ok(Some(f)) => {
            let part = slice_part(bytes, at, f.data, f.end);
            at = f.end;
            Some(part)
        },
    };
    let ciphertext = match find_part(bytes, at, KIND_CIPHERTEXT) {
        Err(e) => {
            return Err(e);
        },
        Ok(None) => None,
        Ok(Some(f)) => {
            let part = slice_part(bytes, at, f.data, f.end);
            at = f.end;
            Some(part)
        },
    };
    let len = bytes.len();
    if at >= len {
        return Err(DecodeError::MissingSignature);
    }
    if bytes[at] != KIND_SIGNATURE {
        return Err(DecodeError::UnexpectedPart);
    }
    if len - at - 1 < SIGNATURE_LEN {
        return Err(DecodeError::Truncated);
    }
    if len - at - 1 > SIGNATURE_LEN {
        return Err(DecodeError::TrailingData);
    }
    let signature = slice_part(bytes, at, at + 1, len);
    Ok(
        MessageParts {
            prefix,
            sender: slice_part(bytes, PREFIX_LEN, sender.data, sender.end),
            receiver,
            nonconfidential_data,
            ciphertext,
            signature,
        },
    )
}


/// What a message says once its parts are told apart.
pub struct Decoded {
    /// The parts before the signature.
    pub envelope: Envelope,
    /// The data of the signature part.
    pub signature: Seq<u8>,
    /// The bytes that the signature covers.
    pub signed: Seq<u8>,
}

/// The data of the part of `bytes` that lies at `span`, where there is one.
pub open spec fn optional_data_at(bytes: Seq<u8>, span: Option<Span>) -> Option<Seq<u8>> {
    match span {
        Some(s) => Some(bytes.subrange(s.data, s.end)),
        None => None,
    }
}

/// What the parts that lie in `bytes` as `layout` says hold.
pub open spec fn decoded_at(bytes: Seq<u8>, layout: Layout) -> Decoded {
    Decoded {
        envelope: Envelope {
            sender: bytes.subrange(layout.sender.data, layout.sender.end),
            receiver: optional_data_at(bytes, layout.receiver),
            nonconfidential_data: optional_data_at(bytes, layout.nonconfidential_data),
            ciphertext: optional_data_at(bytes, layout.ciphertext),
        },
        signature: bytes.subrange(layout.signature.data, layout.signature.end),
        signed: bytes.subrange(0, layout.signature.start),
    }
}

/// The meaning of a byte string as a message, or why it has none.
pub open spec fn decode(bytes: Seq<u8>) -> Result<Decoded, DecodeError> {
    match scan_message(bytes) {
        Ok(layout) => Ok(decoded_at(bytes, layout)),
        Err(e) => Err(e),
    }
}

/// Four bytes written for a length read back as that length.
pub proof fn lemma_length_round_trip(len: nat)
    requires
        len <= MAX_PART_LEN,
    ensures
        length_value(
            length_bytes(len)[0],
            length_bytes(len)[1],
            length_bytes(len)[2],
            length_bytes(len)[3],
        ) == len,
{
    let q1 = len / 0x100;
    let q2 = q1 / 0x100;
    let q3 = q2 / 0x100;
    assert(len == q1 * 0x100 + len % 0x100);
    assert(q1 == q2 * 0x100 + q1 % 0x100);
    assert(q2 == q3 * 0x100 + q2 % 0x100);
    assert(q3 < 0x100);
    assert(q3 % 0x100 == q3);
}

/// A length read from four bytes is written as the same four bytes.
pub proof fn lemma_length_bytes_of_value(b0: u8, b1: u8, b2: u8, b3: u8)
    ensures
        length_value(b0, b1, b2, b3) <= MAX_PART_LEN,
        length_bytes(length_value(b0, b1, b2, b3)) == seq![b0, b1, b2, b3],
{
    let len = length_value(b0, b1, b2, b3);
    let q1 = (b0 as nat) * 0x1_0000 + (b1 as nat) * 0x100 + (b2 as nat);
    let q2 = (b0 as nat) * 0x100 + (b1 as nat);
    assert(len == q1 * 0x100 + (b3 as nat));
    assert(len / 0x100 == q1 && len % 0x100 == b3 as nat);
    assert(q1 == q2 * 0x100 + (b2 as nat));
    assert(q1 / 0x100 == q2 && q1 % 0x100 == b2 as nat);
    assert(q2 / 0x100 == b0 as nat && q2 % 0x100 == b1 as nat);
    assert((b0 as nat) % 0x100 == b0 as nat);
    assert(length_bytes(len) =~= seq![b0, b1, b2, b3]);
}

/// Number of bytes that the tag and length of a part take.
pub open spec fn part_prefix_len(len: nat) -> int {
    if len < 0x100 {
        2
    } else {
        5
    }
}

/// An encoded part is found where it stands, with its data, and what
/// follows it is left over.
pub proof fn lemma_scan_encoded_part(bytes: Seq<u8>, at: int, kind: u8, data: Seq<u8>, rest: Seq<u8>)
    requires
        0 <= at <= bytes.len(),
        kind < LONG_FORM,
        data.len() <= MAX_PART_LEN,
        bytes.subrange(at, bytes.len() as int) == part_bytes(kind, data) + rest,
    ensures
        scan_part(bytes, at, kind) == Scan::Found(
            Span {
                start: at,
                data: at + part_prefix_len(data.len()),
                end: at + part_prefix_len(data.len()) + data.len(),
            },
        ),
        bytes.subrange(
            at + part_prefix_len(data.len()),
            at + part_prefix_len(data.len()) + data.len(),
        ) == data,
        bytes.subrange(at, at + part_prefix_len(data.len())) == part_prefix(kind, data.len()),
        bytes.subrange(at + part_prefix_len(data.len()) + data.len(), bytes.len() as int) == rest,
        at + part_prefix_len(data.len()) + data.len() <= bytes.len(),
{
    reveal(scan_part);
    let tail = bytes.subrange(at, bytes.len() as int);
    let encoded = part_bytes(kind, data);
    let n = part_prefix_len(data.len());
    assert(tail.len() == encoded.len() + rest.len());
    assert(encoded.len() == n + data.len());
    assert forall|i: int| 0 <= i < tail.len() implies bytes[at + i] == #[trigger] tail[i] by {}
    assert forall|i: int| 0 <= i < encoded.len() implies bytes[at + i] == #[trigger] encoded[i] by {
        assert(tail[i] == encoded[i]);
    }
    assert(bytes[at] == encoded[0]);
    if data.len() < 0x100 {
        assert(bytes[at + 1] == encoded[1]);
    } else {
        lemma_length_round_trip(data.len());
        assert(bytes[at + 1] == encoded[1]);
        assert(bytes[at + 2] == encoded[2]);
        assert(bytes[at + 3] == encoded[3]);
        assert(bytes[at + 4] == encoded[4]);
        assert(encoded[1] == length_bytes(data.len())[0]);
        assert(encoded[2] == length_bytes(data.len())[1]);
        assert(encoded[3] == length_bytes(data.len())[2]);
        assert(encoded[4] == length_bytes(data.len())[3]);
    }
    assert(bytes.subrange(at + n, at + n + data.len()) =~= data) by {
        assert forall|i: int| 0 <= i < data.len() implies bytes[at + n + i] == data[i] by {
            assert(encoded[n + i] == data[i]);
        }
    }
    assert(bytes.subrange(at, at + n) =~= part_prefix(kind, data.len())) by {
        assert forall|i: int| 0 <= i < n implies bytes[at + i] == part_prefix(kind, data.len())[i] by {
            assert(encoded[i] == part_prefix(kind, data.len())[i]);
        }
    }
    assert(bytes.subrange(at + n + data.len(), bytes.len() as int) =~= rest) by {
        assert forall|i: int| 0 <= i < rest.len() implies bytes[at + n + data.len() + i]
            == rest[i] by {
            assert(tail[n + data.len() + i] == rest[i]);
        }
    }
}

/// The byte at which what follows begins is no tag of the given kind.
pub open spec fn starts_otherwise(rest: Seq<u8>, kind: u8) -> bool {
    rest.len() > 0 ==> rest[0] != kind && rest[0] != kind + LONG_FORM
}

/// A part that may be absent is found exactly when it is there, and what
/// follows it is left over.
pub proof fn lemma_scan_encoded_optional_part(
    bytes: Seq<u8>,
    at: int,
    kind: u8,
    data: Option<Seq<u8>>,
    rest: Seq<u8>,
)
    requires
        0 <= at <= bytes.len(),
        kind < LONG_FORM,
        data matches Some(d) ==> d.len() <= MAX_PART_LEN,
        bytes.subrange(at, bytes.len() as int) == optional_part_bytes(kind, data) + rest,
        starts_otherwise(rest, kind),
    ensures
        !(scan_part(bytes, at, kind) is Broken),
        optional_data_at(bytes, scan_part(bytes, at, kind).span()) == data,
        at <= scan_part(bytes, at, kind).next(at) <= bytes.len(),
        bytes.subrange(scan_part(bytes, at, kind).next(at), bytes.len() as int) == rest,
        bytes.subrange(at, scan_part(bytes, at, kind).next(at)) == optional_part_bytes(kind, data),
{
    match data {
        Some(d) => {
            lemma_scan_encoded_part(bytes, at, kind, d, rest);
            let n = part_prefix_len(d.len());
            assert(bytes.subrange(at, at + n + d.len()) =~= bytes.subrange(at, at + n)
                + bytes.subrange(at + n, at + n + d.len()));
        },
        None => {
            reveal(scan_part);
            assert(optional_part_bytes(kind, data) + rest =~= rest);
            if at < bytes.len() {
                assert(bytes[at] == bytes.subrange(at, bytes.len() as int)[0]);
            }
            assert(bytes.subrange(at, at) =~= Seq::<u8>::empty());
        },
    }
}

/// What follows an optional part of a lower kind starts with no tag of
/// that lower kind.
proof fn lemma_starts_otherwise(kind: u8, data: Option<Seq<u8>>, rest: Seq<u8>, lower: u8)
    requires
        lower < kind < LONG_FORM,
        starts_otherwise(rest, lower),
    ensures
        starts_otherwise(optional_part_bytes(kind, data) + rest, lower),
{
    match data {
        Some(d) => {
            assert((part_bytes(kind, d) + rest)[0] == part_prefix(kind, d.len())[0]);
        },
        None => {
            assert(optional_part_bytes(kind, data) + rest =~= rest);
        },
    }
}

/// The optional parts and the signature, encoded one after the other from
/// position `at` on, are found there one by one.
proof fn lemma_scan_encoded_tail(bytes: Seq<u8>, at: int, envelope: Envelope, signature: Seq<u8>)
    requires
        0 <= at <= bytes.len(),
        envelope.encodable(),
        signature.len() == SIGNATURE_LEN,
        bytes.subrange(at, bytes.len() as int) == optional_part_bytes(
            KIND_RECEIVER,
            envelope.receiver,
        ) + (optional_part_bytes(KIND_NONCONFIDENTIAL, envelope.nonconfidential_data) + (
        optional_part_bytes(KIND_CIPHERTEXT, envelope.ciphertext) + (seq![KIND_SIGNATURE]
            + signature))),
    ensures
        ({
            let receiver = scan_part(bytes, at, KIND_RECEIVER);
            let p2 = receiver.next(at);
            let nonconfidential = scan_part(bytes, p2, KIND_NONCONFIDENTIAL);
            let p3 = nonconfidential.next(p2);
            let ciphertext = scan_part(bytes, p3, KIND_CIPHERTEXT);
            let p4 = ciphertext.next(p3);
            &&& !(receiver is Broken)
            &&& !(nonconfidential is Broken)
            &&& !(ciphertext is Broken)
            &&& optional_data_at(bytes, receiver.span()) == envelope.receiver
            &&& optional_data_at(bytes, nonconfidential.span()) == envelope.nonconfidential_data
            &&& optional_data_at(bytes, ciphertext.span()) == envelope.ciphertext
            &&& at <= p4
            &&& scan_signature(bytes, p4) == Ok::<Span, DecodeError>(
                Span { start: p4, data: p4 + 1, end: p4 + 1 + SIGNATURE_LEN },
            )
            &&& p4 + 1 + SIGNATURE_LEN == bytes.len()
            &&& bytes.subrange(p4 + 1, p4 + 1 + SIGNATURE_LEN) == signature
            &&& bytes.subrange(at, p4) == optional_part_bytes(KIND_RECEIVER, envelope.receiver)
                + optional_part_bytes(KIND_NONCONFIDENTIAL, envelope.nonconfidential_data)
                + optional_part_bytes(KIND_CIPHERTEXT, envelope.ciphertext)
        }),
{
    let end = bytes.len() as int;
    let rest3 = seq![KIND_SIGNATURE] + signature;
    let rest2 = optional_part_bytes(KIND_CIPHERTEXT, envelope.ciphertext) + rest3;
    let rest1 = optional_part_bytes(KIND_NONCONFIDENTIAL, envelope.nonconfidential_data) + rest2;
    assert(starts_otherwise(rest3, KIND_CIPHERTEXT));
    assert(starts_otherwise(rest3, KIND_NONCONFIDENTIAL));
    assert(starts_otherwise(rest3, KIND_RECEIVER));
    lemma_starts_otherwise(KIND_CIPHERTEXT, envelope.ciphertext, rest3, KIND_NONCONFIDENTIAL);
    lemma_starts_otherwise(KIND_CIPHERTEXT, envelope.ciphertext, rest3, KIND_RECEIVER);
    lemma_starts_otherwise(KIND_NONCONFIDENTIAL, envelope.nonconfidential_data, rest2, KIND_RECEIVER);
    lemma_scan_encoded_optional_part(bytes, at, KIND_RECEIVER, envelope.receiver, rest1);
    let p2 = scan_part(bytes, at, KIND_RECEIVER).next(at);
    lemma_scan_encoded_optional_part(
        bytes,
        p2,
        KIND_NONCONFIDENTIAL,
        envelope.nonconfidential_data,
        rest2,
    );
    let p3 = scan_part(bytes, p2, KIND_NONCONFIDENTIAL).next(p2);
    lemma_scan_encoded_optional_part(bytes, p3, KIND_CIPHERTEXT, envelope.ciphertext, rest3);
    let p4 = scan_part(bytes, p3, KIND_CIPHERTEXT).next(p3);
    let tail = bytes.subrange(p4, end);
    assert(tail == rest3);
    assert(tail.len() == 1 + SIGNATURE_LEN);
    assert(bytes[p4] == tail[0]);
    assert(bytes.subrange(p4 + 1, end) =~= signature) by {
        assert forall|i: int| 0 <= i < signature.len() implies bytes[p4 + 1 + i]
            == signature[i] by {
            assert(tail[1 + i] == signature[i]);
        }
    }
    assert(bytes.subrange(at, p4) =~= bytes.subrange(at, p2) + bytes.subrange(p2, p3)
        + bytes.subrange(p3, p4));
}

/// What follows the sender part in an encoded message.
spec fn encoded_tail(envelope: Envelope, signature: Seq<u8>) -> Seq<u8> {
    optional_part_bytes(KIND_RECEIVER, envelope.receiver) + (optional_part_bytes(
        KIND_NONCONFIDENTIAL,
        envelope.nonconfidential_data,
    ) + (optional_part_bytes(KIND_CIPHERTEXT, envelope.ciphertext) + (seq![KIND_SIGNATURE]
        + signature)))
}

/// An encoded message is the framing prefix, the sender part and the rest.
proof fn lemma_message_bytes_split(envelope: Envelope, signature: Seq<u8>)
    ensures
        envelope.message_bytes(signature) == frame_prefix() + (part_bytes(
            KIND_SENDER,
            envelope.sender,
        ) + encoded_tail(envelope, signature)),
        envelope.message_bytes(signature).len() == PREFIX_LEN + part_bytes(
            KIND_SENDER,
            envelope.sender,
        ).len() + encoded_tail(envelope, signature).len(),
{
    assert(envelope.message_bytes(signature) =~= frame_prefix() + (part_bytes(
        KIND_SENDER,
        envelope.sender,
    ) + encoded_tail(envelope, signature)));
}

/// Decoding inverts encoding: a message encoded from an envelope and a
/// signature decodes to that envelope and that signature, and the bytes
/// that the signature covers are the encoding of the envelope.
pub proof fn lemma_decode_encoded(envelope: Envelope, signature: Seq<u8>)
    requires
        envelope.encodable(),
        signature.len() == SIGNATURE_LEN,
    ensures
        decode(envelope.message_bytes(signature)) == Ok::<Decoded, DecodeError>(
            Decoded { envelope, signature, signed: envelope.signed_bytes() },
        ),
{
    let bytes = envelope.message_bytes(signature);
    let end = bytes.len() as int;
    let sender = part_bytes(KIND_SENDER, envelope.sender);
    let rest0 = encoded_tail(envelope, signature);
    lemma_message_bytes_split(envelope, signature);
    assert(has_frame_prefix(bytes)) by {
        assert(bytes.subrange(0, PREFIX_LEN as int) =~= frame_prefix());
    }
    assert(bytes.subrange(PREFIX_LEN as int, end) == sender + rest0) by {
        assert(bytes.subrange(PREFIX_LEN as int, end) =~= sender + rest0);
    }
    lemma_scan_encoded_part(bytes, PREFIX_LEN as int, KIND_SENDER, envelope.sender, rest0);
    let s = scan_part(bytes, PREFIX_LEN as int, KIND_SENDER)->Found_0;
    lemma_scan_encoded_tail(bytes, s.end, envelope, signature);
    let receiver = scan_part(bytes, s.end, KIND_RECEIVER);
    let p2 = receiver.next(s.end);
    let nonconfidential = scan_part(bytes, p2, KIND_NONCONFIDENTIAL);
    let p3 = nonconfidential.next(p2);
    let ciphertext = scan_part(bytes, p3, KIND_CIPHERTEXT);
    let p4 = ciphertext.next(p3);
    let signature_span = Span { start: p4, data: p4 + 1, end: p4 + 1 + SIGNATURE_LEN };
    let layout = Layout {
        sender: s,
        receiver: receiver.span(),
        nonconfidential_data: nonconfidential.span(),
        ciphertext: ciphertext.span(),
        signature: signature_span,
    };
    assert(scan_message(bytes) == Ok::<Layout, DecodeError>(layout));
    assert(bytes.subrange(0, p4) == envelope.signed_bytes()) by {
        let head = bytes.subrange(0, PREFIX_LEN as int);
        let first = bytes.subrange(PREFIX_LEN as int, s.end);
        let others = bytes.subrange(s.end, p4);
        assert(first =~= bytes.subrange(PREFIX_LEN as int, s.data) + bytes.subrange(s.data, s.end));
        assert(first == sender);
        assert(bytes.subrange(0, p4) =~= head + first + others);
        assert(envelope.signed_bytes() =~= frame_prefix() + sender + others);
    }
    assert(decoded_at(bytes, layout).envelope == envelope);
}


/// What a first look at a message tells: who sent it, to whom, and whether
/// it carries a ciphertext. The fields are slices of the probed bytes.
#[derive(Clone, Copy, Debug)]
#[allow(inconsistent_fields)]
pub enum EnvelopeType<'a> {
    EncryptedMessage { sender: &'a [u8], receiver: &'a [u8] },
    SignedMessage { sender: &'a [u8], receiver: Option<&'a [u8]> },
}

/// The bytes that an `EnvelopeType` refers to.
#[allow(inconsistent_fields)]
pub enum EnvelopeKind {
    EncryptedMessage { sender: Seq<u8>, receiver: Seq<u8> },
    SignedMessage { sender: Seq<u8>, receiver: Option<Seq<u8>> },
}

impl<'a> View for EnvelopeType<'a> {
    type V = EnvelopeKind;

    open spec fn view(&self) -> EnvelopeKind {
        match *self {
            EnvelopeType::EncryptedMessage { sender, receiver } => EnvelopeKind::EncryptedMessage {
                sender: sender@,
                receiver: receiver@,
            },
            EnvelopeType::SignedMessage { sender, receiver } => EnvelopeKind::SignedMessage {
                sender: sender@,
                receiver: optional_view(receiver),
            },
        }
    }
}

/// The kind of a message: encrypted where it has a ciphertext part, which
/// then needs a receiver, and signed where it has none.
pub open spec fn probe_kind(bytes: Seq<u8>) -> Result<EnvelopeKind, DecodeError> {
    match decode(bytes) {
        Err(e) => Err(e),
        Ok(decoded) => match decoded.envelope.ciphertext {
            Some(_) => match decoded.envelope.receiver {
                Some(receiver) => Ok(
                    EnvelopeKind::EncryptedMessage { sender: decoded.envelope.sender, receiver },
                ),
                None => Err(DecodeError::MissingReceiver),
            },
            None => Ok(
                EnvelopeKind::SignedMessage {
                    sender: decoded.envelope.sender,
                    receiver: decoded.envelope.receiver,
                },
            ),
        },
    }
}

/// The data of a part that may be absent.
fn optional_data<'a>(part: Option<Part<'a>>) -> (r: Option<&'a [u8]>)
    ensures
        optional_view(r) == match part {
            Some(p) => Some(p@.data),
            None => None,
        },
{
    match part {
        Some(p) => Some(p.data),
        None => None,
    }
}

/// Tells the kind of a message and its addressing without decrypting or
/// copying anything.
pub fn probe<'a>(bytes: &'a [u8]) -> (r: Result<EnvelopeType<'a>, DecodeError>)
    ensures
        match probe_kind(bytes@) {
            Ok(kind) => r matches Ok(t) && t@ == kind,
            Err(e) => r matches Err(x) && x == e,
        },
{
    let parts = match decode_parts(bytes) {
        Ok(parts) => parts,
        Err(e) => {
            return Err(e);
        },
    };
    let receiver = optional_data(parts.receiver);
    match parts.ciphertext {
        Some(_) => match receiver {
            Some(receiver) => Ok(
                EnvelopeType::EncryptedMessage { sender: parts.sender.data, receiver },
            ),
            None => Err(DecodeError::MissingReceiver),
        },
        None => Ok(EnvelopeType::SignedMessage { sender: parts.sender.data, receiver }),
    }
}

/// Sender and receiver of a message, as slices of its bytes.
pub fn get_sender_receiver<'a>(bytes: &'a [u8]) -> (r: Result<
    (&'a [u8], Option<&'a [u8]>),
    DecodeError,
>)
    ensures
        match decode(bytes@) {
            Ok(decoded) => r matches Ok(pair) && pair.0@ == decoded.envelope.sender
                && optional_view(pair.1) == decoded.envelope.receiver,
            Err(e) => r matches Err(x) && x == e,
        },
{
    match decode_parts(bytes) {
        Ok(parts) => Ok((parts.sender.data, optional_data(parts.receiver))),
        Err(e) => Err(e),
    }
}


impl Span {
    /// The span lies between `from` and `to`, its tag before its data.
    pub open spec fn within(self, from: int, to: int) -> bool {
        from <= self.start < self.data <= self.end <= to
    }
}

/// Where an optional part ends, or `at` where it is absent.
pub open spec fn end_of(span: Option<Span>, at: int) -> int {
    match span {
        Some(s) => s.end,
        None => at,
    }
}

impl Layout {
    /// The parts lie one behind the other from the framing prefix to the
    /// end of a message of `len` bytes, with nothing between them.
    pub open spec fn contiguous(self, len: int) -> bool {
        let after_receiver = end_of(self.receiver, self.sender.end);
        let after_nonconfidential = end_of(self.nonconfidential_data, after_receiver);
        let after_ciphertext = end_of(self.ciphertext, after_nonconfidential);
        &&& self.sender.within(PREFIX_LEN as int, len)
        &&& self.sender.start == PREFIX_LEN
        &&& self.receiver matches Some(s) ==> s.within(self.sender.end, len) && s.start
            == self.sender.end
        &&& self.nonconfidential_data matches Some(s) ==> s.within(after_receiver, len) && s.start
            == after_receiver
        &&& self.ciphertext matches Some(s) ==> s.within(after_nonconfidential, len) && s.start
            == after_nonconfidential
        &&& self.signature.start == after_ciphertext
        &&& self.signature.data == self.signature.start + 1
        &&& self.signature.end == self.signature.data + SIGNATURE_LEN
        &&& self.signature.end == len
    }
}

/// A part that is found lies within the bytes, from the position that was
/// looked at.
pub proof fn lemma_scan_part_within(bytes: Seq<u8>, at: int, kind: u8)
    requires
        0 <= at,
    ensures
        scan_part(bytes, at, kind) matches Scan::Found(span) ==> span.within(
            at,
            bytes.len() as int,
        ) && span.start == at,
{
    reveal(scan_part);
}

/// The parts of a message that decodes lie one behind the other and fill
/// the message.
pub proof fn lemma_layout_contiguous(bytes: Seq<u8>)
    ensures
        scan_message(bytes) matches Ok(layout) ==> layout.contiguous(bytes.len() as int),
{
    if scan_message(bytes) is Ok {
        lemma_scan_part_within(bytes, PREFIX_LEN as int, KIND_SENDER);
        let sender = scan_part(bytes, PREFIX_LEN as int, KIND_SENDER)->Found_0;
        lemma_scan_part_within(bytes, sender.end, KIND_RECEIVER);
        let p2 = scan_part(bytes, sender.end, KIND_RECEIVER).next(sender.end);
        lemma_scan_part_within(bytes, p2, KIND_NONCONFIDENTIAL);
        let p3 = scan_part(bytes, p2, KIND_NONCONFIDENTIAL).next(p2);
        lemma_scan_part_within(bytes, p3, KIND_CIPHERTEXT);
    }
}


/// A part that is found is the encoding of its data.
pub proof fn lemma_found_part_is_encoding(bytes: Seq<u8>, at: int, kind: u8)
    requires
        0 <= at,
        kind < LONG_FORM,
    ensures
        scan_part(bytes, at, kind) matches Scan::Found(span) ==> bytes.subrange(at, span.end)
            == part_bytes(kind, bytes.subrange(span.data, span.end)) && span.end - span.data
            <= MAX_PART_LEN,
{
    reveal(scan_part);
    if scan_part(bytes, at, kind) is Found {
        let span = scan_part(bytes, at, kind)->Found_0;
        let data = bytes.subrange(span.data, span.end);
        if bytes[at] == kind {
            assert(bytes.subrange(at, span.end) =~= part_bytes(kind, data));
        } else {
            lemma_length_bytes_of_value(bytes[at + 1], bytes[at + 2], bytes[at + 3], bytes[at + 4]);
            assert(bytes.subrange(at, span.end) =~= part_bytes(kind, data));
        }
    }
}

/// An optional part that is looked for and not broken is the encoding of
/// what was found, which is nothing where the part is absent.
proof fn lemma_scanned_optional_is_encoding(bytes: Seq<u8>, at: int, kind: u8)
    requires
        0 <= at <= bytes.len(),
        kind < LONG_FORM,
        !(scan_part(bytes, at, kind) is Broken),
    ensures
        ({
            let scan = scan_part(bytes, at, kind);
            &&& at <= scan.next(at) <= bytes.len()
            &&& bytes.subrange(at, scan.next(at)) == optional_part_bytes(
                kind,
                optional_data_at(bytes, scan.span()),
            )
            &&& optional_data_at(bytes, scan.span()) matches Some(data) ==> data.len()
                <= MAX_PART_LEN
        }),
{
    lemma_found_part_is_encoding(bytes, at, kind);
    lemma_scan_part_within(bytes, at, kind);
    if scan_part(bytes, at, kind) is Absent {
        assert(bytes.subrange(at, at) =~= Seq::<u8>::empty());
    }
}

/// Encoding inverts decoding: bytes that decode are the encoding of what
/// they decode to, so no two byte strings decode alike.
pub proof fn lemma_decoded_is_encoding(bytes: Seq<u8>)
    ensures
        decode(bytes) matches Ok(decoded) ==> decoded.envelope.encodable()
            && decoded.signature.len() == SIGNATURE_LEN && decoded.signed
            == decoded.envelope.signed_bytes() && bytes == decoded.envelope.message_bytes(
            decoded.signature,
        ),
{
    if decode(bytes) is Ok {
        let decoded = decode(bytes)->Ok_0;
        let layout = scan_message(bytes)->Ok_0;
        let end = bytes.len() as int;
        lemma_layout_contiguous(bytes);
        lemma_found_part_is_encoding(bytes, PREFIX_LEN as int, KIND_SENDER);
        let s = layout.sender;
        lemma_scanned_optional_is_encoding(bytes, s.end, KIND_RECEIVER);
        let p2 = scan_part(bytes, s.end, KIND_RECEIVER).next(s.end);
        lemma_scanned_optional_is_encoding(bytes, p2, KIND_NONCONFIDENTIAL);
        let p3 = scan_part(bytes, p2, KIND_NONCONFIDENTIAL).next(p2);
        lemma_scanned_optional_is_encoding(bytes, p3, KIND_CIPHERTEXT);
        let p4 = scan_part(bytes, p3, KIND_CIPHERTEXT).next(p3);
        assert(bytes.subrange(0, p4) =~= bytes.subrange(0, PREFIX_LEN as int) + bytes.subrange(
            PREFIX_LEN as int,
            s.end,
        ) + bytes.subrange(s.end, p2) + bytes.subrange(p2, p3) + bytes.subrange(p3, p4));
        assert(decoded.signed == decoded.envelope.signed_bytes());
        assert(bytes =~= bytes.subrange(0, p4) + seq![KIND_SIGNATURE] + bytes.subrange(
            p4 + 1,
            end,
        ));
    }
}

} // verus!
