//! Length-prefixed frames for the renderer platform channel.
//!
//! Every frame starts with a fixed 16-byte header:
//!
//! ```text
//! version: u8 | kind: u8 | flags: u16 (zero) | request id: u64 | length: u32
//! ```
//!
//! The version byte is [`PROTOCOL_VERSION`]; a mismatch fails closed. Control
//! payloads are capped at [`MAX_CONTROL_BYTES`], body chunks at
//! [`MAX_BODY_CHUNK_BYTES`]. Readers validate the header and length before they
//! take the payload, so a corrupt or hostile peer cannot force an unbounded
//! allocation.

use vstd::prelude::*;

verus! {

/// Framing and message ABI version for the renderer channel.
pub const PROTOCOL_VERSION: u8 = 1;

/// Fixed frame header size in bytes.
pub const HEADER_BYTES: usize = 16;

/// Maximum encoded size of one JSON control payload.
pub const MAX_CONTROL_BYTES: usize = 8 * 1024 * 1024;

/// Maximum size of one raw response-body chunk.
pub const MAX_BODY_CHUNK_BYTES: usize = 64 * 1024;

/// Wire byte of a control frame.
pub const KIND_CONTROL: u8 = 0;

/// Wire byte of a body frame.
pub const KIND_BODY: u8 = 1;

/// Payload class of one frame.
#[derive(Clone, Copy, Debug, PartialEq, Eq, Structural)]
pub enum FrameKind {
    /// JSON control message.
    Control,
    /// Raw response-body chunk.
    Body,
}

/// The wire byte of a frame kind.
pub open spec fn kind_wire(kind: FrameKind) -> u8 {
    match kind {
        FrameKind::Control => KIND_CONTROL,
        FrameKind::Body => KIND_BODY,
    }
}

/// The frame kind a wire byte names, if any.
pub open spec fn kind_from_wire(byte: u8) -> Option<FrameKind> {
    if byte == KIND_CONTROL {
        Some(FrameKind::Control)
    } else if byte == KIND_BODY {
        Some(FrameKind::Body)
    } else {
        None
    }
}

/// The payload cap of a frame kind.
pub open spec fn kind_max_payload(kind: FrameKind) -> nat {
    match kind {
        FrameKind::Control => MAX_CONTROL_BYTES as nat,
        FrameKind::Body => MAX_BODY_CHUNK_BYTES as nat,
    }
}

impl FrameKind {
    /// The wire byte of this kind.
    pub fn wire(self) -> (byte: u8)
        ensures
            byte == kind_wire(self),
    {
        match self {
            FrameKind::Control => KIND_CONTROL,
            FrameKind::Body => KIND_BODY,
        }
    }

    /// The kind a wire byte names, or `None` for an unknown byte.
    pub fn from_wire(byte: u8) -> (kind: Option<FrameKind>)
        ensures
            kind == kind_from_wire(byte),
    {
        if byte == KIND_CONTROL {
            Some(FrameKind::Control)
        } else if byte == KIND_BODY {
            Some(FrameKind::Body)
        } else {
            None
        }
    }

    /// The largest payload a frame of this kind may carry.
    pub fn max_payload(self) -> (cap: usize)
        ensures
            cap == kind_max_payload(self),
    {
        match self {
            FrameKind::Control => MAX_CONTROL_BYTES,
            FrameKind::Body => MAX_BODY_CHUNK_BYTES,
        }
    }
}

/// Decoding a wire byte inverts encoding a kind.
pub proof fn lemma_kind_wire_round_trip(kind: FrameKind)
    ensures
        kind_from_wire(kind_wire(kind)) == Some(kind),
{
}

/// One decoded frame header.
#[derive(Clone, Copy, Debug, PartialEq, Eq, Structural)]
pub struct Frame {
    /// Payload class.
    pub kind: FrameKind,
    /// Request this frame belongs to; zero for control frames.
    pub request: u64,
}

/// Why a frame could not be written or read. Every variant is a protocol
/// violation that leaves the channel unusable.
#[derive(Clone, Copy, Debug, PartialEq, Eq, Structural)]
pub enum ChannelError {
    /// The version byte is not [`PROTOCOL_VERSION`].
    UnsupportedVersion,
    /// The kind byte names no frame kind.
    UnknownKind,
    /// The flags field is not zero.
    NonzeroFlags,
    /// A payload to write exceeds the kind's cap.
    Oversized,
    /// A header announces a payload longer than the kind's cap.
    FrameTooLarge,
    /// The input ended inside a header or a payload.
    Truncated,
    /// A body frame arrived where a control frame was expected.
    ExpectedControl,
    /// A control frame arrived where a body frame was expected.
    ExpectedBody,
}

impl ChannelError {
    /// The diagnostic text for this error.
    pub fn message(&self) -> (text: &'static str)
        ensures
            text@ == (match *self {
                ChannelError::UnsupportedVersion => "unsupported renderer IPC version"@,
                ChannelError::UnknownKind => "unknown renderer IPC frame kind"@,
                ChannelError::NonzeroFlags => "nonzero renderer IPC flags"@,
                ChannelError::Oversized => "renderer IPC payload exceeds limit"@,
                ChannelError::FrameTooLarge => "renderer IPC frame exceeds limit"@,
                ChannelError::Truncated => "truncated renderer IPC frame"@,
                ChannelError::ExpectedControl => "expected a control frame"@,
                ChannelError::ExpectedBody => "expected a body frame"@,
            }),
    {
        match self {
            ChannelError::UnsupportedVersion => "unsupported renderer IPC version",
            ChannelError::UnknownKind => "unknown renderer IPC frame kind",
            ChannelError::NonzeroFlags => "nonzero renderer IPC flags",
            ChannelError::Oversized => "renderer IPC payload exceeds limit",
            ChannelError::FrameTooLarge => "renderer IPC frame exceeds limit",
            ChannelError::Truncated => "truncated renderer IPC frame",
            ChannelError::ExpectedControl => "expected a control frame",
            ChannelError::ExpectedBody => "expected a body frame",
        }
    }
}

/// The eight big-endian bytes of `x`.
pub open spec fn u64_be_bytes(x: u64) -> Seq<u8> {
    seq![
        (x >> 56u64) as u8,
        (x >> 48u64) as u8,
        (x >> 40u64) as u8,
        (x >> 32u64) as u8,
        (x >> 24u64) as u8,
        (x >> 16u64) as u8,
        (x >> 8u64) as u8,
        x as u8,
    ]
}

/// The four big-endian bytes of `x`.
pub open spec fn u32_be_bytes(x: u32) -> Seq<u8> {
    seq![(x >> 24u32) as u8, (x >> 16u32) as u8, (x >> 8u32) as u8, x as u8]
}

/// The number whose big-endian bytes are `b[at..at + 8]`.
pub open spec fn u64_from_be(b: Seq<u8>, at: int) -> u64 {
    ((b[at] as u64) << 56u64) | ((b[at + 1] as u64) << 48u64) | ((b[at + 2] as u64) << 40u64) | (
    (b[at + 3] as u64) << 32u64) | ((b[at + 4] as u64) << 24u64) | ((b[at + 5] as u64) << 16u64)
        | ((b[at + 6] as u64) << 8u64) | (b[at + 7] as u64)
}

/// The number whose big-endian bytes are `b[at..at + 4]`.
pub open spec fn u32_from_be(b: Seq<u8>, at: int) -> u32 {
    ((b[at] as u32) << 24u32) | ((b[at + 1] as u32) << 16u32) | ((b[at + 2] as u32) << 8u32) | (b[at
        + 3] as u32)
}

/// The 16 header bytes of a frame of `kind` for `request` with a payload of
/// `length` bytes.
pub open spec fn header_bytes(kind: FrameKind, request: u64, length: u32) -> Seq<u8> {
    seq![PROTOCOL_VERSION, kind_wire(kind), 0u8, 0u8] + u64_be_bytes(request) + u32_be_bytes(length)
}

/// The bytes of one whole frame: its header, then `payload`.
pub open spec fn frame_bytes(kind: FrameKind, request: u64, payload: Seq<u8>) -> Seq<u8> {
    header_bytes(kind, request, payload.len() as u32) + payload
}

/// What a 16-byte header means: the frame it announces and its payload length,
/// or the first check it fails (version, kind, flags, length, in that order).
/// The frame a header with this kind and request field announces: a
/// control frame belongs to no request, so its request is zero.
pub open spec fn frame_of(kind: FrameKind, request: u64) -> Frame {
    Frame {
        kind,
        request: match kind {
            FrameKind::Control => 0,
            FrameKind::Body => request,
        },
    }
}

pub open spec fn decode_header_spec(h: Seq<u8>) -> Result<(Frame, nat), ChannelError> {
    if h[0] != PROTOCOL_VERSION {
        Err(ChannelError::UnsupportedVersion)
    } else {
        match kind_from_wire(h[1]) {
            None => Err(ChannelError::UnknownKind),
            Some(kind) => if h[2] != 0 || h[3] != 0 {
                Err(ChannelError::NonzeroFlags)
            } else if u32_from_be(h, 12) > kind_max_payload(kind) {
                Err(ChannelError::FrameTooLarge)
            } else {
                Ok((frame_of(kind, u64_from_be(h, 4)), u32_from_be(h, 12) as nat))
            },
        }
    }
}

/// What reading one frame from `input` gives: `Ok(None)` at a clean end of
/// input, the frame and its payload, or the error.
pub open spec fn read_frame_spec(input: Seq<u8>) -> Result<Option<(Frame, Seq<u8>)>, ChannelError> {
    if input.len() == 0 {
        Ok(None)
    } else if input.len() < HEADER_BYTES {
        Err(ChannelError::Truncated)
    } else {
        match decode_header_spec(input.take(HEADER_BYTES as int)) {
            Err(e) => Err(e),
            Ok((frame, length)) => if input.len() < HEADER_BYTES + length {
                Err(ChannelError::Truncated)
            } else {
                Ok(Some((frame, input.subrange(HEADER_BYTES as int, HEADER_BYTES + length))))
            },
        }
    }
}

proof fn lemma_u64_be_round_trip(x: u64)
    ensures
        u64_from_be(u64_be_bytes(x), 0) == x,
{
    let b = u64_be_bytes(x);
    let (b0, b1, b2, b3, b4, b5, b6, b7) = (b[0], b[1], b[2], b[3], b[4], b[5], b[6], b[7]);
    assert(b0 == (x >> 56u64) as u8 && b1 == (x >> 48u64) as u8 && b2 == (x >> 40u64) as u8 && b3
        == (x >> 32u64) as u8 && b4 == (x >> 24u64) as u8 && b5 == (x >> 16u64) as u8 && b6 == (x
        >> 8u64) as u8 && b7 == x as u8);
    assert(((b0 as u64) << 56u64) | ((b1 as u64) << 48u64) | ((b2 as u64) << 40u64) | ((b3 as u64)
        << 32u64) | ((b4 as u64) << 24u64) | ((b5 as u64) << 16u64) | ((b6 as u64) << 8u64) | (
    b7 as u64) == x) by (bit_vector)
        requires
            b0 == (x >> 56u64) as u8,
            b1 == (x >> 48u64) as u8,
            b2 == (x >> 40u64) as u8,
            b3 == (x >> 32u64) as u8,
            b4 == (x >> 24u64) as u8,
            b5 == (x >> 16u64) as u8,
            b6 == (x >> 8u64) as u8,
            b7 == x as u8,
    ;
}

proof fn lemma_u32_be_round_trip(x: u32)
    ensures
        u32_from_be(u32_be_bytes(x), 0) == x,
{
    let b = u32_be_bytes(x);
    let (b0, b1, b2, b3) = (b[0], b[1], b[2], b[3]);
    assert(b0 == (x >> 24u32) as u8 && b1 == (x >> 16u32) as u8 && b2 == (x >> 8u32) as u8 && b3
        == x as u8);
    assert(((b0 as u32) << 24u32) | ((b1 as u32) << 16u32) | ((b2 as u32) << 8u32) | (b3 as u32)
        == x) by (bit_vector)
        requires
            b0 == (x >> 24u32) as u8,
            b1 == (x >> 16u32) as u8,
            b2 == (x >> 8u32) as u8,
            b3 == x as u8,
    ;
}

/// Decoding the header of a frame gives back the kind, request and length it
/// was written with; a control frame's request reads as zero.
pub proof fn lemma_header_round_trip(kind: FrameKind, request: u64, length: u32)
    requires
        length <= kind_max_payload(kind),
    ensures
        header_bytes(kind, request, length).len() == HEADER_BYTES,
        decode_header_spec(header_bytes(kind, request, length)) == Ok::<(Frame, nat), ChannelError>(
            (frame_of(kind, request), length as nat),
        ),
{
    let h = header_bytes(kind, request, length);
    lemma_u64_be_round_trip(request);
    lemma_u32_be_round_trip(length);
    assert(h.subrange(4, 12) =~= u64_be_bytes(request));
    assert(h.subrange(12, 16) =~= u32_be_bytes(length));
    assert(u64_from_be(h, 4) == u64_from_be(u64_be_bytes(request), 0));
    assert(u32_from_be(h, 12) == u32_from_be(u32_be_bytes(length), 0));
}

proof fn lemma_be_bytes_of_decoded(h: Seq<u8>)
    requires
        h.len() == HEADER_BYTES,
    ensures
        u64_be_bytes(u64_from_be(h, 4)) == h.subrange(4, 12),
        u32_be_bytes(u32_from_be(h, 12)) == h.subrange(12, 16),
{
    let (b0, b1, b2, b3, b4, b5, b6, b7) = (h[4], h[5], h[6], h[7], h[8], h[9], h[10], h[11]);
    let x = u64_from_be(h, 4);
    assert(x == ((b0 as u64) << 56u64) | ((b1 as u64) << 48u64) | ((b2 as u64) << 40u64) | ((
    b3 as u64) << 32u64) | ((b4 as u64) << 24u64) | ((b5 as u64) << 16u64) | ((b6 as u64) << 8u64)
        | (b7 as u64));
    assert((x >> 56u64) as u8 == b0 && (x >> 48u64) as u8 == b1 && (x >> 40u64) as u8 == b2 && (x
        >> 32u64) as u8 == b3 && (x >> 24u64) as u8 == b4 && (x >> 16u64) as u8 == b5 && (x
        >> 8u64) as u8 == b6 && x as u8 == b7) by (bit_vector)
        requires
            x == ((b0 as u64) << 56u64) | ((b1 as u64) << 48u64) | ((b2 as u64) << 40u64) | ((
            b3 as u64) << 32u64) | ((b4 as u64) << 24u64) | ((b5 as u64) << 16u64) | ((b6 as u64)
                << 8u64) | (b7 as u64),
    ;
    assert(u64_be_bytes(x) =~= h.subrange(4, 12));
    let (c0, c1, c2, c3) = (h[12], h[13], h[14], h[15]);
    let y = u32_from_be(h, 12);
    assert(y == ((c0 as u32) << 24u32) | ((c1 as u32) << 16u32) | ((c2 as u32) << 8u32) | (
    c3 as u32));
    assert((y >> 24u32) as u8 == c0 && (y >> 16u32) as u8 == c1 && (y >> 8u32) as u8 == c2 && y as u8
        == c3) by (bit_vector)
        requires
            y == ((c0 as u32) << 24u32) | ((c1 as u32) << 16u32) | ((c2 as u32) << 8u32) | (
            c3 as u32),
    ;
    assert(u32_be_bytes(y) =~= h.subrange(12, 16));
}

/// Headers are canonical: a header that decodes is exactly the header that
/// encoding its kind, its request field and its length writes.
pub proof fn lemma_decoded_header_is_canonical(h: Seq<u8>)
    requires
        h.len() == HEADER_BYTES,
        decode_header_spec(h) is Ok,
    ensures
        ({
            let (frame, length) = decode_header_spec(h)->Ok_0;
            header_bytes(frame.kind, u64_from_be(h, 4), length as u32) == h
        }),
{
    lemma_be_bytes_of_decoded(h);
    let (frame, length) = decode_header_spec(h)->Ok_0;
    assert(kind_wire(frame.kind) == h[1]);
    assert(header_bytes(frame.kind, u64_from_be(h, 4), length as u32) =~= h);
}

/// What a read gives back of a write: reading from the bytes of a written
/// frame, whatever follows them, yields that frame and exactly its payload
/// (a control frame with request zero, as every control frame reads).
pub proof fn lemma_read_after_write(
    kind: FrameKind,
    request: u64,
    payload: Seq<u8>,
    rest: Seq<u8>,
)
    requires
        payload.len() <= kind_max_payload(kind),
    ensures
        read_frame_spec(frame_bytes(kind, request, payload) + rest) == Ok::<
            Option<(Frame, Seq<u8>)>,
            ChannelError,
        >(Some((frame_of(kind, request), payload))),
{
    let length = payload.len() as u32;
    assert(kind_max_payload(kind) <= MAX_CONTROL_BYTES);
    lemma_header_round_trip(kind, request, length);
    let input = frame_bytes(kind, request, payload) + rest;
    assert(input.take(HEADER_BYTES as int) =~= header_bytes(kind, request, length));
    assert(input.subrange(HEADER_BYTES as int, HEADER_BYTES + payload.len()) =~= payload);
}

/// Appends the big-endian bytes of `x` to `out`.
fn push_u64_be(out: &mut Vec<u8>, x: u64)
    ensures
        final(out)@ == old(out)@ + u64_be_bytes(x),
{
    out.push((x >> 56u64) as u8);
    out.push((x >> 48u64) as u8);
    out.push((x >> 40u64) as u8);
    out.push((x >> 32u64) as u8);
    out.push((x >> 24u64) as u8);
    out.push((x >> 16u64) as u8);
    out.push((x >> 8u64) as u8);
    out.push(x as u8);
}

/// Appends the big-endian bytes of `x` to `out`.
fn push_u32_be(out: &mut Vec<u8>, x: u32)
    ensures
        final(out)@ == old(out)@ + u32_be_bytes(x),
{
    out.push((x >> 24u32) as u8);
    out.push((x >> 16u32) as u8);
    out.push((x >> 8u32) as u8);
    out.push(x as u8);
}

/// The 16 header bytes of a frame of `kind` for `request` whose payload is
/// `length` bytes long.
pub fn encode_header(kind: FrameKind, request: u64, length: u32) -> (header: Vec<u8>)
    ensures
        header@ == header_bytes(kind, request, length),
        header@.len() == HEADER_BYTES,
{
    let mut header: Vec<u8> = Vec::with_capacity(HEADER_BYTES);
    header.push(PROTOCOL_VERSION);
    header.push(kind.wire());
    // A zero flags field; readers reject nonzero values.
    header.push(0u8);
    header.push(0u8);
    push_u64_be(&mut header, request);
    push_u32_be(&mut header, length);
    assert(header@ =~= header_bytes(kind, request, length));
    header
}

/// Writes one frame with the fixed header, appending it to `writer`.
///
/// A payload larger than the kind's cap is refused before anything is
/// written.
pub fn write_frame(writer: &mut Vec<u8>, kind: FrameKind, request: u64, payload: &[u8]) -> (result:
    Result<(), ChannelError>)
    ensures
        payload@.len() > kind_max_payload(kind) ==> result == Err::<(), ChannelError>(
            ChannelError::Oversized,
        ) && final(writer)@ == old(writer)@,
        payload@.len() <= kind_max_payload(kind) ==> result == Ok::<(), ChannelError>(())
            && final(writer)@ == old(writer)@ + frame_bytes(kind, request, payload@),
{
    if payload.len() > kind.max_payload() {
        return Err(ChannelError::Oversized);
    }
    let length = payload.len() as u32;
    let header = encode_header(kind, request, length);
    let ghost start = writer@;
    let mut i: usize = 0;
    while i < HEADER_BYTES
        invariant
            0 <= i <= HEADER_BYTES,
            header@.len() == HEADER_BYTES,
            writer@ == start + header@.take(i as int),
        decreases HEADER_BYTES - i,
    {
        writer.push(header[i]);
        i = i + 1;
        assert(writer@ =~= start + header@.take(i as int));
    }
    let ghost with_header = writer@;
    let mut j: usize = 0;
    while j < payload.len()
        invariant
            0 <= j <= payload@.len(),
            writer@ == with_header + payload@.take(j as int),
        decreases payload@.len() - j,
    {
        writer.push(payload[j]);
        j = j + 1;
        assert(writer@ =~= with_header + payload@.take(j as int));
    }
    assert(header@.take(HEADER_BYTES as int) =~= header@);
    assert(payload@.take(payload@.len() as int) =~= payload@);
    assert(writer@ =~= start + frame_bytes(kind, request, payload@));
    Ok(())
}

/// Writes one raw body chunk for `request`.
pub fn write_body(writer: &mut Vec<u8>, request: u64, payload: &[u8]) -> (result: Result<
    (),
    ChannelError,
>)
    ensures
        payload@.len() > MAX_BODY_CHUNK_BYTES ==> result == Err::<(), ChannelError>(
            ChannelError::Oversized,
        ) && final(writer)@ == old(writer)@,
        payload@.len() <= MAX_BODY_CHUNK_BYTES ==> result == Ok::<(), ChannelError>(())
            && final(writer)@ == old(writer)@ + frame_bytes(FrameKind::Body, request, payload@),
{
    write_frame(writer, FrameKind::Body, request, payload)
}

/// Checks one 16-byte header: the frame it announces and its payload length,
/// or the first check it fails.
pub fn decode_header(header: &[u8]) -> (result: Result<(Frame, u32), ChannelError>)
    requires
        header@.len() == HEADER_BYTES,
    ensures
        match decode_header_spec(header@) {
            Ok((frame, length)) => result == Ok::<(Frame, u32), ChannelError>((frame, length as u32)),
            Err(e) => result == Err::<(Frame, u32), ChannelError>(e),
        },
{
    if header[0] != PROTOCOL_VERSION {
        return Err(ChannelError::UnsupportedVersion);
    }
    let kind = match FrameKind::from_wire(header[1]) {
        Some(kind) => kind,
        None => return Err(ChannelError::UnknownKind),
    };
    if header[2] != 0 || header[3] != 0 {
        return Err(ChannelError::NonzeroFlags);
    }
    let request = ((header[4] as u64) << 56u64) | ((header[5] as u64) << 48u64) | ((
    header[6] as u64) << 40u64) | ((header[7] as u64) << 32u64) | ((header[8] as u64) << 24u64)
        | ((header[9] as u64) << 16u64) | ((header[10] as u64) << 8u64) | (header[11] as u64);
    let length = ((header[12] as u32) << 24u32) | ((header[13] as u32) << 16u32) | ((
    header[14] as u32) << 8u32) | (header[15] as u32);
    if length as usize > kind.max_payload() {
        return Err(ChannelError::FrameTooLarge);
    }
    let request = match kind {
        FrameKind::Control => 0,
        FrameKind::Body => request,
    };
    Ok((Frame { kind, request }, length))
}

/// An in-memory byte source frames are read from: the bytes and how many of
/// them have been consumed.
pub struct Cursor {
    bytes: Vec<u8>,
    pos: usize,
}

impl Cursor {
    #[verifier::type_invariant]
    spec fn inv(&self) -> bool {
        self.pos <= self.bytes@.len()
    }

    /// The bytes not yet consumed.
    pub closed spec fn remaining(&self) -> Seq<u8> {
        self.bytes@.subrange(self.pos as int, self.bytes@.len() as int)
    }

    /// A cursor at the start of `bytes`.
    pub fn new(bytes: Vec<u8>) -> (cursor: Cursor)
        ensures
            cursor.remaining() == bytes@,
    {
        let cursor = Cursor { bytes, pos: 0 };
        assert(cursor.remaining() =~= cursor.bytes@);
        cursor
    }

    /// How many bytes are left.
    pub fn remaining_len(&self) -> (n: usize)
        ensures
            n == self.remaining().len(),
    {
        proof {
            use_type_invariant(self);
        }
        self.bytes.len() - self.pos
    }
}

/// Reads exactly `n` bytes into `buffer`, replacing its contents, or fails
/// with [`ChannelError::Truncated`] when fewer remain. A failed read consumes
/// nothing.
pub fn read_exact(reader: &mut Cursor, buffer: &mut Vec<u8>, n: usize) -> (result: Result<
    (),
    ChannelError,
>)
    ensures
        old(reader).remaining().len() < n ==> result == Err::<(), ChannelError>(
            ChannelError::Truncated,
        ) && final(reader).remaining() == old(reader).remaining() && final(buffer)@ == old(buffer)@,
        old(reader).remaining().len() >= n ==> result == Ok::<(), ChannelError>(()) && final(buffer)@ == old(reader).remaining().take(n as int) && final(reader).remaining() == old(reader).remaining().skip(n as int),
{
    proof {
        use_type_invariant(&*reader);
    }
    if reader.bytes.len() - reader.pos < n {
        return Err(ChannelError::Truncated);
    }
    let ghost rem = reader.remaining();
    buffer.clear();
    let start = reader.pos;
    let mut i: usize = 0;
    while i < n
        invariant
            0 <= i <= n,
            start + n <= reader.bytes.len(),
            reader.pos == start,
            rem == reader.bytes@.subrange(start as int, reader.bytes@.len() as int),
            buffer@ == rem.take(i as int),
        decreases n - i,
    {
        buffer.push(reader.bytes[start + i]);
        i = i + 1;
        assert(buffer@ =~= rem.take(i as int));
    }
    reader.pos = start + n;
    assert(reader.remaining() =~= rem.skip(n as int));
    Ok(())
}

/// Reads one frame header and payload into `payload`.
///
/// `Ok(None)` is a clean end of input at a frame boundary. Every other failure
/// is deterministic: an unknown version or kind, nonzero flags, an oversized
/// length, or a truncated header or payload. A control frame belongs to no
/// request: its request reads as zero, whatever the header's request field
/// holds.
///
/// A failed read consumes nothing and leaves `payload` as it was. The input
/// here is one buffer whose end is known, so every check runs before any
/// byte is taken. Reading a stream instead, a failed header check comes after
/// its 16 bytes were consumed, and a truncated payload after the payload
/// buffer was cleared and sized to the announced length and the bytes before
/// the end consumed; either way the channel is unusable after a failure.
pub fn read_frame(reader: &mut Cursor, payload: &mut Vec<u8>) -> (result: Result<
    Option<Frame>,
    ChannelError,
>)
    ensures
        match read_frame_spec(old(reader).remaining()) {
            Ok(None) => result == Ok::<Option<Frame>, ChannelError>(None) && final(reader).remaining()
                == old(reader).remaining() && final(payload)@ == old(payload)@,
            Ok(Some((frame, body))) => result == Ok::<Option<Frame>, ChannelError>(Some(frame))
                && final(payload)@ == body && final(reader).remaining() == old(reader).remaining().skip(HEADER_BYTES + body.len()),
            Err(e) => result == Err::<Option<Frame>, ChannelError>(e) && final(reader).remaining()
                == old(reader).remaining() && final(payload)@ == old(payload)@,
        },
        result matches Ok(Some(f)) ==> (f.kind == FrameKind::Control ==> f.request == 0),
{
    proof {
        use_type_invariant(&*reader);
    }
    let ghost rem = reader.remaining();
    let available = reader.bytes.len() - reader.pos;
    if available == 0 {
        return Ok(None);
    }
    if available < HEADER_BYTES {
        return Err(ChannelError::Truncated);
    }
    let start = reader.pos;
    let header = &reader.bytes.as_slice()[start..start + HEADER_BYTES];
    assert(header@ =~= rem.take(HEADER_BYTES as int));
    let (frame, length) = match decode_header(header) {
        Ok(decoded) => decoded,
        Err(e) => return Err(e),
    };
    let length = length as usize;
    if available - HEADER_BYTES < length {
        return Err(ChannelError::Truncated);
    }
    reader.pos = start + HEADER_BYTES;
    assert(reader.remaining() =~= rem.skip(HEADER_BYTES as int));
    let read = read_exact(reader, payload, length);
    assert(rem.skip(HEADER_BYTES as int).take(length as int) =~= rem.subrange(
        HEADER_BYTES as int,
        HEADER_BYTES + length,
    ));
    assert(rem.skip(HEADER_BYTES as int).skip(length as int) =~= rem.skip(HEADER_BYTES + length));
    Ok(Some(frame))
}

/// Reads one raw body chunk into `buffer`, returning its request id.
///
/// A control frame in its place is consumed and reported as
/// [`ChannelError::ExpectedBody`].
pub fn read_body(reader: &mut Cursor, buffer: &mut Vec<u8>) -> (result: Result<
    Option<u64>,
    ChannelError,
>)
    ensures
        match read_frame_spec(old(reader).remaining()) {
            Ok(None) => result == Ok::<Option<u64>, ChannelError>(None) && final(reader).remaining()
                == old(reader).remaining() && final(buffer)@ == old(buffer)@,
            Ok(Some((frame, body))) => final(buffer)@ == body && final(reader).remaining() == old(reader).remaining().skip(HEADER_BYTES + body.len()) && (frame.kind == FrameKind::Body
                ==> result == Ok::<Option<u64>, ChannelError>(Some(frame.request))) && (frame.kind
                == FrameKind::Control ==> result == Err::<Option<u64>, ChannelError>(
                ChannelError::ExpectedBody,
            )),
            Err(e) => result == Err::<Option<u64>, ChannelError>(e) && final(reader).remaining()
                == old(reader).remaining() && final(buffer)@ == old(buffer)@,
        },
{
    match read_frame(reader, buffer) {
        Err(e) => Err(e),
        Ok(None) => Ok(None),
        Ok(Some(frame)) => match frame.kind {
            FrameKind::Body => Ok(Some(frame.request)),
            FrameKind::Control => Err(ChannelError::ExpectedBody),
        },
    }
}

/// Reads one control frame's payload into `buffer`; `Ok(true)` when a control
/// frame was read, `Ok(false)` at a clean end of input. The payload is the
/// JSON text of one control message.
///
/// A body frame in its place is consumed and reported as
/// [`ChannelError::ExpectedControl`].
pub fn read_control_frame(reader: &mut Cursor, buffer: &mut Vec<u8>) -> (result: Result<
    bool,
    ChannelError,
>)
    ensures
        match read_frame_spec(old(reader).remaining()) {
            Ok(None) => result == Ok::<bool, ChannelError>(false) && final(reader).remaining() == old(reader).remaining() && final(buffer)@ == old(buffer)@,
            Ok(Some((frame, body))) => final(buffer)@ == body && final(reader).remaining() == old(reader).remaining().skip(HEADER_BYTES + body.len()) && (frame.kind == FrameKind::Control
                ==> result == Ok::<bool, ChannelError>(true)) && (frame.kind == FrameKind::Body
                ==> result == Err::<bool, ChannelError>(ChannelError::ExpectedControl)),
            Err(e) => result == Err::<bool, ChannelError>(e) && final(reader).remaining() == old(reader).remaining() && final(buffer)@ == old(buffer)@,
        },
{
    match read_frame(reader, buffer) {
        Err(e) => Err(e),
        Ok(None) => Ok(false),
        Ok(Some(frame)) => match frame.kind {
            FrameKind::Control => Ok(true),
            FrameKind::Body => Err(ChannelError::ExpectedControl),
        },
    }
}

} // verus!
