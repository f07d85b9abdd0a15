//! HTTP/2 frames (RFC 7540, section 4): the 9-octet frame header and the
//! frame types.

use vstd::prelude::*;
use crate::octets;

pub mod check;
pub mod continuation;
pub mod data;
pub mod go_away;
pub mod headers;
pub mod ping;
pub mod priority;
pub mod push_promise;
pub mod reset_stream;
pub mod settings;
pub mod window_update;

verus! {

/// The number of octets in a frame header.
pub const FRAME_HEADER_SIZE: usize = 9;

/// A frame that can be written to the wire: its length, type, flags and
/// payload.
pub trait CompressibleHttpFrame: Sized {
    /// The length the frame declares.
    spec fn spec_length(&self) -> i32;

    /// The type of the frame.
    spec fn spec_frame_type(&self) -> FrameType;

    /// The flags of the frame.
    spec fn spec_flags(&self) -> u8;

    /// The payload octets of the frame.
    spec fn spec_payload(&self) -> Seq<u8>;

    /// Whether the fields can be written: reserved bits are clear and the
    /// values are in range.
    spec fn payload_ok(&self) -> bool;

    fn get_length(&self) -> (r: i32)
        ensures
            r == self.spec_length(),
    ;

    fn get_frame_type(&self) -> (r: FrameType)
        ensures
            r == self.spec_frame_type(),
    ;

    fn get_flags(&self) -> (r: u8)
        ensures
            r == self.spec_flags(),
    ;

    fn get_payload(self) -> (r: Vec<u8>)
        requires
            self.payload_ok(),
        ensures
            r@ == self.spec_payload(),
    ;
}

/// What writing a frame needs: a length that fits in 24 bits, and fields
/// that can be written.
pub open spec fn writable<T: CompressibleHttpFrame>(frame: T) -> bool {
    0 <= frame.spec_length() < 0x1000000 && frame.payload_ok()
}

/// The type a frame is written with.
pub open spec fn frame_type_of<T: CompressibleHttpFrame>(frame: T) -> FrameType {
    frame.spec_frame_type()
}

/// The flags a frame is written with.
pub open spec fn flags_of<T: CompressibleHttpFrame>(frame: T) -> u8 {
    frame.spec_flags()
}

/// The payload a frame is written with.
pub open spec fn payload_of<T: CompressibleHttpFrame>(frame: T) -> Seq<u8> {
    frame.spec_payload()
}

/// The length a frame declares.
pub open spec fn length_of<T: CompressibleHttpFrame>(frame: T) -> int {
    frame.spec_length() as int
}

/// A frame ready to be written on a stream: its length, type, flags and
/// payload. The length fits in 24 bits.
pub struct OutgoingFrame {
    length: u32,
    frame_type: FrameType,
    flags: u8,
    payload: Vec<u8>,
}

impl OutgoingFrame {
    pub closed spec fn spec_length(&self) -> u32 {
        self.length
    }

    pub closed spec fn spec_frame_type(&self) -> FrameType {
        self.frame_type
    }

    pub closed spec fn spec_flags(&self) -> u8 {
        self.flags
    }

    pub closed spec fn spec_payload(&self) -> Seq<u8> {
        self.payload@
    }

    #[verifier::type_invariant]
    closed spec fn length_fits(&self) -> bool {
        self.length < 0x1000000
    }

    /// The octets of the frame written on a stream.
    pub open spec fn octets(&self, stream_id: u32) -> Seq<u8> {
        header_octets(self.spec_length(), frame_type_code(self.spec_frame_type()), self.spec_flags(), stream_id)
            + self.spec_payload()
    }

    /// Whether the frame ends the stream: a DATA or HEADERS frame with the
    /// END_STREAM flag.
    pub open spec fn ends_stream(&self) -> bool {
        (self.spec_frame_type() == FrameType::Data || self.spec_frame_type() == FrameType::Headers)
            && self.spec_flags() & 0x1 == 0x1
    }

    /// Takes a frame to be written later.
    pub fn new<T: CompressibleHttpFrame>(frame: T) -> (r: Self)
        requires
            writable(frame),
        ensures
            r.spec_length() == length_of(frame),
            r.spec_frame_type() == frame_type_of(frame),
            r.spec_flags() == flags_of(frame),
            r.spec_payload() == frame.spec_payload(),
            forall|stream_id: u32| #[trigger] r.octets(stream_id) == frame_octets(frame, stream_id),
    {
        let length = frame.get_length();
        let frame_type = frame.get_frame_type();
        let flags = frame.get_flags();
        let payload = frame.get_payload();
        OutgoingFrame { length: length as u32, frame_type, flags, payload }
    }

    pub fn get_length(&self) -> (r: u32)
        ensures
            r == self.spec_length(),
            r < 0x1000000,
    {
        proof {
            use_type_invariant(self);
        }
        self.length
    }

    pub fn get_frame_type(&self) -> (r: FrameType)
        ensures
            r == self.spec_frame_type(),
    {
        self.frame_type
    }

    pub fn get_flags(&self) -> (r: u8)
        ensures
            r == self.spec_flags(),
    {
        self.flags
    }

    /// Writes the frame on a stream.
    pub fn compress(self, stream_id: u32) -> (r: Vec<u8>)
        ensures
            r@ == self.octets(stream_id),
            data_length(r@) == if self.spec_frame_type() == FrameType::Data {
                self.spec_length() as int
            } else {
                0
            },
    {
        proof {
            use_type_invariant(&self);
            lemma_frame_round_trip(
                self.length,
                self.frame_type,
                self.flags,
                stream_id,
                self.payload@,
            );
            lemma_frame_type_round_trip(self.frame_type);
        }
        let length = self.length;
        let mut result: Vec<u8> = Vec::new();
        result.push(((length / 0x10000) % 0x100) as u8);
        result.push(((length / 0x100) % 0x100) as u8);
        result.push((length % 0x100) as u8);
        result.push(u8::from(self.frame_type));
        result.push(self.flags);
        result.push(((stream_id / 0x1000000) % 0x80) as u8);
        result.push(((stream_id / 0x10000) % 0x100) as u8);
        result.push(((stream_id / 0x100) % 0x100) as u8);
        result.push((stream_id % 0x100) as u8);
        let ghost head = result@;
        assert(head =~= header_octets(length, frame_type_code(self.frame_type), self.flags, stream_id));
        octets::extend_from(&mut result, self.payload.as_slice());
        result
    }
}

/// The fields of a frame header.
#[derive(Debug, Clone, Copy, PartialEq, Eq, Structural)]
pub struct FrameHeader {
    pub length: u32,
    pub frame_type: Option<FrameType>,
    pub flags: u8,
    pub stream_id: u32,
}

/// A received frame: its header and its payload.
pub struct Frame {
    pub header: FrameHeader,
    pub payload: Vec<u8>,
}

/// The frame types of RFC 7540, section 6.
#[derive(Debug, Clone, Copy, PartialEq, Eq, Structural)]
pub enum FrameType {
    Data,
    Headers,
    Priority,
    ResetStream,
    Settings,
    PushPromise,
    Ping,
    GoAway,
    WindowUpdate,
    Continuation,
}

/// The type code of a frame type on the wire.
pub open spec fn frame_type_code(frame_type: FrameType) -> u8 {
    match frame_type {
        FrameType::Data => 0x0,
        FrameType::Headers => 0x1,
        FrameType::Priority => 0x2,
        FrameType::ResetStream => 0x3,
        FrameType::Settings => 0x4,
        FrameType::PushPromise => 0x5,
        FrameType::Ping => 0x6,
        FrameType::GoAway => 0x7,
        FrameType::WindowUpdate => 0x8,
        FrameType::Continuation => 0x9,
    }
}

/// The frame type with a given code, if RFC 7540 defines one.
pub open spec fn spec_to_frame_type(frame_type: u8) -> Option<FrameType> {
    match frame_type {
        0x0 => Some(FrameType::Data),
        0x1 => Some(FrameType::Headers),
        0x2 => Some(FrameType::Priority),
        0x3 => Some(FrameType::ResetStream),
        0x4 => Some(FrameType::Settings),
        0x5 => Some(FrameType::PushPromise),
        0x6 => Some(FrameType::Ping),
        0x7 => Some(FrameType::GoAway),
        0x8 => Some(FrameType::WindowUpdate),
        0x9 => Some(FrameType::Continuation),
        _ => None,
    }
}

impl From<FrameType> for u8 {
    fn from(frame_type: FrameType) -> (r: u8) {
        match frame_type {
            FrameType::Data => 0x0,
            FrameType::Headers => 0x1,
            FrameType::Priority => 0x2,
            FrameType::ResetStream => 0x3,
            FrameType::Settings => 0x4,
            FrameType::PushPromise => 0x5,
            FrameType::Ping => 0x6,
            FrameType::GoAway => 0x7,
            FrameType::WindowUpdate => 0x8,
            FrameType::Continuation => 0x9,
        }
    }
}

impl vstd::std_specs::convert::FromSpecImpl<FrameType> for u8 {
    open spec fn obeys_from_spec() -> bool {
        true
    }

    open spec fn from_spec(v: FrameType) -> u8 {
        frame_type_code(v)
    }
}

/// The frame type with a given code; `None` for codes RFC 7540 does not
/// define (such frames are to be ignored).
pub fn to_frame_type(frame_type: u8) -> (r: Option<FrameType>)
    ensures
        r == spec_to_frame_type(frame_type),
        r is Some <==> frame_type <= 9,
        r matches Some(t) ==> frame_type_code(t) == frame_type,
{
    match frame_type {
        0x0 => Some(FrameType::Data),
        0x1 => Some(FrameType::Headers),
        0x2 => Some(FrameType::Priority),
        0x3 => Some(FrameType::ResetStream),
        0x4 => Some(FrameType::Settings),
        0x5 => Some(FrameType::PushPromise),
        0x6 => Some(FrameType::Ping),
        0x7 => Some(FrameType::GoAway),
        0x8 => Some(FrameType::WindowUpdate),
        0x9 => Some(FrameType::Continuation),
        _ => None,
    }
}

/// Every frame type survives the trip to its code and back.
pub proof fn lemma_frame_type_round_trip(frame_type: FrameType)
    ensures
        spec_to_frame_type(frame_type_code(frame_type)) == Some(frame_type),
{
}

/// The nine octets of a frame header: a 24-bit length, the type, the flags,
/// and a 31-bit stream identifier whose reserved high bit is written clear.
pub open spec fn header_octets(length: u32, frame_type: u8, flags: u8, stream_id: u32) -> Seq<u8> {
    seq![
        ((length / 0x10000) % 0x100) as u8,
        ((length / 0x100) % 0x100) as u8,
        (length % 0x100) as u8,
        frame_type,
        flags,
        ((stream_id / 0x1000000) % 0x80) as u8,
        ((stream_id / 0x10000) % 0x100) as u8,
        ((stream_id / 0x100) % 0x100) as u8,
        (stream_id % 0x100) as u8,
    ]
}

/// The octets of a whole frame: its header and its payload.
pub open spec fn frame_octets<T: CompressibleHttpFrame>(frame: T, stream_id: u32) -> Seq<u8> {
    header_octets(
        frame.spec_length() as u32,
        frame_type_code(frame.spec_frame_type()),
        frame.spec_flags(),
        stream_id,
    ) + frame.spec_payload()
}

/// Writes a frame: its header for the given stream, then its payload.
/// The frame's length must fit in 24 bits.
pub fn compress_frame<T: CompressibleHttpFrame>(frame: T, stream_id: u32) -> (r: Vec<u8>)
    requires
        0 <= frame.spec_length() < 0x1000000,
        frame.payload_ok(),
    ensures
        r@ == frame_octets(frame, stream_id),
{
    let length = frame.get_length();
    let length = length as u32;
    let mut result: Vec<u8> = Vec::new();
    result.push(((length / 0x10000) % 0x100) as u8);
    result.push(((length / 0x100) % 0x100) as u8);
    result.push((length % 0x100) as u8);
    result.push(u8::from(frame.get_frame_type()));
    result.push(frame.get_flags());
    result.push(((stream_id / 0x1000000) % 0x80) as u8);
    result.push(((stream_id / 0x10000) % 0x100) as u8);
    result.push(((stream_id / 0x100) % 0x100) as u8);
    result.push((stream_id % 0x100) as u8);
    let ghost head = result@;
    assert(head =~= header_octets(
        frame.spec_length() as u32,
        frame_type_code(frame.spec_frame_type()),
        frame.spec_flags(),
        stream_id,
    ));
    let payload = frame.get_payload();
    octets::extend_from(&mut result, payload.as_slice());
    result
}

/// The header a decoder reads from the first nine octets of a frame. The
/// reserved high bit of the stream identifier is ignored.
pub open spec fn spec_frame_header(frame: Seq<u8>) -> FrameHeader {
    FrameHeader {
        length: octets::be24(frame[0], frame[1], frame[2]),
        frame_type: spec_to_frame_type(frame[3]),
        flags: frame[4],
        stream_id: octets::be32(frame[5] % 0x80, frame[6], frame[7], frame[8]),
    }
}

/// The DATA payload a written frame carries, as a reader of its header
/// sees it: the length of a DATA frame, nothing for a frame of another type.
pub open spec fn data_length(frame: Seq<u8>) -> int {
    if frame.len() >= 9 && spec_frame_header(frame).frame_type == Some(FrameType::Data) {
        spec_frame_header(frame).length as int
    } else {
        0
    }
}

/// Reads a frame header from its nine octets.
pub fn decompress_frame_header(octets: &[u8]) -> (r: FrameHeader)
    requires
        octets@.len() >= 9,
    ensures
        r == spec_frame_header(octets@),
{
    FrameHeader {
        length: (octets[0] as u32) * 0x10000 + (octets[1] as u32) * 0x100 + (octets[2] as u32),
        frame_type: to_frame_type(octets[3]),
        flags: octets[4],
        stream_id: octets::octets_to_u32(octets[5] % 0x80, octets[6], octets[7], octets[8]),
    }
}

/// Splits a frame into its header and the octets after the header.
pub fn decompress_frame(frame: Vec<u8>) -> (r: (FrameHeader, Vec<u8>))
    requires
        frame.len() >= 9,
    ensures
        r.0 == spec_frame_header(frame@),
        r.1@ == frame@.skip(9),
{
    let header = FrameHeader {
        length: (frame[0] as u32) * 0x10000 + (frame[1] as u32) * 0x100 + (frame[2] as u32),
        frame_type: to_frame_type(frame[3]),
        flags: frame[4],
        stream_id: octets::octets_to_u32(frame[5] % 0x80, frame[6], frame[7], frame[8]),
    };
    let rest = octets::copy_range(frame.as_slice(), 9, frame.len());
    assert(rest@ =~= frame@.skip(9));
    (header, rest)
}

/// Reading back a written frame header gives its length, type, flags and
/// stream identifier (the stream identifier without its reserved bit), and
/// the octets after the header are the payload.
pub proof fn lemma_frame_round_trip(
    length: u32,
    frame_type: FrameType,
    flags: u8,
    stream_id: u32,
    payload: Seq<u8>,
)
    requires
        length < 0x1000000,
    ensures
        ({
            let frame = header_octets(length, frame_type_code(frame_type), flags, stream_id)
                + payload;
            &&& spec_frame_header(frame) == FrameHeader {
                length,
                frame_type: Some(frame_type),
                flags,
                stream_id: stream_id % 0x8000_0000,
            }
            &&& frame.skip(9) == payload
        }),
{
    let frame = header_octets(length, frame_type_code(frame_type), flags, stream_id) + payload;
    assert(frame.skip(9) =~= payload);
    octets::lemma_be24_split(length);
    octets::lemma_be32_split_31(stream_id);
    assert(frame[5] % 0x80 == frame[5]);
}

} // verus!
