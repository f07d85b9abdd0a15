//! CONTINUATION frames (RFC 7540, section 6.10).

use vstd::prelude::*;
use super::{
    CompressibleHttpFrame,
    FrameHeader,
    FrameType,
    flags_of,
    frame_octets,
    frame_type_of,
    length_of,
    payload_of,
    spec_frame_header,
    writable,
};
use crate::octets;

verus! {

pub const FLAG_END_HEADERS: u8 = 0x4;

/// A CONTINUATION frame to be written.
pub struct ContinuationFrameCompressModel {
    flags: u8,
    header_block_fragment: Vec<u8>,
}

impl ContinuationFrameCompressModel {
    pub closed spec fn spec_flags(&self) -> u8 {
        self.flags
    }

    pub closed spec fn spec_fragment(&self) -> Seq<u8> {
        self.header_block_fragment@
    }

    pub fn new(header_block_fragment: Vec<u8>) -> (r: Self)
        ensures
            r.spec_flags() == 0,
            r.spec_fragment() == header_block_fragment@,
    {
        ContinuationFrameCompressModel { flags: 0, header_block_fragment }
    }

    pub fn set_end_headers(&mut self)
        ensures
            final(self).spec_flags() == old(self).spec_flags() | FLAG_END_HEADERS,
            final(self).spec_fragment() == old(self).spec_fragment(),
    {
        self.flags = self.flags | FLAG_END_HEADERS;
    }
}

impl CompressibleHttpFrame for ContinuationFrameCompressModel {
    closed spec fn spec_length(&self) -> i32 {
        self.header_block_fragment@.len() as i32
    }

    closed spec fn spec_frame_type(&self) -> FrameType {
        FrameType::Continuation
    }

    closed spec fn spec_flags(&self) -> u8 {
        self.flags
    }

    closed spec fn spec_payload(&self) -> Seq<u8> {
        self.header_block_fragment@
    }

    closed spec fn payload_ok(&self) -> bool {
        true
    }

    fn get_length(&self) -> (r: i32) {
        let len: u64 = self.header_block_fragment.len() as u64;
        let low: u64 = len % 0x1_0000_0000;
        assert((low as i32) == (len as i32)) by (bit_vector)
            requires
                low == len % 0x1_0000_0000,
        ;
        low as i32
    }

    fn get_frame_type(&self) -> (r: FrameType) {
        FrameType::Continuation
    }

    fn get_flags(&self) -> (r: u8) {
        self.flags
    }

    fn get_payload(self) -> (r: Vec<u8>) {
        self.header_block_fragment
    }
}

/// A received CONTINUATION frame.
pub struct ContinuationFrame {
    end_headers: bool,
    header_block_fragment: Vec<u8>,
}

impl ContinuationFrame {
    pub closed spec fn spec_end_headers(&self) -> bool {
        self.end_headers
    }

    pub closed spec fn spec_fragment(&self) -> Seq<u8> {
        self.header_block_fragment@
    }

    /// Reads a CONTINUATION frame: its whole payload is a header block
    /// fragment.
    pub fn new(frame_header: &FrameHeader, payload: &[u8]) -> (r: Self)
        requires
            frame_header.length <= payload@.len(),
        ensures
            r.spec_fragment() == payload@.take(frame_header.length as int),
            r.spec_end_headers() == is_end_headers_spec(frame_header.flags),
    {
        let header_block_fragment = octets::copy_range(payload, 0, frame_header.length as usize);
        assert(header_block_fragment@ =~= payload@.take(frame_header.length as int));
        ContinuationFrame {
            end_headers: frame_header.flags & FLAG_END_HEADERS == FLAG_END_HEADERS,
            header_block_fragment,
        }
    }

    pub fn get_header_block_fragment(&self) -> (r: &[u8])
        ensures
            r@ == self.spec_fragment(),
    {
        self.header_block_fragment.as_slice()
    }

    pub fn is_end_headers(&self) -> (r: bool)
        ensures
            r == self.spec_end_headers(),
    {
        self.end_headers
    }
}

/// Whether the END_HEADERS flag is set.
pub open spec fn is_end_headers_spec(flags: u8) -> bool {
    flags & FLAG_END_HEADERS == FLAG_END_HEADERS
}

/// Whether the END_HEADERS flag is set in a frame's flags.
pub fn is_end_headers(flags: u8) -> (r: bool)
    ensures
        r == is_end_headers_spec(flags),
{
    flags & FLAG_END_HEADERS == FLAG_END_HEADERS
}

/// A written CONTINUATION frame reads back as the fragment it was given.
pub proof fn lemma_continuation_frame_round_trip(
    model: ContinuationFrameCompressModel,
    stream_id: u32,
)
    requires
        model.spec_fragment().len() < 0x1000000,
    ensures
        ({
            let frame = frame_octets(model, stream_id);
            let header = spec_frame_header(frame);
            let payload = frame.skip(9);
            &&& header.frame_type == Some(FrameType::Continuation)
            &&& header.flags == model.spec_flags()
            &&& header.stream_id == stream_id % 0x8000_0000
            &&& header.length <= payload.len()
            &&& payload.take(header.length as int) == model.spec_fragment()
        }),
{
    let p = model.spec_payload();
    super::lemma_frame_round_trip(
        model.spec_length() as u32,
        FrameType::Continuation,
        model.spec_flags(),
        stream_id,
        p,
    );
    assert(p.take(p.len() as int) =~= p);
}


/// How a CONTINUATION frame is written: its type, its flags, and its
/// length; one whose fragment fits in 24 bits can be written.
pub proof fn lemma_continuation_frame_written(m: ContinuationFrameCompressModel)
    ensures
        frame_type_of(m) == FrameType::Continuation,
        flags_of(m) == m.spec_flags(),
        m.spec_fragment().len() < 0x1000000 ==> length_of(m) == m.spec_fragment().len() && writable(m),
        payload_of(m) == m.spec_fragment(),
{
}

} // verus!
