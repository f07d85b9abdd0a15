//! RST_STREAM frames (RFC 7540, section 6.4).

use vstd::prelude::*;
use super::{
    CompressibleHttpFrame,
    FrameHeader,
    FrameType,
    flags_of,
    frame_octets,
    frame_type_of,
    length_of,
    payload_of,
    spec_frame_header,
    writable,
};
use crate::octets;

verus! {

/// A RST_STREAM frame to be written.
#[derive(Debug)]
pub struct ResetStreamFrameCompressModel {
    error_code: u32,
}

impl ResetStreamFrameCompressModel {
    pub closed spec fn spec_error_code(&self) -> u32 {
        self.error_code
    }

    pub fn new(error_code: u32) -> (r: Self)
        ensures
            r.spec_error_code() == error_code,
    {
        ResetStreamFrameCompressModel { error_code }
    }
}

impl CompressibleHttpFrame for ResetStreamFrameCompressModel {
    closed spec fn spec_length(&self) -> i32 {
        4
    }

    closed spec fn spec_frame_type(&self) -> FrameType {
        FrameType::ResetStream
    }

    closed spec fn spec_flags(&self) -> u8 {
        0
    }

    closed spec fn spec_payload(&self) -> Seq<u8> {
        octets::u32_octets(self.error_code)
    }

    closed spec fn payload_ok(&self) -> bool {
        true
    }

    fn get_length(&self) -> (r: i32) {
        4
    }

    fn get_frame_type(&self) -> (r: FrameType) {
        FrameType::ResetStream
    }

    fn get_flags(&self) -> (r: u8) {
        0
    }

    fn get_payload(self) -> (r: Vec<u8>) {
        let o = octets::u32_to_octets(self.error_code);
        let mut result: Vec<u8> = Vec::new();
        octets::extend_from(&mut result, &o);
        result
    }
}

/// A received RST_STREAM frame.
pub struct ResetStreamFrame {
    error_code: u32,
}

impl ResetStreamFrame {
    pub closed spec fn spec_error_code(&self) -> u32 {
        self.error_code
    }

    /// Reads a RST_STREAM frame, whose payload is a 32-bit error code.
    pub fn new(frame_header: &FrameHeader, payload: &[u8]) -> (r: Self)
        requires
            frame_header.length == 4,
            payload@.len() >= 4,
        ensures
            r.spec_error_code() == octets::be32(payload@[0], payload@[1], payload@[2], payload@[3]),
    {
        ResetStreamFrame {
            error_code: octets::octets_to_u32(payload[0], payload[1], payload[2], payload[3]),
        }
    }

    pub fn get_error_code(&self) -> (r: u32)
        ensures
            r == self.spec_error_code(),
    {
        self.error_code
    }
}

/// A written RST_STREAM frame reads back as its error code.
pub proof fn lemma_reset_stream_frame_round_trip(
    model: ResetStreamFrameCompressModel,
    stream_id: u32,
)
    ensures
        ({
            let frame = frame_octets(model, stream_id);
            let header = spec_frame_header(frame);
            let p = frame.skip(9);
            &&& header.frame_type == Some(FrameType::ResetStream)
            &&& header.length == 4
            &&& header.stream_id == stream_id % 0x8000_0000
            &&& p.len() >= 4
            &&& octets::be32(p[0], p[1], p[2], p[3]) == model.spec_error_code()
        }),
{
    super::lemma_frame_round_trip(4, FrameType::ResetStream, 0, stream_id, model.spec_payload());
    octets::lemma_be32_u32_octets(model.spec_error_code());
}


/// How a RST_STREAM frame is written: with no flags and a length of 4; it
/// can always be written.
pub proof fn lemma_reset_stream_frame_written(m: ResetStreamFrameCompressModel)
    ensures
        frame_type_of(m) == FrameType::ResetStream,
        flags_of(m) == 0,
        length_of(m) == 4,
        writable(m),
        payload_of(m) == octets::u32_octets(m.spec_error_code()),
{
}

} // verus!
