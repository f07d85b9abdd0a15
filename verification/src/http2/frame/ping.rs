//! PING frames (RFC 7540, section 6.7).

use vstd::prelude::*;
use super::{CompressibleHttpFrame, FrameHeader, FrameType, frame_octets, spec_frame_header, flags_of, frame_type_of, payload_of, writable, length_of};
use crate::octets;
use crate::http2::error::{ErrorCode, ErrorName, HttpError};

verus! {

pub const FLAG_ACK: u8 = 0x1;

/// The opaque data of a PING frame sent without a payload of its own.
pub const DEFAULT_PING_PAYLOAD: [u8; 8] = [0x9, 0x2, 0xa, 0x3, 0x2, 0xe, 0x1, 0xf];

/// A PING frame to be written.
pub struct PingFrameCompressModel {
    flags: u8,
    payload: [u8; 8],
}

impl PingFrameCompressModel {
    pub closed spec fn spec_flags(&self) -> u8 {
        self.flags
    }

    pub closed spec fn spec_data(&self) -> Seq<u8> {
        self.payload@
    }

    pub fn new() -> (r: Self)
        ensures
            r.spec_flags() == 0,
            r.spec_data() == seq![0x9u8, 0x2, 0xa, 0x3, 0x2, 0xe, 0x1, 0xf],
    {
        let r = PingFrameCompressModel { flags: 0, payload: DEFAULT_PING_PAYLOAD };
        assert(r.payload@ =~= seq![0x9u8, 0x2, 0xa, 0x3, 0x2, 0xe, 0x1, 0xf]);
        r
    }

    pub fn set_acknowledge(&mut self)
        ensures
            final(self).spec_flags() == old(self).spec_flags() | FLAG_ACK,
            final(self).spec_data() == old(self).spec_data(),
    {
        self.flags = self.flags | FLAG_ACK;
    }

    pub fn set_ping_payload(&mut self, payload: [u8; 8])
        ensures
            final(self).spec_flags() == old(self).spec_flags(),
            final(self).spec_data() == payload@,
    {
        self.payload = payload;
    }
}

impl CompressibleHttpFrame for PingFrameCompressModel {
    closed spec fn spec_length(&self) -> i32 {
        8
    }

    closed spec fn spec_frame_type(&self) -> FrameType {
        FrameType::Ping
    }

    closed spec fn spec_flags(&self) -> u8 {
        self.flags
    }

    closed spec fn spec_payload(&self) -> Seq<u8> {
        self.payload@
    }

    closed spec fn payload_ok(&self) -> bool {
        true
    }

    fn get_length(&self) -> (r: i32) {
        8
    }

    fn get_frame_type(&self) -> (r: FrameType) {
        FrameType::Ping
    }

    fn get_flags(&self) -> (r: u8) {
        self.flags
    }

    fn get_payload(self) -> (r: Vec<u8>) {
        let mut result: Vec<u8> = Vec::new();
        octets::extend_from(&mut result, &self.payload);
        result
    }
}

/// A received PING frame.
pub struct PingFrame {
    payload: [u8; 8],
}

impl PingFrame {
    pub closed spec fn spec_data(&self) -> Seq<u8> {
        self.payload@
    }

    /// Reads a PING frame. A length other than 8 is a connection error of
    /// type FRAME_SIZE_ERROR.
    pub fn new(frame_header: &FrameHeader, payload: &[u8]) -> (r: Result<Self, HttpError>)
        requires
            frame_header.length == 8 ==> payload@.len() >= 8,
        ensures
            r is Ok <==> frame_header.length == 8,
            r matches Ok(f) ==> f.spec_data() == payload@.take(8),
            r matches Err(e) ==> e == HttpError::ConnectionError(
                ErrorCode::FrameSizeError,
                ErrorName::PingPayloadLength,
            ),
    {
        if frame_header.length != 8 {
            return Err(
                HttpError::ConnectionError(ErrorCode::FrameSizeError, ErrorName::PingPayloadLength),
            );
        }
        let data = [
            payload[0],
            payload[1],
            payload[2],
            payload[3],
            payload[4],
            payload[5],
            payload[6],
            payload[7],
        ];
        assert(data@ =~= payload@.take(8));
        Ok(PingFrame { payload: data })
    }

    pub fn get_payload(&self) -> (r: [u8; 8])
        ensures
            r@ == self.spec_data(),
    {
        self.payload
    }
}

/// Whether the ACK flag is set.
pub fn is_acknowledge(flags: u8) -> (r: bool)
    ensures
        r == (flags & FLAG_ACK == FLAG_ACK),
{
    flags & FLAG_ACK == FLAG_ACK
}

/// A written PING frame reads back as its opaque data.
pub proof fn lemma_ping_frame_round_trip(model: PingFrameCompressModel, stream_id: u32)
    ensures
        ({
            let frame = frame_octets(model, stream_id);
            let header = spec_frame_header(frame);
            let p = frame.skip(9);
            &&& header.frame_type == Some(FrameType::Ping)
            &&& header.flags == model.spec_flags()
            &&& header.length == 8
            &&& p.len() >= 8
            &&& p.take(8) == model.spec_data()
        }),
{
    super::lemma_frame_round_trip(8, FrameType::Ping, model.spec_flags(), stream_id, model.spec_payload());
    assert(model.spec_payload().take(8) =~= model.spec_data());
}


/// How a PING frame is written: its flags and its eight octets; it can
/// always be written.
pub proof fn lemma_ping_frame_written(m: PingFrameCompressModel)
    ensures
        frame_type_of(m) == FrameType::Ping,
        flags_of(m) == m.spec_flags(),
        payload_of(m) == m.spec_data(),
        writable(m),
        length_of(m) == 8,
{
}

} // verus!
