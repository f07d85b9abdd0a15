//! GOAWAY frames (RFC 7540, section 6.8).

use vstd::prelude::*;
use super::{
    CompressibleHttpFrame,
    FrameHeader,
    FrameType,
    flags_of,
    frame_octets,
    length_of,
    frame_type_of,
    payload_of,
    spec_frame_header,
    writable,
};
use crate::octets;
use crate::http2::error::{self, ErrorCode, ErrorName, HttpError, error_code_value, error_message, spec_to_error_code};

verus! {

pub const LAST_STREAM_IDENTIFIER_BIT_MASK: u8 = 0x80;

/// A GOAWAY frame to be written.
pub struct GoAwayFrameCompressModel {
    last_stream_identifier: u32,
    error_code: ErrorCode,
    additional_debug_data: Vec<u8>,
}

impl GoAwayFrameCompressModel {
    pub closed spec fn spec_last_stream_identifier(&self) -> u32 {
        self.last_stream_identifier
    }

    pub closed spec fn spec_error_code(&self) -> ErrorCode {
        self.error_code
    }

    pub closed spec fn spec_debug_data(&self) -> Seq<u8> {
        self.additional_debug_data@
    }

    /// A GOAWAY frame for graceful shutdown: last stream 0, NO_ERROR, no
    /// debug data.
    pub fn new() -> (r: Self)
        ensures
            r.spec_last_stream_identifier() == 0,
            r.spec_error_code() == ErrorCode::NoError,
            r.spec_debug_data() == Seq::<u8>::empty(),
    {
        GoAwayFrameCompressModel {
            last_stream_identifier: 0,
            error_code: ErrorCode::NoError,
            additional_debug_data: Vec::new(),
        }
    }
}

/// The error code an error carries.
pub open spec fn code_of(http_error: HttpError) -> ErrorCode {
    match http_error {
        HttpError::ConnectionError(code, _) => code,
        HttpError::StreamError(code, _) => code,
    }
}

/// The name an error carries.
pub open spec fn name_of(http_error: HttpError) -> ErrorName {
    match http_error {
        HttpError::ConnectionError(_, name) => name,
        HttpError::StreamError(_, name) => name,
    }
}

impl GoAwayFrameCompressModel {
    /// A GOAWAY frame for an error: the last stream the server started to
    /// process, the error's code, and the error's message as debug data
    /// (left out if it were too long for a frame).
    pub fn for_error(last_stream_identifier: u32, http_error: HttpError) -> (r: Self)
        ensures
            r.spec_last_stream_identifier() == last_stream_identifier,
            r.spec_error_code() == code_of(http_error),
            r.spec_debug_data() == if error_message(name_of(http_error)).len() < 0x1000 {
                error_message(name_of(http_error))
            } else {
                Seq::<u8>::empty()
            },
            r.spec_debug_data().len() < 0x1000,
    {
        let (error_code, name) = match http_error {
            HttpError::ConnectionError(code, name) => (code, name),
            HttpError::StreamError(code, name) => (code, name),
        };
        let message = Vec::<u8>::from(name);
        let additional_debug_data = if message.len() < 0x1000 {
            message
        } else {
            Vec::new()
        };
        GoAwayFrameCompressModel { last_stream_identifier, error_code, additional_debug_data }
    }
}

impl CompressibleHttpFrame for GoAwayFrameCompressModel {
    closed spec fn spec_length(&self) -> i32 {
        (8 + self.additional_debug_data@.len()) as i32
    }

    closed spec fn spec_frame_type(&self) -> FrameType {
        FrameType::GoAway
    }

    closed spec fn spec_flags(&self) -> u8 {
        0
    }

    closed spec fn spec_payload(&self) -> Seq<u8> {
        octets::u32_octets(self.last_stream_identifier) + octets::u32_octets(
            error_code_value(self.error_code),
        ) + self.additional_debug_data@
    }

    /// The last stream identifier is 31 bits: its reserved bit is clear.
    closed spec fn payload_ok(&self) -> bool {
        self.last_stream_identifier < 0x8000_0000
    }

    fn get_length(&self) -> (r: i32) {
        let len: u64 = self.additional_debug_data.len() as u64;
        let low: u64 = len % 0x1_0000_0000;
        assert(((low + 8) as i32) == ((len + 8) as i32)) by (bit_vector)
            requires
                low == len % 0x1_0000_0000,
        ;
        (low + 8) as i32
    }

    fn get_frame_type(&self) -> (r: FrameType) {
        FrameType::GoAway
    }

    fn get_flags(&self) -> (r: u8) {
        0
    }

    fn get_payload(self) -> (r: Vec<u8>) {
        let mut result: Vec<u8> = Vec::new();
        let o = octets::u32_to_octets(self.last_stream_identifier);
        octets::extend_from(&mut result, &o);
        let e = octets::u32_to_octets(u32::from(self.error_code));
        octets::extend_from(&mut result, &e);
        octets::extend_from(&mut result, self.additional_debug_data.as_slice());
        result
    }
}

/// A received GOAWAY frame.
pub struct GoAwayFrame {
    last_stream_identifier: u32,
    error_code: ErrorCode,
    additional_debug_data: Vec<u8>,
}

/// The error code of a GOAWAY frame: an unknown code is read as
/// INTERNAL_ERROR (RFC 7540, section 7).
pub open spec fn spec_go_away_error_code(payload: Seq<u8>) -> ErrorCode {
    match spec_to_error_code(octets::be32(payload[4], payload[5], payload[6], payload[7])) {
        Some(c) => c,
        None => ErrorCode::InternalError,
    }
}

/// The debug data of a GOAWAY frame: the octets after the first eight, up
/// to the frame's length.
pub open spec fn spec_debug_data(frame_header: FrameHeader, payload: Seq<u8>) -> Seq<u8> {
    if frame_header.length <= 8 {
        Seq::<u8>::empty()
    } else {
        payload.subrange(8, frame_header.length as int)
    }
}

impl GoAwayFrame {
    pub closed spec fn spec_last_stream_identifier(&self) -> u32 {
        self.last_stream_identifier
    }

    pub closed spec fn spec_error_code(&self) -> ErrorCode {
        self.error_code
    }

    pub closed spec fn spec_debug_data(&self) -> Seq<u8> {
        self.additional_debug_data@
    }

    /// Reads a GOAWAY frame.
    pub fn new(frame_header: &FrameHeader, payload: &[u8]) -> (r: Self)
        requires
            payload@.len() >= 8,
            frame_header.length <= payload@.len(),
            payload@[0] < 0x80,
        ensures
            r.spec_last_stream_identifier() == octets::be32(
                payload@[0],
                payload@[1],
                payload@[2],
                payload@[3],
            ),
            r.spec_error_code() == spec_go_away_error_code(payload@),
            r.spec_debug_data() == spec_debug_data(*frame_header, payload@),
    {
        let last_stream_identifier = octets::octets_to_u32(payload[0], payload[1], payload[2], payload[3]);
        let code = octets::octets_to_u32(payload[4], payload[5], payload[6], payload[7]);
        let error_code = match error::to_error_code(code) {
            Some(c) => c,
            None => ErrorCode::InternalError,
        };
        let additional_debug_data = if frame_header.length <= 8 {
            Vec::new()
        } else {
            octets::copy_range(payload, 8, frame_header.length as usize)
        };
        GoAwayFrame { last_stream_identifier, error_code, additional_debug_data }
    }

    pub fn get_last_stream_identifier(&self) -> (r: u32)
        ensures
            r == self.spec_last_stream_identifier(),
    {
        self.last_stream_identifier
    }

    pub fn get_error_code(&self) -> (r: &ErrorCode)
        ensures
            *r == self.spec_error_code(),
    {
        &self.error_code
    }

    pub fn get_additional_debug_data(&self) -> (r: &[u8])
        ensures
            r@ == self.spec_debug_data(),
    {
        self.additional_debug_data.as_slice()
    }
}

/// A written GOAWAY frame reads back as its last stream identifier, error
/// code and debug data.
pub proof fn lemma_go_away_frame_round_trip(model: GoAwayFrameCompressModel, stream_id: u32)
    requires
        8 + model.spec_debug_data().len() < 0x1000000,
        model.spec_last_stream_identifier() < 0x8000_0000,
    ensures
        ({
            let frame = frame_octets(model, stream_id);
            let header = spec_frame_header(frame);
            let p = frame.skip(9);
            &&& header.frame_type == Some(FrameType::GoAway)
            &&& p.len() >= 8
            &&& header.length <= p.len()
            &&& p[0] < 0x80
            &&& octets::be32(p[0], p[1], p[2], p[3]) == model.spec_last_stream_identifier()
            &&& spec_go_away_error_code(p) == model.spec_error_code()
            &&& spec_debug_data(header, p) == model.spec_debug_data()
        }),
{
    let p = model.spec_payload();
    let len = 8 + model.spec_debug_data().len();
    super::lemma_frame_round_trip(len as u32, FrameType::GoAway, 0, stream_id, p);
    let frame = frame_octets(model, stream_id);
    let header = spec_frame_header(frame);
    assert(frame.skip(9) == p);
    assert(header.length == len);
    let id = model.spec_last_stream_identifier();
    let code = error_code_value(model.spec_error_code());
    octets::lemma_be32_u32_octets(id);
    octets::lemma_be32_u32_octets(code);
    error::lemma_error_code_round_trip(model.spec_error_code());
    assert(p[0] == octets::u32_octets(id)[0]);
    assert(p[4] == octets::u32_octets(code)[0] && p[5] == octets::u32_octets(code)[1] && p[6]
        == octets::u32_octets(code)[2] && p[7] == octets::u32_octets(code)[3]);
    if header.length > 8 {
        assert(p.subrange(8, header.length as int) =~= model.spec_debug_data());
    } else {
        assert(model.spec_debug_data() =~= Seq::<u8>::empty());
    }
}


/// How a GOAWAY frame is written: with no flags, its last stream
/// identifier, error code and debug data; one whose last stream identifier
/// fits in 31 bits and whose debug data is short enough can be written.
pub proof fn lemma_go_away_frame_written(m: GoAwayFrameCompressModel)
    ensures
        frame_type_of(m) == FrameType::GoAway,
        flags_of(m) == 0,
        payload_of(m) == octets::u32_octets(m.spec_last_stream_identifier()) + octets::u32_octets(
            error_code_value(m.spec_error_code()),
        ) + m.spec_debug_data(),
        (m.spec_last_stream_identifier() < 0x8000_0000 && m.spec_debug_data().len() < 0x1000)
            ==> writable(m),
        m.spec_debug_data().len() < 0x1000 ==> length_of(m) == 8 + m.spec_debug_data().len(),
{
}

} // verus!
