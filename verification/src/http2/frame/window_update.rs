//! WINDOW_UPDATE frames (RFC 7540, section 6.9).

use vstd::prelude::*;
use super::{
    CompressibleHttpFrame,
    FrameHeader,
    FrameType,
    flags_of,
    frame_octets,
    frame_type_of,
    length_of,
    payload_of,
    spec_frame_header,
    writable,
};
use crate::octets;
use crate::http2::error::{ErrorCode, ErrorName, HttpError};

verus! {

/// A WINDOW_UPDATE frame to be written.
#[derive(Debug)]
pub struct WindowUpdateFrameCompressModel {
    window_size_increment: u32,
}

impl WindowUpdateFrameCompressModel {
    pub closed spec fn spec_increment(&self) -> u32 {
        self.window_size_increment
    }

    pub fn new(window_size_increment: u32) -> (r: Self)
        ensures
            r.spec_increment() == window_size_increment,
    {
        WindowUpdateFrameCompressModel { window_size_increment }
    }
}

impl CompressibleHttpFrame for WindowUpdateFrameCompressModel {
    closed spec fn spec_length(&self) -> i32 {
        4
    }

    closed spec fn spec_frame_type(&self) -> FrameType {
        FrameType::WindowUpdate
    }

    closed spec fn spec_flags(&self) -> u8 {
        0
    }

    closed spec fn spec_payload(&self) -> Seq<u8> {
        octets::u32_octets(self.window_size_increment)
    }

    /// The increment is a 31-bit number: the reserved high bit is clear.
    closed spec fn payload_ok(&self) -> bool {
        self.window_size_increment < 0x8000_0000
    }

    fn get_length(&self) -> (r: i32) {
        4
    }

    fn get_frame_type(&self) -> (r: FrameType) {
        FrameType::WindowUpdate
    }

    fn get_flags(&self) -> (r: u8) {
        0
    }

    fn get_payload(self) -> (r: Vec<u8>) {
        let o = octets::u32_to_octets(self.window_size_increment);
        let mut result: Vec<u8> = Vec::new();
        octets::extend_from(&mut result, &o);
        result
    }
}

/// A received WINDOW_UPDATE frame.
pub struct WindowUpdateFrame {
    window_size_increment: u32,
}

/// What reading a WINDOW_UPDATE frame gives: a frame size error unless the
/// length is 4, else the 31-bit increment.
pub open spec fn spec_window_update(frame_header: FrameHeader, payload: Seq<u8>) -> Result<
    u32,
    HttpError,
> {
    if frame_header.length != 4 {
        Err(
            HttpError::ConnectionError(
                ErrorCode::FrameSizeError,
                ErrorName::InvalidFrameLengthForConnectionWindowUpdateFrame,
            ),
        )
    } else {
        Ok(octets::be32(payload[0], payload[1], payload[2], payload[3]))
    }
}

/// What the reader needs: a 4-octet payload is present and the reserved
/// bit of the increment is clear.
pub open spec fn window_update_readable(frame_header: FrameHeader, payload: Seq<u8>) -> bool {
    frame_header.length == 4 ==> (payload.len() >= 4 && payload[0] < 0x80)
}

impl WindowUpdateFrame {
    pub closed spec fn spec_increment(&self) -> u32 {
        self.window_size_increment
    }

    fn read(frame_header: &FrameHeader, payload: &[u8]) -> (r: Result<Self, HttpError>)
        requires
            window_update_readable(*frame_header, payload@),
        ensures
            r is Ok <==> spec_window_update(*frame_header, payload@) is Ok,
            r matches Ok(f) ==> spec_window_update(*frame_header, payload@) == Ok::<u32, HttpError>(
                f.spec_increment(),
            ),
            r matches Ok(f) ==> f.spec_increment() < 0x8000_0000,
            r matches Err(e) ==> spec_window_update(*frame_header, payload@) == Err::<u32, HttpError>(e),
    {
        if frame_header.length != 4 {
            return Err(
                HttpError::ConnectionError(
                    ErrorCode::FrameSizeError,
                    ErrorName::InvalidFrameLengthForConnectionWindowUpdateFrame,
                ),
            );
        }
        Ok(
            WindowUpdateFrame {
                window_size_increment: octets::octets_to_u32(
                    payload[0],
                    payload[1],
                    payload[2],
                    payload[3],
                ),
            },
        )
    }

    /// Reads a WINDOW_UPDATE frame for the connection.
    pub fn new_conn(frame_header: &FrameHeader, payload: &[u8]) -> (r: Result<Self, HttpError>)
        requires
            window_update_readable(*frame_header, payload@),
        ensures
            r is Ok <==> spec_window_update(*frame_header, payload@) is Ok,
            r matches Ok(f) ==> spec_window_update(*frame_header, payload@) == Ok::<u32, HttpError>(
                f.spec_increment(),
            ),
            r matches Ok(f) ==> f.spec_increment() < 0x8000_0000,
            r matches Err(e) ==> spec_window_update(*frame_header, payload@) == Err::<u32, HttpError>(e),
    {
        Self::read(frame_header, payload)
    }

    /// Reads a WINDOW_UPDATE frame for a stream.
    pub fn new_stream(frame_header: &FrameHeader, payload: &[u8]) -> (r: Result<Self, HttpError>)
        requires
            window_update_readable(*frame_header, payload@),
        ensures
            r is Ok <==> spec_window_update(*frame_header, payload@) is Ok,
            r matches Ok(f) ==> spec_window_update(*frame_header, payload@) == Ok::<u32, HttpError>(
                f.spec_increment(),
            ),
            r matches Ok(f) ==> f.spec_increment() < 0x8000_0000,
            r matches Err(e) ==> spec_window_update(*frame_header, payload@) == Err::<u32, HttpError>(e),
    {
        Self::read(frame_header, payload)
    }

    pub fn get_window_size_increment(&self) -> (r: u32)
        ensures
            r == self.spec_increment(),
    {
        self.window_size_increment
    }
}

/// A written WINDOW_UPDATE frame reads back as its increment.
pub proof fn lemma_window_update_frame_round_trip(
    model: WindowUpdateFrameCompressModel,
    stream_id: u32,
)
    requires
        model.spec_increment() < 0x8000_0000,
    ensures
        ({
            let frame = frame_octets(model, stream_id);
            let header = spec_frame_header(frame);
            let p = frame.skip(9);
            &&& header.frame_type == Some(FrameType::WindowUpdate)
            &&& header.stream_id == stream_id % 0x8000_0000
            &&& window_update_readable(header, p)
            &&& spec_window_update(header, p) == Ok::<u32, HttpError>(model.spec_increment())
        }),
{
    super::lemma_frame_round_trip(4, FrameType::WindowUpdate, 0, stream_id, model.spec_payload());
    octets::lemma_be32_u32_octets(model.spec_increment());
}


/// Reading the payload a WINDOW_UPDATE frame was written with, under any
/// header of length 4, gives its increment: the payload is the increment in
/// 31 bits, big-endian.
pub proof fn lemma_window_update_payload_round_trip(model: WindowUpdateFrameCompressModel, header: FrameHeader)
    requires
        model.spec_increment() < 0x8000_0000,
        header.length == 4,
    ensures
        window_update_readable(header, payload_of(model)),
        spec_window_update(header, payload_of(model)) == Ok::<u32, HttpError>(model.spec_increment()),
{
    octets::lemma_be32_u32_octets(model.spec_increment());
    let x = model.spec_increment();
    assert(((x / 0x1000000) % 0x100) < 0x80);
}

/// How a WINDOW_UPDATE frame is written: with no flags and a length of 4;
/// one whose increment fits in 31 bits can be written.
pub proof fn lemma_window_update_frame_written(m: WindowUpdateFrameCompressModel)
    ensures
        frame_type_of(m) == FrameType::WindowUpdate,
        flags_of(m) == 0,
        length_of(m) == 4,
        m.spec_increment() < 0x8000_0000 ==> writable(m),
        payload_of(m) == octets::u32_octets(m.spec_increment()),
{
}

} // verus!
