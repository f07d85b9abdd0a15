//! The start of an HTTP/2 connection over TLS (RFC 7540, section 3.5): the
//! client's connection preface, then each side's SETTINGS frame.

use vstd::prelude::*;
use crate::http2::error::{ErrorCode, ErrorName, HttpError};
use crate::http2::frame::{FrameHeader, FrameType, compress_frame, frame_octets};
use crate::http2::frame::settings::{
    SettingsFrame,
    SettingsFrameCompressModel,
    lemma_settings_frame_written,
    spec_settings_frame,
};

verus! {

/// The client connection preface: `PRI * HTTP/2.0\r\n\r\nSM\r\n\r\n`.
pub const PREFACE: [u8; 24] = [
    0x50,
    0x52,
    0x49,
    0x20,
    0x2a,
    0x20,
    0x48,
    0x54,
    0x54,
    0x50,
    0x2f,
    0x32,
    0x2e,
    0x30,
    0x0d,
    0x0a,
    0x0d,
    0x0a,
    0x53,
    0x4d,
    0x0d,
    0x0a,
    0x0d,
    0x0a,
];

/// The octets of the client connection preface.
pub open spec fn preface_octets() -> Seq<u8> {
    seq![
        0x50u8, 0x52, 0x49, 0x20, 0x2a, 0x20, 0x48, 0x54, 0x54, 0x50, 0x2f, 0x32, 0x2e, 0x30, 0x0d,
        0x0a, 0x0d, 0x0a, 0x53, 0x4d, 0x0d, 0x0a, 0x0d, 0x0a,
    ]
}

/// Whether the first octets a client sent are the connection preface.
pub fn is_preface(octets: &[u8]) -> (r: bool)
    ensures
        r == (octets@ == preface_octets()),
{
    let preface = PREFACE;
    assert(preface@ == preface_octets());
    if octets.len() != 24 {
        return false;
    }
    let mut k: usize = 0;
    while k < 24
        invariant
            k <= 24,
            octets@.len() == 24,
            preface@ == preface_octets(),
            forall|i: int| 0 <= i < k ==> octets@[i] == preface@[i],
        decreases 24 - k,
    {
        if octets[k] != preface[k] {
            return false;
        }
        k = k + 1;
    }
    assert(octets@ =~= preface_octets());
    true
}

/// What the server writes once the client's preface has arrived: the
/// preface octets and then its own SETTINGS frame, on stream 0.
pub fn handshake_response(settings: SettingsFrameCompressModel) -> (r: Vec<u8>)
    requires
        settings.spec_parameters().len() < 0x200000,
    ensures
        r@ == preface_octets() + frame_octets(settings, 0),
{
    proof {
        lemma_settings_frame_written(settings);
    }
    let preface = PREFACE;
    let mut response: Vec<u8> = Vec::new();
    crate::octets::extend_from(&mut response, &preface);
    let frame = compress_frame(settings, 0);
    crate::octets::extend_from(&mut response, frame.as_slice());
    response
}

/// The error for a first frame that is not a SETTINGS frame on stream 0.
pub open spec fn handshake_error() -> HttpError {
    HttpError::ConnectionError(ErrorCode::ProtocolError, ErrorName::StreamStateVoilation)
}

/// Reads the client's first frame, which must be a SETTINGS frame on
/// stream 0 (section 3.5).
pub fn read_client_settings(frame_header: &FrameHeader, payload: &[u8]) -> (r: Result<SettingsFrame, HttpError>)
    requires
        frame_header.length <= payload@.len(),
    ensures
        (frame_header.frame_type != Some(FrameType::Settings) || frame_header.stream_id != 0) ==> r
            == Err::<SettingsFrame, HttpError>(handshake_error()),
        (frame_header.frame_type == Some(FrameType::Settings) && frame_header.stream_id == 0) ==> {
            &&& r is Ok <==> spec_settings_frame(*frame_header, payload@) is Ok
            &&& r matches Ok(f) ==> spec_settings_frame(*frame_header, payload@) == Ok::<
                (bool, Seq<crate::http2::frame::settings::SettingsParameter>),
                HttpError,
            >((f.spec_acknowledge(), f.spec_parameters()))
            &&& r matches Err(e) ==> spec_settings_frame(*frame_header, payload@) == Err::<
                (bool, Seq<crate::http2::frame::settings::SettingsParameter>),
                HttpError,
            >(e)
        },
{
    if frame_header.frame_type != Some(FrameType::Settings) || frame_header.stream_id != 0 {
        return Err(HttpError::ConnectionError(ErrorCode::ProtocolError, ErrorName::StreamStateVoilation));
    }
    SettingsFrame::new(frame_header, payload)
}

} // verus!
