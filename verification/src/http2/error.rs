//! HTTP/2 error codes (RFC 7540, section 7) and the errors the protocol
//! logic reports.

use vstd::prelude::*;
use crate::octets;
use vstd::string::StringSliceAdditionalSpecFns;

verus! {

/// An error detected while processing a connection: it either ends the whole
/// connection or only the stream it occurred on.
#[derive(Debug, Clone, Copy, PartialEq, Eq, Structural)]
pub enum HttpError {
    ConnectionError(ErrorCode, ErrorName),
    StreamError(ErrorCode, ErrorName),
}

/// The error codes of RFC 7540, section 7.
#[derive(Debug, Clone, Copy, PartialEq, Eq, Structural)]
pub enum ErrorCode {
    NoError,
    ProtocolError,
    InternalError,
    FlowControlError,
    SettingsTimeout,
    StreamClosed,
    FrameSizeError,
    RefusedStream,
    Cancel,
    CompressionError,
    ConnectError,
    EnhanceYourCalm,
    InadequateSecurity,
    Http11Required,
}

/// The 32-bit value of an error code on the wire.
pub open spec fn error_code_value(error_code: ErrorCode) -> u32 {
    match error_code {
        ErrorCode::NoError => 0x0,
        ErrorCode::ProtocolError => 0x1,
        ErrorCode::InternalError => 0x2,
        ErrorCode::FlowControlError => 0x3,
        ErrorCode::SettingsTimeout => 0x4,
        ErrorCode::StreamClosed => 0x5,
        ErrorCode::FrameSizeError => 0x6,
        ErrorCode::RefusedStream => 0x7,
        ErrorCode::Cancel => 0x8,
        ErrorCode::CompressionError => 0x9,
        ErrorCode::ConnectError => 0xa,
        ErrorCode::EnhanceYourCalm => 0xb,
        ErrorCode::InadequateSecurity => 0xc,
        ErrorCode::Http11Required => 0xd,
    }
}

/// The error code with a given value, if there is one.
pub open spec fn spec_to_error_code(error_code: u32) -> Option<ErrorCode> {
    match error_code {
        0x0 => Some(ErrorCode::NoError),
        0x1 => Some(ErrorCode::ProtocolError),
        0x2 => Some(ErrorCode::InternalError),
        0x3 => Some(ErrorCode::FlowControlError),
        0x4 => Some(ErrorCode::SettingsTimeout),
        0x5 => Some(ErrorCode::StreamClosed),
        0x6 => Some(ErrorCode::FrameSizeError),
        0x7 => Some(ErrorCode::RefusedStream),
        0x8 => Some(ErrorCode::Cancel),
        0x9 => Some(ErrorCode::CompressionError),
        0xa => Some(ErrorCode::ConnectError),
        0xb => Some(ErrorCode::EnhanceYourCalm),
        0xc => Some(ErrorCode::InadequateSecurity),
        0xd => Some(ErrorCode::Http11Required),
        _ => None,
    }
}

impl From<ErrorCode> for u32 {
    fn from(error_code: ErrorCode) -> (r: u32)
        ensures
            r == error_code_value(error_code),
    {
        match error_code {
            ErrorCode::NoError => 0x0,
            ErrorCode::ProtocolError => 0x1,
            ErrorCode::InternalError => 0x2,
            ErrorCode::FlowControlError => 0x3,
            ErrorCode::SettingsTimeout => 0x4,
            ErrorCode::StreamClosed => 0x5,
            ErrorCode::FrameSizeError => 0x6,
            ErrorCode::RefusedStream => 0x7,
            ErrorCode::Cancel => 0x8,
            ErrorCode::CompressionError => 0x9,
            ErrorCode::ConnectError => 0xa,
            ErrorCode::EnhanceYourCalm => 0xb,
            ErrorCode::InadequateSecurity => 0xc,
            ErrorCode::Http11Required => 0xd,
        }
    }
}

impl vstd::std_specs::convert::FromSpecImpl<ErrorCode> for u32 {
    open spec fn obeys_from_spec() -> bool {
        true
    }

    open spec fn from_spec(v: ErrorCode) -> u32 {
        error_code_value(v)
    }
}

/// The error code carried by a 32-bit value; `None` for values that
/// RFC 7540 does not define.
pub fn to_error_code(error_code: u32) -> (r: Option<ErrorCode>)
    ensures
        r == spec_to_error_code(error_code),
        r is Some <==> error_code <= 0xd,
        r matches Some(c) ==> error_code_value(c) == error_code,
{
    match error_code {
        0x0 => Some(ErrorCode::NoError),
        0x1 => Some(ErrorCode::ProtocolError),
        0x2 => Some(ErrorCode::InternalError),
        0x3 => Some(ErrorCode::FlowControlError),
        0x4 => Some(ErrorCode::SettingsTimeout),
        0x5 => Some(ErrorCode::StreamClosed),
        0x6 => Some(ErrorCode::FrameSizeError),
        0x7 => Some(ErrorCode::RefusedStream),
        0x8 => Some(ErrorCode::Cancel),
        0x9 => Some(ErrorCode::CompressionError),
        0xa => Some(ErrorCode::ConnectError),
        0xb => Some(ErrorCode::EnhanceYourCalm),
        0xc => Some(ErrorCode::InadequateSecurity),
        0xd => Some(ErrorCode::Http11Required),
        _ => None,
    }
}

/// Every error code survives the trip to its wire value and back.
pub proof fn lemma_error_code_round_trip(error_code: ErrorCode)
    ensures
        spec_to_error_code(error_code_value(error_code)) == Some(error_code),
{
}

/// The wire values RFC 7540 (section 7) gives the error codes, both ways:
/// each code is written as its value, and each value from 0x0 to 0xd reads
/// as its code.
pub proof fn lemma_error_code_values()
    ensures
        error_code_value(ErrorCode::NoError) == 0x0,
        error_code_value(ErrorCode::ProtocolError) == 0x1,
        error_code_value(ErrorCode::InternalError) == 0x2,
        error_code_value(ErrorCode::FlowControlError) == 0x3,
        error_code_value(ErrorCode::SettingsTimeout) == 0x4,
        error_code_value(ErrorCode::StreamClosed) == 0x5,
        error_code_value(ErrorCode::FrameSizeError) == 0x6,
        error_code_value(ErrorCode::RefusedStream) == 0x7,
        error_code_value(ErrorCode::Cancel) == 0x8,
        error_code_value(ErrorCode::CompressionError) == 0x9,
        error_code_value(ErrorCode::ConnectError) == 0xa,
        error_code_value(ErrorCode::EnhanceYourCalm) == 0xb,
        error_code_value(ErrorCode::InadequateSecurity) == 0xc,
        error_code_value(ErrorCode::Http11Required) == 0xd,
        forall|v: u32| v <= 0xd ==> (#[trigger] spec_to_error_code(v) matches Some(c) && error_code_value(c) == v),
        forall|v: u32| v > 0xd ==> #[trigger] spec_to_error_code(v) is None,
{
}

/// The particular condition behind an error.
#[derive(Debug, Clone, Copy, PartialEq, Eq, Structural)]
pub enum ErrorName {
    StreamIdentifierOnConnectionFrame,
    MissingStreamIdentifierOnStreamFrame,
    PingPayloadLength,
    HeaderBlockInterupted,
    StreamStateVoilation,
    CannotPushToServer,
    TrailerHeaderBlockShouldTerminateStream,
    UnexpectedContinuationFrame,
    UnexpectedFrameOnHalfClosedStream,
    StreamIsClosed,
    ZeroWindowSizeIncrement,
    EnablePushSettingInvalidValue,
    InvalidMaxFrameSize,
    InvalidInitialWindowSize,
    ConnectionFlowControlWindowNotRespected,
    SettingsAcknowledgementWithNonZeroPayloadLength,
    SettingsFramePayloadSizeNotAMultipleOfSix,
    DataFramePayloadLargerThanSettingsValue,
    InvalidFrameLengthForConnectionWindowUpdateFrame,
    WindowUpdateWouldCauseSendWindowToExceedLimit,
    NonLowerCaseHeaderNameIsRejectedAsMalformed,
    MalformedRequestHasDuplicatePseudoHeaderMethod,
    MalformedRequestHasDuplicatePseudoHeaderScheme,
    MalformedRequestHasDuplicatePseudoHeaderPath,
    MalformedRequestHasMissingRequiredPseudoHeader,
    UnexpectedResetAfterStreamResetByRemote,
    FramePayloadLargerThanSettingsValue,
    HeaderBlockDecodingFailed,
    InvalidFrameLengthForResetStreamFrame,
    EvenStreamIdentiferOnClientInitiatedStream,
    ExpectedHigherStreamIdentiferForNewStream,
}

/// The message describing an error condition, as sent in a GOAWAY frame's
/// debug data.
pub open spec fn error_message(error_name: ErrorName) -> Seq<u8> {
    match error_name {
        ErrorName::StreamIdentifierOnConnectionFrame => "unexpected stream identifier on connection frame".spec_bytes(),
        ErrorName::MissingStreamIdentifierOnStreamFrame => "a frame which should be associated with a stream was received without a valid stream identifier".spec_bytes(),
        ErrorName::PingPayloadLength => "ping payload length other than 8".spec_bytes(),
        ErrorName::HeaderBlockInterupted => "header block interupted".spec_bytes(),
        ErrorName::StreamStateVoilation => "stream state violation".spec_bytes(),
        ErrorName::CannotPushToServer => "cannot push to server".spec_bytes(),
        ErrorName::TrailerHeaderBlockShouldTerminateStream => "the trailer header block should terminate the stream".spec_bytes(),
        ErrorName::UnexpectedContinuationFrame => "unexpected continuation frame".spec_bytes(),
        ErrorName::UnexpectedFrameOnHalfClosedStream => "unexpected frame on half closed stream".spec_bytes(),
        ErrorName::StreamIsClosed => "stream is closed".spec_bytes(),
        ErrorName::ZeroWindowSizeIncrement => "zero window size increment".spec_bytes(),
        ErrorName::EnablePushSettingInvalidValue => "enable push setting invalid value".spec_bytes(),
        ErrorName::InvalidMaxFrameSize => "invalid max frame size".spec_bytes(),
        ErrorName::InvalidInitialWindowSize => "invalid initial window size".spec_bytes(),
        ErrorName::ConnectionFlowControlWindowNotRespected => "connection flow control window not respected".spec_bytes(),
        ErrorName::SettingsAcknowledgementWithNonZeroPayloadLength => "settings acknowledge frame received with non-zero payload length".spec_bytes(),
        ErrorName::SettingsFramePayloadSizeNotAMultipleOfSix => "settings frame payload size is not a multiple of 6".spec_bytes(),
        ErrorName::DataFramePayloadLargerThanSettingsValue => "data frame payload larger than settings value".spec_bytes(),
        ErrorName::InvalidFrameLengthForConnectionWindowUpdateFrame => "invalid frame length for window update frame".spec_bytes(),
        ErrorName::WindowUpdateWouldCauseSendWindowToExceedLimit => "window update would cause send window to exceed limit".spec_bytes(),
        ErrorName::NonLowerCaseHeaderNameIsRejectedAsMalformed => "header name is not lower case".spec_bytes(),
        ErrorName::MalformedRequestHasDuplicatePseudoHeaderMethod => "duplicate :method pseudo header".spec_bytes(),
        ErrorName::MalformedRequestHasDuplicatePseudoHeaderScheme => "duplicate :scheme pseudo header".spec_bytes(),
        ErrorName::MalformedRequestHasDuplicatePseudoHeaderPath => "duplicate :path pseudo header".spec_bytes(),
        ErrorName::MalformedRequestHasMissingRequiredPseudoHeader => "missing required pseudo header".spec_bytes(),
        ErrorName::UnexpectedResetAfterStreamResetByRemote => "unexpected reset after stream reset by remote".spec_bytes(),
        ErrorName::FramePayloadLargerThanSettingsValue => "frame payload larger than settings value".spec_bytes(),
        ErrorName::HeaderBlockDecodingFailed => "header block decoding failed".spec_bytes(),
        ErrorName::InvalidFrameLengthForResetStreamFrame => "invalid frame length for reset stream frame".spec_bytes(),
        ErrorName::EvenStreamIdentiferOnClientInitiatedStream => "even stream identifier on client initiated stream".spec_bytes(),
        ErrorName::ExpectedHigherStreamIdentiferForNewStream => "expected higher stream identifier for new stream".spec_bytes(),
    }
}

impl From<ErrorName> for Vec<u8> {
    fn from(error_name: ErrorName) -> (r: Vec<u8>)
        ensures
            r@ == error_message(error_name),
    {
        let message: &str = match error_name {
            ErrorName::StreamIdentifierOnConnectionFrame => "unexpected stream identifier on connection frame",
            ErrorName::MissingStreamIdentifierOnStreamFrame => "a frame which should be associated with a stream was received without a valid stream identifier",
            ErrorName::PingPayloadLength => "ping payload length other than 8",
            ErrorName::HeaderBlockInterupted => "header block interupted",
            ErrorName::StreamStateVoilation => "stream state violation",
            ErrorName::CannotPushToServer => "cannot push to server",
            ErrorName::TrailerHeaderBlockShouldTerminateStream => "the trailer header block should terminate the stream",
            ErrorName::UnexpectedContinuationFrame => "unexpected continuation frame",
            ErrorName::UnexpectedFrameOnHalfClosedStream => "unexpected frame on half closed stream",
            ErrorName::StreamIsClosed => "stream is closed",
            ErrorName::ZeroWindowSizeIncrement => "zero window size increment",
            ErrorName::EnablePushSettingInvalidValue => "enable push setting invalid value",
            ErrorName::InvalidMaxFrameSize => "invalid max frame size",
            ErrorName::InvalidInitialWindowSize => "invalid initial window size",
            ErrorName::ConnectionFlowControlWindowNotRespected => "connection flow control window not respected",
            ErrorName::SettingsAcknowledgementWithNonZeroPayloadLength => "settings acknowledge frame received with non-zero payload length",
            ErrorName::SettingsFramePayloadSizeNotAMultipleOfSix => "settings frame payload size is not a multiple of 6",
            ErrorName::DataFramePayloadLargerThanSettingsValue => "data frame payload larger than settings value",
            ErrorName::InvalidFrameLengthForConnectionWindowUpdateFrame => "invalid frame length for window update frame",
            ErrorName::WindowUpdateWouldCauseSendWindowToExceedLimit => "window update would cause send window to exceed limit",
            ErrorName::NonLowerCaseHeaderNameIsRejectedAsMalformed => "header name is not lower case",
            ErrorName::MalformedRequestHasDuplicatePseudoHeaderMethod => "duplicate :method pseudo header",
            ErrorName::MalformedRequestHasDuplicatePseudoHeaderScheme => "duplicate :scheme pseudo header",
            ErrorName::MalformedRequestHasDuplicatePseudoHeaderPath => "duplicate :path pseudo header",
            ErrorName::MalformedRequestHasMissingRequiredPseudoHeader => "missing required pseudo header",
            ErrorName::UnexpectedResetAfterStreamResetByRemote => "unexpected reset after stream reset by remote",
            ErrorName::FramePayloadLargerThanSettingsValue => "frame payload larger than settings value",
            ErrorName::HeaderBlockDecodingFailed => "header block decoding failed",
            ErrorName::InvalidFrameLengthForResetStreamFrame => "invalid frame length for reset stream frame",
            ErrorName::EvenStreamIdentiferOnClientInitiatedStream => "even stream identifier on client initiated stream",
            ErrorName::ExpectedHigherStreamIdentiferForNewStream => "expected higher stream identifier for new stream",
        };
        octets::slice_to_vec(message.as_bytes())
    }
}

impl vstd::std_specs::convert::FromSpecImpl<ErrorName> for Vec<u8> {
    open spec fn obeys_from_spec() -> bool {
        false
    }

    open spec fn from_spec(v: ErrorName) -> Vec<u8> {
        arbitrary()
    }
}

} // verus!
