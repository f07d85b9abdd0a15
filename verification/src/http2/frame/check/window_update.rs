//! Checks on received WINDOW_UPDATE frames (RFC 7540, section 6.9).

use vstd::prelude::*;
use crate::http2::error::{ErrorCode, ErrorName, HttpError};
use crate::http2::frame::window_update::WindowUpdateFrame;
use crate::http2::settings::MAXIMUM_FLOW_CONTROL_WINDOW_SIZE;

verus! {

/// What a check makes of a decoded WINDOW_UPDATE frame: a zero increment is
/// a protocol error; an increment that would take the send window beyond
/// the maximum is a flow-control error; otherwise the frame is accepted.
/// `stream` says whether the errors are stream errors or connection errors.
pub open spec fn window_update_check(increment: u32, send_window: u32, stream: bool) -> Option<HttpError> {
    if increment == 0 {
        Some(
            if stream {
                HttpError::StreamError(ErrorCode::ProtocolError, ErrorName::ZeroWindowSizeIncrement)
            } else {
                HttpError::ConnectionError(ErrorCode::ProtocolError, ErrorName::ZeroWindowSizeIncrement)
            },
        )
    } else if MAXIMUM_FLOW_CONTROL_WINDOW_SIZE - increment < send_window {
        Some(
            if stream {
                HttpError::StreamError(
                    ErrorCode::FlowControlError,
                    ErrorName::WindowUpdateWouldCauseSendWindowToExceedLimit,
                )
            } else {
                HttpError::ConnectionError(
                    ErrorCode::FlowControlError,
                    ErrorName::WindowUpdateWouldCauseSendWindowToExceedLimit,
                )
            },
        )
    } else {
        None
    }
}

fn check(
    decoded_frame: Result<WindowUpdateFrame, HttpError>,
    send_window: u32,
    stream: bool,
) -> (r: Result<WindowUpdateFrame, HttpError>)
    requires
        decoded_frame matches Ok(f) ==> f.spec_increment() <= MAXIMUM_FLOW_CONTROL_WINDOW_SIZE,
    ensures
        decoded_frame matches Err(e) ==> r == Err::<WindowUpdateFrame, HttpError>(e),
        decoded_frame matches Ok(f) ==> match window_update_check(f.spec_increment(), send_window, stream) {
            Some(e) => r == Err::<WindowUpdateFrame, HttpError>(e),
            None => r == Ok::<WindowUpdateFrame, HttpError>(f),
        },
{
    match decoded_frame {
        Ok(frame) => {
            let increment = frame.get_window_size_increment();
            if increment == 0 {
                Err(
                    if stream {
                        HttpError::StreamError(ErrorCode::ProtocolError, ErrorName::ZeroWindowSizeIncrement)
                    } else {
                        HttpError::ConnectionError(ErrorCode::ProtocolError, ErrorName::ZeroWindowSizeIncrement)
                    },
                )
            } else if MAXIMUM_FLOW_CONTROL_WINDOW_SIZE - increment < send_window {
                Err(
                    if stream {
                        HttpError::StreamError(
                            ErrorCode::FlowControlError,
                            ErrorName::WindowUpdateWouldCauseSendWindowToExceedLimit,
                        )
                    } else {
                        HttpError::ConnectionError(
                            ErrorCode::FlowControlError,
                            ErrorName::WindowUpdateWouldCauseSendWindowToExceedLimit,
                        )
                    },
                )
            } else {
                Ok(frame)
            }
        },
        Err(e) => Err(e),
    }
}

/// Checks a WINDOW_UPDATE frame for the connection against its send window;
/// errors are connection errors.
pub fn check_conn_window_update(
    decoded_frame: Result<WindowUpdateFrame, HttpError>,
    send_window: u32,
) -> (r: Result<WindowUpdateFrame, HttpError>)
    requires
        decoded_frame matches Ok(f) ==> f.spec_increment() <= MAXIMUM_FLOW_CONTROL_WINDOW_SIZE,
    ensures
        decoded_frame matches Err(e) ==> r == Err::<WindowUpdateFrame, HttpError>(e),
        decoded_frame matches Ok(f) ==> match window_update_check(f.spec_increment(), send_window, false) {
            Some(e) => r == Err::<WindowUpdateFrame, HttpError>(e),
            None => r == Ok::<WindowUpdateFrame, HttpError>(f),
        },
{
    check(decoded_frame, send_window, false)
}

/// Checks a WINDOW_UPDATE frame for a stream against its send window; errors
/// are stream errors.
pub fn check_stream_window_update(
    decoded_frame: Result<WindowUpdateFrame, HttpError>,
    send_window: u32,
) -> (r: Result<WindowUpdateFrame, HttpError>)
    requires
        decoded_frame matches Ok(f) ==> f.spec_increment() <= MAXIMUM_FLOW_CONTROL_WINDOW_SIZE,
    ensures
        decoded_frame matches Err(e) ==> r == Err::<WindowUpdateFrame, HttpError>(e),
        decoded_frame matches Ok(f) ==> match window_update_check(f.spec_increment(), send_window, true) {
            Some(e) => r == Err::<WindowUpdateFrame, HttpError>(e),
            None => r == Ok::<WindowUpdateFrame, HttpError>(f),
        },
{
    check(decoded_frame, send_window, true)
}

/// An accepted increment keeps the send window within the maximum.
pub proof fn lemma_accepted_window_update(increment: u32, send_window: u32, stream: bool)
    requires
        increment <= MAXIMUM_FLOW_CONTROL_WINDOW_SIZE,
        window_update_check(increment, send_window, stream) is None,
    ensures
        send_window + increment <= MAXIMUM_FLOW_CONTROL_WINDOW_SIZE,
        increment > 0,
{
}

} // verus!
