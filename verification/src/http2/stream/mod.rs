//! HTTP/2 streams (RFC 7540, section 5).

use vstd::prelude::*;
use crate::http2::error::{ErrorCode, ErrorName, HttpError};
use crate::http2::frame::{Frame, FrameHeader, FrameType, OutgoingFrame};
use crate::http2::frame::check::window_update::{check_stream_window_update, window_update_check};
use crate::http2::frame::continuation::ContinuationFrame;
use crate::http2::frame::data::{DataFrame, data_frame_data, data_frame_readable};
use crate::http2::frame::headers::{
    HeaderFrame,
    has_flag,
    headers_readable,
    spec_headers_fragment,
    FLAG_END_HEADERS,
    FLAG_END_STREAM,
};
use crate::http2::frame::window_update::{WindowUpdateFrame, spec_window_update, window_update_readable};
use crate::http2::header::{Header, Headers};
use crate::http2::hpack::context::{ContextTrait, RecvContext, SendContext};
use crate::http2::hpack::pack::{self, effective_max_size, headers_view, lemma_packable};
use crate::http2::hpack::table::DEFAULT_MAX_SIZE_SETTING;
use crate::http2::connection_core::connection_shared_state::ConnectionSharedState;
use std::collections::VecDeque;
use crate::octets;
use self::state::{
    StateIdle,
    StateReservedLocal,
    StreamClosedReason,
    StreamState,
    StreamStateKind,
    StreamStateName,
    kind_of,
    state_of_kind,
};
use self::stream_response::{
    StreamResponse,
    block_sendable,
    block_to_frames,
    carries_block,
    carries_response,
    chunk_count,
    encode_block,
    promise_prefix,
    response_sendable,
};
use self::stream_request::{
    StreamRequest,
    block_error,
    block_processed,
};

pub mod state;
pub mod stream_request;
pub mod stream_response;

verus! {

/// Stream identifiers.
pub type StreamId = u32;

/// The stream identifier of connection control frames.
pub const CONNECTION_CONTROL_STREAM_ID: StreamId = 0x0;

/// Whether a stream identifier is the one of connection control frames.
pub fn is_connection_control_stream_id(stream_id: StreamId) -> (r: bool)
    ensures
        r == (stream_id == CONNECTION_CONTROL_STREAM_ID),
{
    stream_id == CONNECTION_CONTROL_STREAM_ID
}


/// Whether a frame is a HEADERS or CONTINUATION frame whose header block
/// fragment the stream takes in this state: HEADERS when idle or open;
/// CONTINUATION when open or half closed (remote) while a block is being
/// received.
pub open spec fn takes_fragment(kind: StreamStateKind, ft: FrameType, temp_empty: bool) -> bool {
    match kind {
        StreamStateKind::Idle => ft == FrameType::Headers,
        StreamStateKind::Open => ft == FrameType::Headers || (ft == FrameType::Continuation
            && !temp_empty),
        StreamStateKind::HalfClosedRemote => ft == FrameType::Continuation && !temp_empty,
        _ => false,
    }
}

/// The header block fragment a HEADERS or CONTINUATION frame carries.
pub open spec fn fragment_of(header: FrameHeader, payload: Seq<u8>) -> Seq<u8> {
    if header.frame_type == Some(FrameType::Headers) {
        spec_headers_fragment(header, payload)
    } else {
        payload.take(header.length as int)
    }
}

/// What reading and checking a WINDOW_UPDATE frame for a stream gives: an
/// error, or `None` when the increment is accepted.
pub open spec fn window_outcome(header: FrameHeader, payload: Seq<u8>, send_window: u32) -> Option<
    HttpError,
> {
    match spec_window_update(header, payload) {
        Err(e) => Some(e),
        Ok(increment) => window_update_check(increment, send_window, true),
    }
}

/// The frames a stream handles in each state: any frame when idle, open or
/// half closed (remote), any frame but PRIORITY once reset locally, any
/// frame when closed otherwise. Reserved and half closed (local) streams
/// receive nothing.
pub open spec fn recv_handled(kind: StreamStateKind, ft: FrameType) -> bool {
    match kind {
        StreamStateKind::Idle | StreamStateKind::Open | StreamStateKind::HalfClosedRemote => true,
        StreamStateKind::Closed(reason) => !(reason == StreamClosedReason::ResetLocal && ft
            == FrameType::Priority),
        _ => false,
    }
}

/// What the stream needs of the octets of a frame it reads.
pub open spec fn recv_readable(
    kind: StreamStateKind,
    temp_empty: bool,
    header: FrameHeader,
    payload: Seq<u8>,
) -> bool {
    let open = kind == StreamStateKind::Open;
    let half_closed = kind == StreamStateKind::HalfClosedRemote;
    match header.frame_type {
        Some(FrameType::Headers) => (kind == StreamStateKind::Idle || open) ==> headers_readable(
            header,
            payload,
        ),
        Some(FrameType::Data) => open ==> data_frame_readable(header, payload),
        Some(FrameType::WindowUpdate) => (open || half_closed) ==> window_update_readable(
            header,
            payload,
        ),
        Some(FrameType::Continuation) => ((open || half_closed) && !temp_empty) ==> header.length
            <= payload.len(),
        _ => true,
    }
}

/// The error of a RST_STREAM frame whose length is not 4.
pub open spec fn reset_length_error() -> HttpError {
    HttpError::ConnectionError(ErrorCode::FrameSizeError, ErrorName::InvalidFrameLengthForResetStreamFrame)
}

/// Whether a HEADERS frame can be read (`headers_readable`).
fn headers_readable_exec(header: &FrameHeader, payload: &[u8]) -> (r: bool)
    ensures
        r == headers_readable(*header, payload@),
{
    let flags = header.flags;
    let length = header.length as u64;
    let mut offset: u64 = 0;
    if flags & crate::http2::frame::headers::FLAG_PADDED == crate::http2::frame::headers::FLAG_PADDED {
        offset = 1;
    }
    if flags & crate::http2::frame::headers::FLAG_PRIORITY == crate::http2::frame::headers::FLAG_PRIORITY {
        offset = offset + 5;
    }
    if length > payload.len() as u64 || offset > length {
        return false;
    }
    let pad: u64 = if flags & crate::http2::frame::headers::FLAG_PADDED
        == crate::http2::frame::headers::FLAG_PADDED {
        payload[0] as u64
    } else {
        0
    };
    offset + pad <= length
}

/// Whether a DATA frame can be read (`data_frame_readable`).
fn data_readable_exec(header: &FrameHeader, payload: &[u8]) -> (r: bool)
    ensures
        r == data_frame_readable(*header, payload@),
{
    let length = header.length as usize;
    if header.length as u64 > payload.len() as u64 {
        return false;
    }
    let padded = header.flags & crate::http2::frame::data::FLAG_PADDED
        == crate::http2::frame::data::FLAG_PADDED;
    let data = if padded {
        if length < 1 || payload[0] as usize + 1 > length {
            return false;
        }
        octets::copy_range(payload, 1, length - payload[0] as usize)
    } else {
        octets::copy_range(payload, 0, length)
    };
    assert(data@ == data_frame_data(*header, payload@));
    octets::string_from_utf8(data).is_some()
}

/// The state a received frame moves a stream to (`None`: the state stays)
/// and the error it gives (RFC 7540, section 5.1). `block` is the error of
/// storing the header block that the frame completes, if it completes one;
/// `window` is what reading and checking a WINDOW_UPDATE frame gives.
pub open spec fn recv_transition(
    kind: StreamStateKind,
    ft: FrameType,
    flags: u8,
    length: u32,
    temp_empty: bool,
    headers_empty: bool,
    block: Option<HttpError>,
    window: Option<HttpError>,
) -> (Option<StreamStateKind>, Option<HttpError>) {
    let reset_local = StreamStateKind::Closed(StreamClosedReason::ResetLocal);
    let end_stream = has_flag(flags, FLAG_END_STREAM);
    match kind {
        StreamStateKind::Idle => match ft {
            FrameType::Headers => match block {
                Some(e) => (Some(reset_local), Some(e)),
                None => if end_stream {
                    (Some(StreamStateKind::HalfClosedRemote), None)
                } else {
                    (Some(StreamStateKind::Open), None)
                },
            },
            FrameType::PushPromise => (
                None,
                Some(HttpError::ConnectionError(ErrorCode::ProtocolError, ErrorName::CannotPushToServer)),
            ),
            _ => (
                None,
                Some(HttpError::ConnectionError(ErrorCode::ProtocolError, ErrorName::StreamStateVoilation)),
            ),
        },
        StreamStateKind::Open => match ft {
            FrameType::Data => (
                if end_stream { Some(StreamStateKind::HalfClosedRemote) } else { None },
                None,
            ),
            FrameType::Headers => match block {
                Some(e) => (Some(reset_local), Some(e)),
                None => if !headers_empty {
                    if end_stream {
                        (Some(StreamStateKind::HalfClosedRemote), None)
                    } else {
                        (
                            Some(reset_local),
                            Some(
                                HttpError::StreamError(
                                    ErrorCode::ProtocolError,
                                    ErrorName::TrailerHeaderBlockShouldTerminateStream,
                                ),
                            ),
                        )
                    }
                } else {
                    (None, None)
                },
            },
            FrameType::ResetStream => if length != 4 {
                (Some(reset_local), Some(reset_length_error()))
            } else {
                (Some(StreamStateKind::Closed(StreamClosedReason::ResetRemote)), None)
            },
            FrameType::WindowUpdate => match window {
                Some(e) => (Some(reset_local), Some(e)),
                None => (None, None),
            },
            FrameType::Continuation => if temp_empty {
                (
                    None,
                    Some(
                        HttpError::ConnectionError(
                            ErrorCode::ProtocolError,
                            ErrorName::UnexpectedContinuationFrame,
                        ),
                    ),
                )
            } else {
                match block {
                    Some(e) => (Some(reset_local), Some(e)),
                    None => (None, None),
                }
            },
            _ => (
                None,
                Some(HttpError::ConnectionError(ErrorCode::ProtocolError, ErrorName::StreamStateVoilation)),
            ),
        },
        StreamStateKind::HalfClosedRemote => match ft {
            FrameType::Continuation => if temp_empty {
                (
                    None,
                    Some(
                        HttpError::ConnectionError(
                            ErrorCode::ProtocolError,
                            ErrorName::UnexpectedContinuationFrame,
                        ),
                    ),
                )
            } else {
                match block {
                    Some(e) => (Some(reset_local), Some(e)),
                    None => (None, None),
                }
            },
            FrameType::WindowUpdate => match window {
                Some(e) => (Some(reset_local), Some(e)),
                None => (None, None),
            },
            FrameType::ResetStream => if length != 4 {
                (Some(reset_local), Some(reset_length_error()))
            } else {
                (Some(StreamStateKind::Closed(StreamClosedReason::ResetRemote)), None)
            },
            _ => (
                Some(reset_local),
                Some(
                    HttpError::StreamError(
                        ErrorCode::StreamClosed,
                        ErrorName::UnexpectedFrameOnHalfClosedStream,
                    ),
                ),
            ),
        },
        StreamStateKind::Closed(StreamClosedReason::StreamEnded) => match ft {
            FrameType::WindowUpdate | FrameType::ResetStream => (None, None),
            _ => (
                None,
                Some(HttpError::ConnectionError(ErrorCode::StreamClosed, ErrorName::StreamIsClosed)),
            ),
        },
        StreamStateKind::Closed(StreamClosedReason::ResetRemote) => match ft {
            FrameType::ResetStream => (
                None,
                Some(
                    HttpError::ConnectionError(
                        ErrorCode::ProtocolError,
                        ErrorName::UnexpectedResetAfterStreamResetByRemote,
                    ),
                ),
            ),
            _ => (
                None,
                Some(HttpError::StreamError(ErrorCode::StreamClosed, ErrorName::StreamIsClosed)),
            ),
        },
        StreamStateKind::Closed(StreamClosedReason::ResetLocal) => match ft {
            FrameType::WindowUpdate | FrameType::ResetStream => (None, None),
            _ => (
                None,
                Some(HttpError::StreamError(ErrorCode::StreamClosed, ErrorName::StreamIsClosed)),
            ),
        },
        _ => (None, None),
    }
}

/// Receiving never moves a stream back to idle, into a reserved state, or
/// into half closed (local); a closed stream stays in its state whatever it
/// receives.
pub proof fn lemma_recv_never_reopens(
    kind: StreamStateKind,
    ft: FrameType,
    flags: u8,
    length: u32,
    temp_empty: bool,
    headers_empty: bool,
    block: Option<HttpError>,
    window: Option<HttpError>,
)
    ensures
        ({
            let (next, _) = recv_transition(kind, ft, flags, length, temp_empty, headers_empty, block, window);
            &&& next matches Some(k) ==> k != StreamStateKind::Idle && k != StreamStateKind::ReservedLocal
                && k != StreamStateKind::ReservedRemote && k != StreamStateKind::HalfClosedLocal
            &&& kind is Closed ==> next is None
        }),
{
}

/// A stream closed by its end or by a reset of the server's ignores the
/// WINDOW_UPDATE and RST_STREAM frames it receives (RFC 7540, section 5.1):
/// they are handled, give no error and leave it as it is, whatever the
/// frame holds.
pub proof fn lemma_closed_stream_ignores_window_update_and_reset(
    s: Stream,
    ctx: RecvContext,
    header: FrameHeader,
    payload: Seq<u8>,
)
    requires
        s.kind() == StreamStateKind::Closed(StreamClosedReason::StreamEnded) || s.kind()
            == StreamStateKind::Closed(StreamClosedReason::ResetLocal),
        header.frame_type == Some(FrameType::WindowUpdate) || header.frame_type == Some(
            FrameType::ResetStream,
        ),
    ensures
        recv_handled(s.kind(), header.frame_type->Some_0),
        recv_outcome(s, ctx, header, payload) == (None::<StreamStateKind>, None::<HttpError>),
{
}

/// A stream error always leaves the stream closed: either it was closed
/// already, or the frame closes it.
pub proof fn lemma_stream_error_closes(
    kind: StreamStateKind,
    ft: FrameType,
    flags: u8,
    length: u32,
    temp_empty: bool,
    headers_empty: bool,
    block: Option<HttpError>,
    window: Option<HttpError>,
)
    requires
        recv_transition(kind, ft, flags, length, temp_empty, headers_empty, block, window).1 matches Some(
            HttpError::StreamError(_, _),
        ),
    ensures
        kind is Closed || recv_transition(kind, ft, flags, length, temp_empty, headers_empty, block, window).0 matches Some(
            StreamStateKind::Closed(_),
        ),
{
}

/// Sending never moves a stream back to idle, open or a reserved state
/// once it has left them, and a closed stream stays closed: sending from
/// half closed (remote) leaves it half closed or closes it.
pub proof fn lemma_send_never_reopens(kind: StreamStateKind, frame: OutgoingFrame)
    ensures
        send_step(kind, frame) matches Some(k) ==> k != StreamStateKind::Idle && k
            != StreamStateKind::ReservedLocal && k != StreamStateKind::ReservedRemote,
        kind == StreamStateKind::HalfClosedRemote ==> (send_step(kind, frame) matches Some(k) ==> k
            == StreamStateKind::HalfClosedRemote || k == StreamStateKind::Closed(
            StreamClosedReason::StreamEnded,
        )),
        kind is Closed ==> (send_step(kind, frame) matches Some(k) ==> k == kind),
{
}

/// The state sending a frame moves a stream to, or `None` when the frame
/// cannot be sent in that state (RFC 7540, section 5.1). A reserved stream
/// sends its response HEADERS; an open or half closed (remote) stream sends
/// DATA, HEADERS, PUSH_PROMISE, WINDOW_UPDATE and CONTINUATION frames, and
/// END_STREAM half closes or closes it; CONTINUATION frames may follow a
/// HEADERS frame that ended the stream, as part of it (section 6.2).
pub open spec fn send_step(kind: StreamStateKind, frame: OutgoingFrame) -> Option<StreamStateKind> {
    let t = frame.spec_frame_type();
    let ends = frame.ends_stream();
    let ended = StreamStateKind::Closed(StreamClosedReason::StreamEnded);
    let carries_data = t == FrameType::Data || t == FrameType::Headers;
    let other = t == FrameType::PushPromise || t == FrameType::WindowUpdate || t
        == FrameType::Continuation;
    match kind {
        StreamStateKind::ReservedLocal => if t == FrameType::Headers {
            Some(if ends { ended } else { StreamStateKind::HalfClosedRemote })
        } else {
            None
        },
        StreamStateKind::Open => if carries_data {
            Some(if ends { StreamStateKind::HalfClosedLocal } else { StreamStateKind::Open })
        } else if other {
            Some(StreamStateKind::Open)
        } else {
            None
        },
        StreamStateKind::HalfClosedRemote => if carries_data {
            Some(if ends { ended } else { StreamStateKind::HalfClosedRemote })
        } else if other {
            Some(StreamStateKind::HalfClosedRemote)
        } else {
            None
        },
        StreamStateKind::Closed(StreamClosedReason::StreamEnded) => if t == FrameType::Continuation {
            Some(kind)
        } else {
            None
        },
        _ => None,
    }
}

/// The state sending frames in order moves a stream to, or `None` when one
/// of them cannot be sent.
pub open spec fn send_all(kind: StreamStateKind, frames: Seq<OutgoingFrame>) -> Option<StreamStateKind>
    decreases frames.len(),
{
    if frames.len() == 0 {
        Some(kind)
    } else {
        match send_all(kind, frames.drop_last()) {
            Some(k) => send_step(k, frames.last()),
            None => None,
        }
    }
}

/// The frame types a half closed (remote) stream sends.
pub open spec fn sendable_type(t: FrameType) -> bool {
    t == FrameType::Data || t == FrameType::Headers || t == FrameType::PushPromise || t
        == FrameType::WindowUpdate || t == FrameType::Continuation
}

/// A half closed (remote) stream sends frames of its types, of which only
/// CONTINUATION frames follow one that ends the stream; it is closed after
/// them when one of them ends the stream, and stays half closed otherwise.
pub proof fn lemma_send_from_half_closed(frames: Seq<OutgoingFrame>)
    requires
        forall|i: int| 0 <= i < frames.len() ==> sendable_type((#[trigger] frames[i]).spec_frame_type()),
        forall|i: int, j: int|
            0 <= i < j < frames.len() && (#[trigger] frames[i]).ends_stream() ==> (
            #[trigger] frames[j]).spec_frame_type() == FrameType::Continuation,
    ensures
        send_all(StreamStateKind::HalfClosedRemote, frames) == Some(
            if exists|i: int| 0 <= i < frames.len() && (#[trigger] frames[i]).ends_stream() {
                StreamStateKind::Closed(StreamClosedReason::StreamEnded)
            } else {
                StreamStateKind::HalfClosedRemote
            },
        ),
    decreases frames.len(),
{
    if frames.len() > 0 {
        let init = frames.drop_last();
        let last = frames.last();
        assert forall|i: int| 0 <= i < init.len() implies sendable_type((#[trigger] init[i]).spec_frame_type()) by {
            assert(init[i] == frames[i]);
        }
        assert forall|i: int, j: int|
            0 <= i < j < init.len() && (#[trigger] init[i]).ends_stream() implies (
            #[trigger] init[j]).spec_frame_type() == FrameType::Continuation by {
            assert(init[i] == frames[i]);
            assert(init[j] == frames[j]);
        }
        lemma_send_from_half_closed(init);
        assert(frames[frames.len() - 1] == last);
        if exists|i: int| 0 <= i < init.len() && (#[trigger] init[i]).ends_stream() {
            let i = choose|i: int| 0 <= i < init.len() && (#[trigger] init[i]).ends_stream();
            assert(frames[i] == init[i]);
            assert(exists|i: int| 0 <= i < frames.len() && (#[trigger] frames[i]).ends_stream());
        } else {
            if last.ends_stream() {
                assert(exists|i: int| 0 <= i < frames.len() && (#[trigger] frames[i]).ends_stream());
            } else {
                assert forall|i: int| 0 <= i < frames.len() implies !(#[trigger] frames[i]).ends_stream() by {
                    if i < init.len() {
                        assert(frames[i] == init[i]);
                    }
                }
            }
        }
    }
}

/// A reserved stream whose first frame is HEADERS goes through the same
/// states as a half closed (remote) one.
pub proof fn lemma_send_from_reserved(frames: Seq<OutgoingFrame>)
    requires
        frames.len() > 0,
        frames[0].spec_frame_type() == FrameType::Headers,
    ensures
        send_all(StreamStateKind::ReservedLocal, frames) == send_all(
            StreamStateKind::HalfClosedRemote,
            frames,
        ),
    decreases frames.len(),
{
    if frames.len() > 1 {
        let init = frames.drop_last();
        assert(init[0] == frames[0]);
        lemma_send_from_reserved(init);
    } else {
        let init = frames.drop_last();
        assert(init.len() == 0);
        assert(send_all(StreamStateKind::ReservedLocal, init) == Some(StreamStateKind::ReservedLocal));
        assert(send_all(StreamStateKind::HalfClosedRemote, init) == Some(StreamStateKind::HalfClosedRemote));
        assert(frames.last() == frames[0]);
    }
}

/// The promised streams of a push queue, newest first: the `j`-th request
/// of the queue (newest first) is promised on the stream `first_id` plus
/// twice its distance from the oldest.
pub open spec fn promised_entries(queue: Seq<StreamRequest>, first_id: u32) -> Seq<(u32, StreamRequest)> {
    Seq::new(
        queue.len(),
        |j: int| ((first_id + 2 * (queue.len() - 1 - j)) as u32, queue[j]),
    )
}

/// Whether frames carry the PUSH_PROMISE frames for the queued pushes and
/// then a response: the newest entry of `queue` last, each promise on the
/// next identifier from `promised_id` on (counting by two), its request's
/// header block encoded in turn from the given encoder state and carried by
/// a PUSH_PROMISE frame and CONTINUATION frames; then the response as
/// `carries_response` has it. `table` is the dynamic table after the last
/// block.
#[verifier::opaque]
pub open spec fn carries_pushes_then_response(
    frames: Seq<OutgoingFrame>,
    static_fields: Seq<(Seq<char>, Seq<char>)>,
    dynamic: Seq<(Seq<char>, Seq<char>)>,
    max_size: int,
    pending: Option<u32>,
    queue: Seq<StreamRequest>,
    promised_id: StreamId,
    response: StreamResponse,
    table: Seq<(Seq<char>, Seq<char>)>,
) -> bool
    decreases queue.len(),
{
    if queue.len() > 0 {
        let (block, next) = encode_block(static_fields, dynamic, max_size, pending, queue.last().headers);
        let n = chunk_count(block.len());
        &&& n <= frames.len()
        &&& carries_block(
            frames.take(n),
            block,
            FrameType::PushPromise,
            promise_prefix(Some(promised_id)),
            false,
        )
        &&& carries_pushes_then_response(
            frames.skip(n),
            static_fields,
            next,
            effective_max_size(max_size, pending),
            None,
            queue.drop_last(),
            (promised_id + 2) as StreamId,
            response,
            table,
        )
    } else {
        carries_response(
            frames,
            static_fields,
            dynamic,
            max_size,
            pending,
            response.informational_headers@,
            response,
            table,
        )
    }
}

/// A stream: its state, the header block being received, the request, and
/// its send window.
pub struct Stream {
    id: StreamId,
    state_name: StreamStateName,
    temp_header_block: Vec<u8>,
    request: StreamRequest,
    started_processing_request: bool,
    send_frames: Vec<OutgoingFrame>,
    push_promise_queue: VecDeque<StreamRequest>,
    push_promise_publish_queue: VecDeque<(u32, StreamRequest)>,
    send_window: u32,
}

/// The state a received frame moves a stream to, and the error it gives,
/// with the decoder context the stream decodes header blocks in.
pub open spec fn recv_outcome(s: Stream, ctx: RecvContext, header: FrameHeader, payload: Seq<u8>) -> (
    Option<StreamStateKind>,
    Option<HttpError>,
) {
    let kind = s.kind();
    let ft = header.frame_type->Some_0;
    let temp_empty = s.temp().len() == 0;
    let headers_empty = s.request().headers@.len() == 0;
    let completes = takes_fragment(kind, ft, temp_empty) && has_flag(header.flags, FLAG_END_HEADERS);
    let block = if completes {
        block_error(ctx, headers_empty, s.temp() + fragment_of(header, payload))
    } else {
        None
    };
    recv_transition(
        kind,
        ft,
        header.flags,
        header.length,
        temp_empty,
        headers_empty,
        block,
        window_outcome(header, payload, s.send_window()),
    )
}

/// What receiving a frame does to a stream besides its state: a header
/// block fragment is added to the block being received, and a completed
/// block is stored (`block_processed`) and cleared; DATA on an open stream
/// becomes the request payload; an accepted WINDOW_UPDATE grows the send
/// window. Nothing else changes.
pub open spec fn recv_effect(
    s: Stream,
    t: Stream,
    ctx: RecvContext,
    ctx_after: RecvContext,
    header: FrameHeader,
    payload: Seq<u8>,
) -> bool {
    let kind = s.kind();
    let ft = header.frame_type->Some_0;
    let temp_empty = s.temp().len() == 0;
    let takes = takes_fragment(kind, ft, temp_empty);
    let completes = takes && has_flag(header.flags, FLAG_END_HEADERS);
    let block = s.temp() + fragment_of(header, payload);
    let open_or_half_closed = kind == StreamStateKind::Open || kind
        == StreamStateKind::HalfClosedRemote;
    &&& t.spec_id() == s.spec_id()
    &&& t.started() == s.started()
    &&& t.sent() == s.sent()
    &&& t.push_queue() == s.push_queue()
    &&& t.published() == s.published()
    &&& t.temp() == if !takes {
        s.temp()
    } else if completes {
        Seq::<u8>::empty()
    } else {
        block
    }
    &&& if completes {
        block_processed(s.request(), t.request(), ctx, ctx_after, block)
    } else {
        ctx_after == ctx && if kind == StreamStateKind::Open && ft == FrameType::Data {
            &&& t.request().headers@ == s.request().headers@
            &&& t.request().trailer_headers == s.request().trailer_headers
            &&& t.request().payload matches Some(p) && p@ == data_frame_data(header, payload)
        } else {
            t.request() == s.request()
        }
    }
    &&& t.send_window() == if open_or_half_closed && ft == FrameType::WindowUpdate && window_outcome(
        header,
        payload,
        s.send_window(),
    ) is None {
        (s.send_window() + spec_window_update(header, payload)->Ok_0) as u32
    } else {
        s.send_window()
    }
}

impl Stream {
    pub closed spec fn spec_id(&self) -> StreamId {
        self.id
    }

    /// The state, without what it carries.
    pub closed spec fn kind(&self) -> StreamStateKind {
        kind_of(self.state_name)
    }

    /// The header block being received.
    pub closed spec fn temp(&self) -> Seq<u8> {
        self.temp_header_block@
    }

    /// The request received so far.
    pub closed spec fn request(&self) -> StreamRequest {
        self.request
    }

    /// Whether the request has been handed out for processing.
    pub closed spec fn started(&self) -> bool {
        self.started_processing_request
    }

    pub closed spec fn send_window(&self) -> u32 {
        self.send_window
    }

    /// The frames queued to be sent.
    pub closed spec fn sent(&self) -> Seq<OutgoingFrame> {
        self.send_frames@
    }

    /// The requests the application asked to push, newest first.
    pub closed spec fn push_queue(&self) -> Seq<StreamRequest> {
        self.push_promise_queue@
    }

    /// The promised streams and their requests, newest first.
    pub closed spec fn published(&self) -> Seq<(u32, StreamRequest)> {
        self.push_promise_publish_queue@
    }

    /// What every state keeps: trailing headers only once no block is being
    /// received; no trailing headers while open; nothing received while
    /// idle; no request headers while open and a block is being received.
    pub closed spec fn wf(&self) -> bool {
        let kind = kind_of(self.state_name);
        let temp_empty = self.temp_header_block@.len() == 0;
        let headers_empty = self.request.headers@.len() == 0;
        &&& self.request.trailer_headers is Some ==> temp_empty
        &&& kind == StreamStateKind::Open ==> self.request.trailer_headers is None
        &&& kind == StreamStateKind::Idle ==> headers_empty && temp_empty
            && self.request.trailer_headers is None
        &&& (kind == StreamStateKind::Open && !temp_empty) ==> headers_empty
    }

    /// A new idle stream.
    pub fn new(id: StreamId) -> (r: Self)
        ensures
            r.wf(),
            r.spec_id() == id,
            r.kind() == StreamStateKind::Idle,
            r.temp().len() == 0,
            r.request().headers@.len() == 0,
            r.request().payload is None,
            r.request().trailer_headers is None,
            !r.started(),
            r.send_window() == 0,
            r.sent().len() == 0,
            r.push_queue().len() == 0,
            r.published().len() == 0,
    {
        Stream {
            id,
            state_name: StreamStateName::Idle(StreamState::<StateIdle>::new()),
            temp_header_block: Vec::new(),
            request: StreamRequest::new(),
            started_processing_request: false,
            send_frames: Vec::new(),
            push_promise_queue: VecDeque::new(),
            push_promise_publish_queue: VecDeque::new(),
            send_window: 0,
        }
    }

    /// A new stream reserved by a push promise of the server, carrying the
    /// promised request.
    pub fn new_promise(id: StreamId, request: StreamRequest) -> (r: Self)
        ensures
            r.wf(),
            r.spec_id() == id,
            r.kind() == StreamStateKind::ReservedLocal,
            r.promised_request() == Some(request),
            r.temp().len() == 0,
            r.request().headers@.len() == 0,
            !r.started(),
            r.send_window() == 0,
            r.sent().len() == 0,
            r.push_queue().len() == 0,
            r.published().len() == 0,
    {
        Stream {
            id,
            state_name: StreamStateName::ReservedLocal(
                StreamState { state: StateReservedLocal { stream_request: request } },
            ),
            temp_header_block: Vec::new(),
            request: StreamRequest::new(),
            started_processing_request: false,
            send_frames: Vec::new(),
            push_promise_queue: VecDeque::new(),
            push_promise_publish_queue: VecDeque::new(),
            send_window: 0,
        }
    }

    /// The request a reserved stream carries.
    pub closed spec fn promised_request(&self) -> Option<StreamRequest> {
        match self.state_name {
            StreamStateName::ReservedLocal(s) => Some(s.state.stream_request),
            _ => None,
        }
    }

    pub fn get_id(&self) -> (r: StreamId)
        ensures
            r == self.spec_id(),
    {
        self.id
    }

    /// The state, without what it carries.
    pub fn get_state_kind(&self) -> (r: StreamStateKind)
        ensures
            r == self.kind(),
    {
        match &self.state_name {
            StreamStateName::Idle(_) => StreamStateKind::Idle,
            StreamStateName::ReservedLocal(_) => StreamStateKind::ReservedLocal,
            StreamStateName::ReservedRemote(_) => StreamStateKind::ReservedRemote,
            StreamStateName::Open(_) => StreamStateKind::Open,
            StreamStateName::HalfClosedLocal(_) => StreamStateKind::HalfClosedLocal,
            StreamStateName::HalfClosedRemote(_) => StreamStateKind::HalfClosedRemote,
            StreamStateName::Closed(c) => StreamStateKind::Closed(c.state.info.reason),
        }
    }

    /// Adds a header block fragment to the block being received; when the
    /// fragment ends the block, stores the block in the request and clears it.
    fn receive_fragment(&mut self, fragment: &[u8], end_headers: bool, ctx: &mut RecvContext) -> (r:
        Option<HttpError>)
        requires
            old(ctx).wf(),
            old(self).request.headers@.len() > 0 ==> old(self).request.trailer_headers is None,
        ensures
            final(ctx).wf(),
            final(ctx).static_fields() == old(ctx).static_fields(),
            final(self).id == old(self).id,
            final(self).state_name == old(self).state_name,
            final(self).started_processing_request == old(self).started_processing_request,
            final(self).send_window == old(self).send_window,
            final(self).send_frames == old(self).send_frames,
            final(self).push_promise_queue == old(self).push_promise_queue,
            final(self).push_promise_publish_queue == old(self).push_promise_publish_queue,
            ({
                let block = old(self).temp_header_block@ + fragment@;
                if end_headers {
                    &&& final(self).temp_header_block@ == Seq::<u8>::empty()
                    &&& r == block_error(*old(ctx), old(self).request.headers@.len() == 0, block)
                    &&& block_processed(old(self).request, final(self).request, *old(ctx), *final(ctx), block)
                } else {
                    &&& final(self).temp_header_block@ == block
                    &&& r is None
                    &&& final(self).request == old(self).request
                    &&& *final(ctx) == *old(ctx)
                }
            }),
    {
        octets::extend_from(&mut self.temp_header_block, fragment);
        if end_headers {
            let r = self.request.process_temp_header_block(self.temp_header_block.as_slice(), ctx);
            self.temp_header_block.clear();
            r
        } else {
            None
        }
    }

    /// Receives a frame on an idle stream.
    fn recv_idle(&mut self, ft: FrameType, header: &FrameHeader, payload: &[u8], ctx: &mut RecvContext) -> (r: (
        Option<StreamStateKind>,
        Option<HttpError>,
    ))
        requires
            old(self).wf(),
            old(ctx).wf(),
            old(self).kind() == StreamStateKind::Idle,
            header.frame_type == Some(ft),
            recv_readable(old(self).kind(), old(self).temp().len() == 0, *header, payload@),
        ensures
            r == recv_outcome(*old(self), *old(ctx), *header, payload@),
            recv_effect(*old(self), *final(self), *old(ctx), *final(ctx), *header, payload@),
            final(self).state_name == old(self).state_name,
            final(ctx).wf(),
            final(ctx).static_fields() == old(ctx).static_fields(),
    {
        match ft {
            FrameType::Headers => {
                let headers_frame = HeaderFrame::new(header, payload);
                let process_error = self.receive_fragment(
                    headers_frame.get_header_block_fragment(),
                    headers_frame.is_end_headers(),
                    ctx,
                );
                match process_error {
                    Some(e) => (Some(StreamStateKind::Closed(StreamClosedReason::ResetLocal)), Some(e)),
                    None => if headers_frame.is_end_stream() {
                        (Some(StreamStateKind::HalfClosedRemote), None)
                    } else {
                        (Some(StreamStateKind::Open), None)
                    },
                }
            },
            FrameType::PushPromise => (
                None,
                Some(HttpError::ConnectionError(ErrorCode::ProtocolError, ErrorName::CannotPushToServer)),
            ),
            _ => (
                None,
                Some(HttpError::ConnectionError(ErrorCode::ProtocolError, ErrorName::StreamStateVoilation)),
            ),
        }
    }

    /// Receives a CONTINUATION frame on an open or half closed (remote)
    /// stream.
    fn recv_continuation(&mut self, header: &FrameHeader, payload: &[u8], ctx: &mut RecvContext) -> (r: (
        Option<StreamStateKind>,
        Option<HttpError>,
    ))
        requires
            old(self).wf(),
            old(ctx).wf(),
            old(self).kind() == StreamStateKind::Open || old(self).kind() == StreamStateKind::HalfClosedRemote,
            header.frame_type == Some(FrameType::Continuation),
            recv_readable(old(self).kind(), old(self).temp().len() == 0, *header, payload@),
        ensures
            r == recv_outcome(*old(self), *old(ctx), *header, payload@),
            recv_effect(*old(self), *final(self), *old(ctx), *final(ctx), *header, payload@),
            final(self).state_name == old(self).state_name,
            final(ctx).wf(),
            final(ctx).static_fields() == old(ctx).static_fields(),
    {
        if self.temp_header_block.len() == 0 {
            (
                None,
                Some(
                    HttpError::ConnectionError(
                        ErrorCode::ProtocolError,
                        ErrorName::UnexpectedContinuationFrame,
                    ),
                ),
            )
        } else {
            let continuation_frame = ContinuationFrame::new(header, payload);
            let process_error = self.receive_fragment(
                continuation_frame.get_header_block_fragment(),
                continuation_frame.is_end_headers(),
                ctx,
            );
            match process_error {
                Some(e) => (Some(StreamStateKind::Closed(StreamClosedReason::ResetLocal)), Some(e)),
                None => (None, None),
            }
        }
    }

    /// Receives a WINDOW_UPDATE frame on an open or half closed (remote)
    /// stream.
    fn recv_window_update(&mut self, header: &FrameHeader, payload: &[u8]) -> (r: (
        Option<StreamStateKind>,
        Option<HttpError>,
    ))
        requires
            old(self).kind() == StreamStateKind::Open || old(self).kind() == StreamStateKind::HalfClosedRemote,
            header.frame_type == Some(FrameType::WindowUpdate),
            window_update_readable(*header, payload@),
        ensures
            r.1 == window_outcome(*header, payload@, old(self).send_window()),
            r.0 == if r.1 is Some {
                Some(StreamStateKind::Closed(StreamClosedReason::ResetLocal))
            } else {
                None
            },
            final(self).send_window() == if r.1 is None {
                (old(self).send_window() + spec_window_update(*header, payload@)->Ok_0) as u32
            } else {
                old(self).send_window()
            },
            final(self).state_name == old(self).state_name,
            final(self).temp_header_block == old(self).temp_header_block,
            final(self).request == old(self).request,
            final(self).id == old(self).id,
            final(self).started_processing_request == old(self).started_processing_request,
            final(self).send_frames == old(self).send_frames,
            final(self).push_promise_queue == old(self).push_promise_queue,
            final(self).push_promise_publish_queue == old(self).push_promise_publish_queue,
    {
        let checked = check_stream_window_update(
            WindowUpdateFrame::new_stream(header, payload),
            self.send_window,
        );
        match checked {
            Ok(window_update_frame) => {
                let increment = window_update_frame.get_window_size_increment();
                proof {
                    crate::http2::frame::check::window_update::lemma_accepted_window_update(
                        increment,
                        self.send_window,
                        true,
                    );
                }
                self.send_window = self.send_window + increment;
                (None, None)
            },
            Err(e) => (Some(StreamStateKind::Closed(StreamClosedReason::ResetLocal)), Some(e)),
        }
    }

    /// Receives a frame on an open stream.
    fn recv_open(&mut self, ft: FrameType, header: &FrameHeader, payload: &[u8], ctx: &mut RecvContext) -> (r: (
        Option<StreamStateKind>,
        Option<HttpError>,
    ))
        requires
            old(self).wf(),
            old(ctx).wf(),
            old(self).kind() == StreamStateKind::Open,
            header.frame_type == Some(ft),
            recv_readable(old(self).kind(), old(self).temp().len() == 0, *header, payload@),
        ensures
            r == recv_outcome(*old(self), *old(ctx), *header, payload@),
            recv_effect(*old(self), *final(self), *old(ctx), *final(ctx), *header, payload@),
            final(self).state_name == old(self).state_name,
            final(ctx).wf(),
            final(ctx).static_fields() == old(ctx).static_fields(),
    {
        match ft {
            FrameType::Data => {
                let data_frame = DataFrame::new(header, payload);
                self.request.payload = Some(octets::slice_to_vec(data_frame.get_payload().as_bytes()));
                let next = if data_frame.is_end_stream() {
                    Some(StreamStateKind::HalfClosedRemote)
                } else {
                    None
                };
                (next, None)
            },
            FrameType::Headers => {
                let headers_frame = HeaderFrame::new(header, payload);
                let should_end_stream = !self.request.headers.is_empty();
                let process_error = self.receive_fragment(
                    headers_frame.get_header_block_fragment(),
                    headers_frame.is_end_headers(),
                    ctx,
                );
                match process_error {
                    Some(e) => (Some(StreamStateKind::Closed(StreamClosedReason::ResetLocal)), Some(e)),
                    None => if should_end_stream {
                        if headers_frame.is_end_stream() {
                            (Some(StreamStateKind::HalfClosedRemote), None)
                        } else {
                            (
                                Some(StreamStateKind::Closed(StreamClosedReason::ResetLocal)),
                                Some(
                                    HttpError::StreamError(
                                        ErrorCode::ProtocolError,
                                        ErrorName::TrailerHeaderBlockShouldTerminateStream,
                                    ),
                                ),
                            )
                        }
                    } else {
                        (None, None)
                    },
                }
            },
            FrameType::ResetStream => self.recv_reset(header),
            FrameType::WindowUpdate => self.recv_window_update(header, payload),
            FrameType::Continuation => self.recv_continuation(header, payload, ctx),
            _ => (
                None,
                Some(HttpError::ConnectionError(ErrorCode::ProtocolError, ErrorName::StreamStateVoilation)),
            ),
        }
    }

    /// Receives a RST_STREAM frame on an open or half closed (remote) stream.
    fn recv_reset(&self, header: &FrameHeader) -> (r: (Option<StreamStateKind>, Option<HttpError>))
        ensures
            r == if header.length != 4 {
                (
                    Some(StreamStateKind::Closed(StreamClosedReason::ResetLocal)),
                    Some(reset_length_error()),
                )
            } else {
                (Some(StreamStateKind::Closed(StreamClosedReason::ResetRemote)), None::<HttpError>)
            },
    {
        if header.length != 4 {
            (
                Some(StreamStateKind::Closed(StreamClosedReason::ResetLocal)),
                Some(
                    HttpError::ConnectionError(
                        ErrorCode::FrameSizeError,
                        ErrorName::InvalidFrameLengthForResetStreamFrame,
                    ),
                ),
            )
        } else {
            (Some(StreamStateKind::Closed(StreamClosedReason::ResetRemote)), None)
        }
    }

    /// Receives a frame on a half closed (remote) stream.
    fn recv_half_closed_remote(
        &mut self,
        ft: FrameType,
        header: &FrameHeader,
        payload: &[u8],
        ctx: &mut RecvContext,
    ) -> (r: (Option<StreamStateKind>, Option<HttpError>))
        requires
            old(self).wf(),
            old(ctx).wf(),
            old(self).kind() == StreamStateKind::HalfClosedRemote,
            header.frame_type == Some(ft),
            recv_readable(old(self).kind(), old(self).temp().len() == 0, *header, payload@),
        ensures
            r == recv_outcome(*old(self), *old(ctx), *header, payload@),
            recv_effect(*old(self), *final(self), *old(ctx), *final(ctx), *header, payload@),
            final(self).state_name == old(self).state_name,
            final(ctx).wf(),
            final(ctx).static_fields() == old(ctx).static_fields(),
    {
        match ft {
            FrameType::Continuation => self.recv_continuation(header, payload, ctx),
            FrameType::WindowUpdate => self.recv_window_update(header, payload),
            FrameType::ResetStream => self.recv_reset(header),
            _ => (
                Some(StreamStateKind::Closed(StreamClosedReason::ResetLocal)),
                Some(
                    HttpError::StreamError(
                        ErrorCode::StreamClosed,
                        ErrorName::UnexpectedFrameOnHalfClosedStream,
                    ),
                ),
            ),
        }
    }

    /// Receives a frame on a closed stream: nothing changes.
    fn recv_closed(reason: StreamClosedReason, ft: FrameType) -> (r: (Option<StreamStateKind>, Option<HttpError>))
        requires
            recv_handled(StreamStateKind::Closed(reason), ft),
        ensures
            r == recv_transition(
                StreamStateKind::Closed(reason),
                ft,
                0,
                0,
                true,
                true,
                None,
                None,
            ),
    {
        match reason {
            StreamClosedReason::StreamEnded => match ft {
                FrameType::WindowUpdate | FrameType::ResetStream => (None, None),
                _ => (
                    None,
                    Some(HttpError::ConnectionError(ErrorCode::StreamClosed, ErrorName::StreamIsClosed)),
                ),
            },
            StreamClosedReason::ResetRemote => match ft {
                FrameType::ResetStream => (
                    None,
                    Some(
                        HttpError::ConnectionError(
                            ErrorCode::ProtocolError,
                            ErrorName::UnexpectedResetAfterStreamResetByRemote,
                        ),
                    ),
                ),
                _ => (
                    None,
                    Some(HttpError::StreamError(ErrorCode::StreamClosed, ErrorName::StreamIsClosed)),
                ),
            },
            StreamClosedReason::ResetLocal => match ft {
                FrameType::WindowUpdate | FrameType::ResetStream => (None, None),
                _ => (
                    None,
                    Some(HttpError::StreamError(ErrorCode::StreamClosed, ErrorName::StreamIsClosed)),
                ),
            },
        }
    }

    /// Receives a frame (RFC 7540, section 5.1): moves the stream to its
    /// next state and returns the error the frame gives, if any. Header
    /// blocks are decoded in `ctx` once complete and stored in the request.
    /// The frame's type must be known; frames on reserved or half closed
    /// (local) streams, and PRIORITY frames on a stream reset locally, are
    /// not handled.
    pub fn recv(&mut self, frame: Frame, ctx: &mut RecvContext) -> (r: Option<HttpError>)
        requires
            old(self).wf(),
            old(ctx).wf(),
            frame.header.frame_type is Some,
            recv_handled(old(self).kind(), frame.header.frame_type->Some_0),
            recv_readable(old(self).kind(), old(self).temp().len() == 0, frame.header, frame.payload@),
        ensures
            final(self).wf(),
            final(ctx).wf(),
            final(ctx).static_fields() == old(ctx).static_fields(),
            r == recv_outcome(*old(self), *old(ctx), frame.header, frame.payload@).1,
            final(self).kind() == match recv_outcome(*old(self), *old(ctx), frame.header, frame.payload@).0 {
                Some(k) => k,
                None => old(self).kind(),
            },
            recv_effect(*old(self), *final(self), *old(ctx), *final(ctx), frame.header, frame.payload@),
    {
        let header = frame.header;
        let payload = frame.payload;
        let ft = match header.frame_type {
            Some(t) => t,
            None => FrameType::Data,
        };
        let kind = self.get_state_kind();
        let outcome = match kind {
            StreamStateKind::Idle => self.recv_idle(ft, &header, payload.as_slice(), ctx),
            StreamStateKind::Open => self.recv_open(ft, &header, payload.as_slice(), ctx),
            StreamStateKind::HalfClosedRemote => self.recv_half_closed_remote(
                ft,
                &header,
                payload.as_slice(),
                ctx,
            ),
            StreamStateKind::Closed(reason) => Self::recv_closed(reason, ft),
            _ => (None, None),
        };
        let (next, error) = outcome;
        match next {
            Some(k) => {
                self.state_name = state_of_kind(k);
            },
            None => {},
        }
        error
    }

    /// Queues frames to be sent, moving the stream through its states.
    fn send(&mut self, frames: Vec<OutgoingFrame>)
        requires
            old(self).wf(),
            send_all(old(self).kind(), frames@) is Some,
        ensures
            final(self).wf(),
            final(self).kind() == send_all(old(self).kind(), frames@)->Some_0,
            final(self).sent() == old(self).sent() + frames@,
            final(self).id == old(self).id,
            final(self).temp_header_block == old(self).temp_header_block,
            final(self).request == old(self).request,
            final(self).started_processing_request == old(self).started_processing_request,
            final(self).push_promise_queue == old(self).push_promise_queue,
            final(self).push_promise_publish_queue == old(self).push_promise_publish_queue,
            final(self).send_window == old(self).send_window,
    {
        let ghost all = frames@;
        let ghost kind0 = self.kind();
        let ghost sent0 = self.send_frames@;
        let mut rest = frames;
        let mut k: usize = 0;
        let total = rest.len();
        proof {
            assert(all.take(0) =~= Seq::<OutgoingFrame>::empty());
        }
        while rest.len() > 0
            invariant
                total == all.len(),
                k + rest@.len() == total,
                rest@ == all.skip(k as int),
                send_all(kind0, all) is Some,
                send_all(kind0, all.take(k as int)) == Some(self.kind()),
                self.send_frames@ == sent0 + all.take(k as int),
                self.wf(),
                self.id == old(self).id,
                self.temp_header_block == old(self).temp_header_block,
                self.request == old(self).request,
                self.started_processing_request == old(self).started_processing_request,
                self.push_promise_queue == old(self).push_promise_queue,
                self.push_promise_publish_queue == old(self).push_promise_publish_queue,
                self.send_window == old(self).send_window,
                kind0 == old(self).kind(),
            decreases rest.len(),
        {
            let frame = rest.remove(0);
            proof {
                assert(frame == all[k as int]);
                assert(rest@ =~= all.skip(k + 1));
                assert(all.take(k + 1).drop_last() =~= all.take(k as int));
                assert(all.take(k + 1).last() == frame);
                lemma_send_prefix(kind0, all, k as int + 1);
            }
            let kind = self.get_state_kind();
            let frame_type = frame.get_frame_type();
            let ends = (frame_type == FrameType::Data || frame_type == FrameType::Headers) && frame.get_flags() & 0x1 == 0x1;
            let next = match kind {
                StreamStateKind::ReservedLocal => if ends {
                    StreamStateKind::Closed(StreamClosedReason::StreamEnded)
                } else {
                    StreamStateKind::HalfClosedRemote
                },
                StreamStateKind::Open => if ends {
                    StreamStateKind::HalfClosedLocal
                } else {
                    StreamStateKind::Open
                },
                StreamStateKind::HalfClosedRemote => if ends {
                    StreamStateKind::Closed(StreamClosedReason::StreamEnded)
                } else {
                    StreamStateKind::HalfClosedRemote
                },
                _ => kind,
            };
            if next != kind {
                self.state_name = state_of_kind(next);
            }
            self.send_frames.push(frame);
            proof {
                assert(sent0 + all.take(k + 1) =~= (sent0 + all.take(k as int)).push(frame));
            }
            k = k + 1;
        }
        proof {
            assert(all.take(k as int) =~= all);
        }
    }

    /// Decides whether the request is ready to be processed: once the
    /// client has half closed the stream and no header block is being
    /// received, the stream records that processing has started, tells the
    /// connection, and hands the request out, leaving an empty one.
    pub fn take_request(&mut self, shared: &mut ConnectionSharedState) -> (r: Option<StreamRequest>)
        requires
            old(self).wf(),
        ensures
            final(self).wf(),
            final(self).kind() == old(self).kind(),
            final(self).temp() == old(self).temp(),
            final(self).sent() == old(self).sent(),
            final(self).push_queue() == old(self).push_queue(),
            final(self).published() == old(self).published(),
            final(self).send_window() == old(self).send_window(),
            final(self).spec_id() == old(self).spec_id(),
            final(shared).spec_settings() == old(shared).spec_settings(),
            final(shared).spec_next_stream_id() == old(shared).spec_next_stream_id(),
            if old(self).kind() == StreamStateKind::HalfClosedRemote && old(self).temp().len() == 0 {
                &&& r == Some(old(self).request())
                &&& final(self).started()
                &&& final(self).request().headers@.len() == 0
                &&& final(self).request().payload is None
                &&& final(self).request().trailer_headers is None
                &&& final(shared).spec_highest_started() == if old(self).spec_id() > old(
                    shared,
                ).spec_highest_started() {
                    old(self).spec_id()
                } else {
                    old(shared).spec_highest_started()
                }
            } else {
                &&& r is None
                &&& *final(self) == *old(self)
                &&& final(self).started() == old(self).started()
                &&& final(self).request() == old(self).request()
                &&& final(shared).spec_highest_started() == old(shared).spec_highest_started()
            },
    {
        let kind = self.get_state_kind();
        if kind == StreamStateKind::HalfClosedRemote && self.temp_header_block.len() == 0 {
            self.started_processing_request = true;
            shared.notify_processing_started_on_stream(self.id);
            let mut request = StreamRequest::new();
            std::mem::swap(&mut self.request, &mut request);
            Some(request)
        } else {
            None
        }
    }

    /// Hands out the request a reserved stream promises, leaving an empty
    /// one, and records that processing has started.
    pub fn take_promised_request(&mut self) -> (r: StreamRequest)
        requires
            old(self).wf(),
            old(self).kind() == StreamStateKind::ReservedLocal,
        ensures
            final(self).wf(),
            Some(r) == old(self).promised_request(),
            final(self).kind() == StreamStateKind::ReservedLocal,
            final(self).promised_request() matches Some(p) && p.headers@.len() == 0 && p.payload is None
                && p.trailer_headers is None,
            final(self).started(),
            final(self).temp() == old(self).temp(),
            final(self).request() == old(self).request(),
            final(self).sent() == old(self).sent(),
            final(self).push_queue() == old(self).push_queue(),
            final(self).published() == old(self).published(),
            final(self).send_window() == old(self).send_window(),
            final(self).spec_id() == old(self).spec_id(),
    {
        self.started_processing_request = true;
        let mut state = StreamStateName::Idle(StreamState { state: StateIdle });
        std::mem::swap(&mut self.state_name, &mut state);
        match state {
            StreamStateName::ReservedLocal(reserved) => {
                let request = reserved.state.stream_request;
                self.state_name = StreamStateName::ReservedLocal(
                    StreamState { state: StateReservedLocal { stream_request: StreamRequest::new() } },
                );
                request
            },
            other => {
                self.state_name = other;
                StreamRequest::new()
            },
        }
    }

    /// Queues a request to be pushed with a promise before the response.
    pub fn push_promise(&mut self, request: StreamRequest)
        ensures
            final(self).push_queue() == seq![request] + old(self).push_queue(),
            final(self).kind() == old(self).kind(),
            final(self).temp() == old(self).temp(),
            final(self).request() == old(self).request(),
            final(self).started() == old(self).started(),
            final(self).sent() == old(self).sent(),
            final(self).published() == old(self).published(),
            final(self).send_window() == old(self).send_window(),
            final(self).spec_id() == old(self).spec_id(),
            final(self).wf() == old(self).wf(),
    {
        self.push_promise_queue.push_front(request);
    }

    /// Whether the request has been handed out for processing.
    pub fn is_started(&self) -> (r: bool)
        ensures
            r == self.started(),
    {
        self.started_processing_request
    }

    /// The requests queued to be pushed, newest first.
    pub fn push_queue_slice(&self) -> (r: &VecDeque<StreamRequest>)
        ensures
            r@ == self.push_queue(),
    {
        &self.push_promise_queue
    }

    /// Whether the client lets the server push.
    pub fn is_push_enabled(&self, shared: &ConnectionSharedState) -> (r: bool)
        ensures
            r == shared.spec_settings().enable_push,
    {
        shared.get_incoming_settings().enable_push
    }

    /// The oldest promise not yet handed to the connection: the promised
    /// stream and its request.
    pub fn fetch_push_promise(&mut self) -> (r: Option<(u32, StreamRequest)>)
        ensures
            match r {
                Some(entry) => {
                    &&& old(self).published().len() > 0
                    &&& entry == old(self).published().last()
                    &&& final(self).published() == old(self).published().drop_last()
                },
                None => old(self).published().len() == 0 && final(self).published() == old(self).published(),
            },
            final(self).kind() == old(self).kind(),
            final(self).temp() == old(self).temp(),
            final(self).request() == old(self).request(),
            final(self).started() == old(self).started(),
            final(self).sent() == old(self).sent(),
            final(self).push_queue() == old(self).push_queue(),
            final(self).send_window() == old(self).send_window(),
            final(self).spec_id() == old(self).spec_id(),
            final(self).wf() == old(self).wf(),
    {
        let r = self.push_promise_publish_queue.pop_back();
        proof {
            if r is Some {
                assert(self.push_promise_publish_queue@ =~= old(self).published().drop_last());
            }
        }
        r
    }

    /// Hands out the frames queued to be sent, in order.
    pub fn fetch_send_frames(&mut self) -> (r: Vec<OutgoingFrame>)
        ensures
            r@ == old(self).sent(),
            final(self).sent().len() == 0,
            final(self).kind() == old(self).kind(),
            final(self).temp() == old(self).temp(),
            final(self).request() == old(self).request(),
            final(self).started() == old(self).started(),
            final(self).push_queue() == old(self).push_queue(),
            final(self).published() == old(self).published(),
            final(self).send_window() == old(self).send_window(),
            final(self).spec_id() == old(self).spec_id(),
            final(self).wf() == old(self).wf(),
    {
        let mut frames: Vec<OutgoingFrame> = Vec::new();
        std::mem::swap(&mut self.send_frames, &mut frames);
        frames
    }

    /// Sends the response to the request: first a PUSH_PROMISE for each
    /// queued push, oldest first, on the next server stream identifiers
    /// (recorded for the connection to open those streams), then the
    /// response's frames, which close the stream.
    pub fn respond(&mut self, response: StreamResponse, ctx: &mut SendContext, shared: &mut ConnectionSharedState)
        requires
            old(self).wf(),
            old(self).kind() == StreamStateKind::HalfClosedRemote,
            old(ctx).wf(),
            response_sendable(*old(ctx), response),
            forall|i: int|
                0 <= i < old(self).push_queue().len() ==> block_sendable(
                    (#[trigger] old(self).push_queue()[i]).headers,
                    effective_max_size(old(ctx).dynamic_max_size() as int, old(ctx).pending_size_update()),
                ),
            old(shared).spec_next_stream_id() + 2 * old(self).push_queue().len() < 0x8000_0000,
        ensures
            final(self).wf(),
            final(self).kind() == StreamStateKind::Closed(StreamClosedReason::StreamEnded),
            final(self).push_queue().len() == 0,
            final(self).published() == promised_entries(
                old(self).push_queue(),
                old(shared).spec_next_stream_id(),
            ) + old(self).published(),
            final(self).sent().len() > old(self).sent().len(),
            final(self).sent().take(old(self).sent().len() as int) == old(self).sent(),
            final(self).temp() == old(self).temp(),
            final(self).request() == old(self).request(),
            final(self).started() == old(self).started(),
            final(self).send_window() == old(self).send_window(),
            final(self).spec_id() == old(self).spec_id(),
            final(shared).spec_next_stream_id() == old(shared).spec_next_stream_id() + 2 * old(
                self,
            ).push_queue().len(),
            final(shared).spec_settings() == old(shared).spec_settings(),
            final(shared).spec_highest_started() == old(shared).spec_highest_started(),
            final(ctx).wf(),
            final(ctx).static_fields() == old(ctx).static_fields(),
            final(ctx).dynamic_max_size_setting() == old(ctx).dynamic_max_size_setting(),
            final(ctx).pending_size_update() is None,
            final(ctx).dynamic_max_size() == effective_max_size(
                old(ctx).dynamic_max_size() as int,
                old(ctx).pending_size_update(),
            ),
            carries_pushes_then_response(
                final(self).sent().skip(old(self).sent().len() as int),
                old(ctx).static_fields(),
                old(ctx).dynamic_fields(),
                old(ctx).dynamic_max_size() as int,
                old(ctx).pending_size_update(),
                old(self).push_queue(),
                old(shared).spec_next_stream_id(),
                response,
                final(ctx).dynamic_fields(),
            ),
    {
        let ghost m = effective_max_size(ctx.dynamic_max_size() as int, ctx.pending_size_update());
        let ghost queue = self.push_promise_queue@;
        let ghost n = queue.len();
        let ghost first_id = shared.spec_next_stream_id();
        let ghost published0 = self.push_promise_publish_queue@;
        let ghost sent0 = self.send_frames@;
        let ghost st = ctx.static_fields();
        let mut k: usize = 0;
        proof {
            assert(queue.take(n as int) =~= queue);
            assert(promised_entries(queue.skip(n as int), first_id) + published0 =~= published0);
            assert forall|rest: Seq<OutgoingFrame>, table: Seq<(Seq<char>, Seq<char>)>|
                #[trigger] carries_pushes_then_response(
                    rest,
                    st,
                    ctx.dynamic_fields(),
                    ctx.dynamic_max_size() as int,
                    ctx.pending_size_update(),
                    queue.take(n as int),
                    first_id,
                    response,
                    table,
                ) implies carries_pushes_then_response(
                    self.send_frames@.skip(sent0.len() as int) + rest,
                    st,
                    old(ctx).dynamic_fields(),
                    old(ctx).dynamic_max_size() as int,
                    old(ctx).pending_size_update(),
                    queue,
                    first_id,
                    response,
                    table,
                ) by {
                assert(self.send_frames@.skip(sent0.len() as int) + rest =~= rest);
            }
        }
        while self.push_promise_queue.len() > 0
            invariant
                self.wf(),
                self.kind() == StreamStateKind::HalfClosedRemote,
                n == queue.len(),
                0 <= k <= n,
                self.push_promise_queue@ == queue.take(n - k),
                self.push_promise_publish_queue@ == promised_entries(queue.skip(n - k), first_id)
                    + published0,
                shared.spec_next_stream_id() == first_id + 2 * k,
                first_id + 2 * n < 0x8000_0000,
                shared.spec_settings() == old(shared).spec_settings(),
                shared.spec_highest_started() == old(shared).spec_highest_started(),
                self.send_frames@.len() >= sent0.len(),
                self.send_frames@.take(sent0.len() as int) == sent0,
                self.temp_header_block == old(self).temp_header_block,
                self.request == old(self).request,
                self.started_processing_request == old(self).started_processing_request,
                self.send_window == old(self).send_window,
                self.id == old(self).id,
                ctx.wf(),
                ctx.static_fields() == old(ctx).static_fields(),
                ctx.dynamic_max_size_setting() == old(ctx).dynamic_max_size_setting(),
                ctx.pending_size_update() matches Some(u) ==> u <= DEFAULT_MAX_SIZE_SETTING,
                effective_max_size(ctx.dynamic_max_size() as int, ctx.pending_size_update()) == m,
                m == effective_max_size(old(ctx).dynamic_max_size() as int, old(ctx).pending_size_update()),
                response_sendable(*old(ctx), response),
                ctx.pending_size_update() is Some ==> *ctx == *old(ctx),
                k > 0 ==> ctx.pending_size_update() is None,
                k == 0 ==> *ctx == *old(ctx),
                forall|i: int| 0 <= i < n ==> block_sendable((#[trigger] queue[i]).headers, m),
                st == old(ctx).static_fields(),
                sent0 == old(self).send_frames@,
                forall|rest: Seq<OutgoingFrame>, table: Seq<(Seq<char>, Seq<char>)>|
                    #[trigger] carries_pushes_then_response(
                        rest,
                        st,
                        ctx.dynamic_fields(),
                        ctx.dynamic_max_size() as int,
                        ctx.pending_size_update(),
                        queue.take(n - k),
                        (first_id + 2 * k) as StreamId,
                        response,
                        table,
                    ) ==> carries_pushes_then_response(
                        self.send_frames@.skip(sent0.len() as int) + rest,
                        st,
                        old(ctx).dynamic_fields(),
                        old(ctx).dynamic_max_size() as int,
                        old(ctx).pending_size_update(),
                        queue,
                        first_id,
                        response,
                        table,
                    ),
            decreases self.push_promise_queue@.len(),
        {
            let request = match self.push_promise_queue.pop_back() {
                Some(request) => request,
                None => StreamRequest::new(),
            };
            proof {
                assert(request == queue[n - k - 1]);
                assert(self.push_promise_queue@ =~= queue.take(n - (k + 1)));
                lemma_packable(
                    ctx.static_fields(),
                    ctx.dynamic_fields(),
                    ctx.dynamic_max_size() as int,
                    ctx.pending_size_update(),
                    headers_view(request.headers@),
                    true,
                );
            }
            let ghost c_dyn = ctx.dynamic_fields();
            let ghost c_max = ctx.dynamic_max_size() as int;
            let ghost c_pend = ctx.pending_size_update();
            let ghost s_k = self.send_frames@.skip(sent0.len() as int);
            let promised_stream_id = shared.get_next_stream_id_for_locally_initiated_stream();
            let packed = pack::pack(request.headers.as_slice(), ctx, true);
            let frames = block_to_frames(packed, Some(promised_stream_id), false);
            let ghost block_seq = frames@;
            proof {
                let fs = frames@;
                assert forall|i: int| 0 <= i < fs.len() implies sendable_type((#[trigger] fs[i]).spec_frame_type())
                    && !fs[i].ends_stream() by {}
                lemma_send_from_half_closed(fs);
                assert(!exists|i: int| 0 <= i < fs.len() && (#[trigger] fs[i]).ends_stream());
            }
            self.push_promise_publish_queue.push_front((promised_stream_id, request));
            proof {
                let entries = promised_entries(queue.skip(n - (k + 1)), first_id);
                assert(entries =~= seq![(promised_stream_id, request)] + promised_entries(
                    queue.skip(n - k),
                    first_id,
                ));
                assert(self.push_promise_publish_queue@ =~= entries + published0);
            }
            let ghost before = self.send_frames@;
            self.send(frames);
            proof {
                assert(self.send_frames@.take(sent0.len() as int) =~= before.take(sent0.len() as int));
                assert(self.send_frames@.skip(sent0.len() as int) =~= s_k + block_seq);
                assert forall|rest: Seq<OutgoingFrame>, table: Seq<(Seq<char>, Seq<char>)>|
                    #[trigger] carries_pushes_then_response(
                        rest,
                        st,
                        ctx.dynamic_fields(),
                        ctx.dynamic_max_size() as int,
                        ctx.pending_size_update(),
                        queue.take(n - (k + 1)),
                        (first_id + 2 * (k + 1)) as StreamId,
                        response,
                        table,
                    ) implies carries_pushes_then_response(
                        self.send_frames@.skip(sent0.len() as int) + rest,
                        st,
                        old(ctx).dynamic_fields(),
                        old(ctx).dynamic_max_size() as int,
                        old(ctx).pending_size_update(),
                        queue,
                        first_id,
                        response,
                        table,
                    ) by {
                    reveal(carries_pushes_then_response);
                    let big = block_seq + rest;
                    let q = queue.take(n - k);
                    assert(q.last() == request);
                    assert(q.drop_last() =~= queue.take(n - (k + 1)));
                    let nb = chunk_count(encode_block(st, c_dyn, c_max, c_pend, request.headers).0.len());
                    assert(nb == block_seq.len());
                    assert(big.take(nb) =~= block_seq);
                    assert(big.skip(nb) =~= rest);
                    assert(carries_pushes_then_response(
                        big,
                        st,
                        c_dyn,
                        c_max,
                        c_pend,
                        q,
                        (first_id + 2 * k) as StreamId,
                        response,
                        table,
                    ));
                    assert(s_k + big =~= self.send_frames@.skip(sent0.len() as int) + rest);
                }
            }
            k = k + 1;
        }
        proof {
            assert(k == n);
            assert(queue.skip(0) =~= queue);
        }
        let ghost c_dyn = ctx.dynamic_fields();
        let ghost c_max = ctx.dynamic_max_size() as int;
        let ghost c_pend = ctx.pending_size_update();
        let ghost s_n = self.send_frames@.skip(sent0.len() as int);
        let frames = response.to_frames(ctx);
        proof {
            let fs = frames@;
            assert forall|i: int| 0 <= i < fs.len() implies sendable_type((#[trigger] fs[i]).spec_frame_type()) by {}
            lemma_send_from_half_closed(fs);
        }
        let ghost response_seq = frames@;
        let ghost before = self.send_frames@;
        self.send(frames);
        proof {
            assert(self.send_frames@.take(sent0.len() as int) =~= before.take(sent0.len() as int));
            assert(queue.take(0) =~= Seq::<StreamRequest>::empty());
            assert(carries_pushes_then_response(
                response_seq,
                st,
                c_dyn,
                c_max,
                c_pend,
                queue.take(0),
                (first_id + 2 * n) as StreamId,
                response,
                ctx.dynamic_fields(),
            )) by {
                reveal(carries_pushes_then_response);
            }
            assert(self.send_frames@.skip(sent0.len() as int) =~= s_n + response_seq);
        }
    }

    /// Sends the response to the request a reserved stream promised; the
    /// response's frames close the stream.
    pub fn respond_promised(&mut self, response: StreamResponse, ctx: &mut SendContext)
        requires
            old(self).wf(),
            old(self).kind() == StreamStateKind::ReservedLocal,
            old(ctx).wf(),
            response_sendable(*old(ctx), response),
        ensures
            final(self).wf(),
            final(self).kind() == StreamStateKind::Closed(StreamClosedReason::StreamEnded),
            final(self).sent().len() > old(self).sent().len(),
            final(self).sent().take(old(self).sent().len() as int) == old(self).sent(),
            final(self).push_queue() == old(self).push_queue(),
            final(self).published() == old(self).published(),
            final(self).temp() == old(self).temp(),
            final(self).request() == old(self).request(),
            final(self).started() == old(self).started(),
            final(self).send_window() == old(self).send_window(),
            final(self).spec_id() == old(self).spec_id(),
            final(ctx).wf(),
            final(ctx).static_fields() == old(ctx).static_fields(),
            final(ctx).dynamic_max_size_setting() == old(ctx).dynamic_max_size_setting(),
            final(ctx).pending_size_update() is None,
            final(ctx).dynamic_max_size() == effective_max_size(
                old(ctx).dynamic_max_size() as int,
                old(ctx).pending_size_update(),
            ),
            carries_response(
                final(self).sent().skip(old(self).sent().len() as int),
                old(ctx).static_fields(),
                old(ctx).dynamic_fields(),
                old(ctx).dynamic_max_size() as int,
                old(ctx).pending_size_update(),
                response.informational_headers@,
                response,
                final(ctx).dynamic_fields(),
            ),
    {
        let frames = response.to_frames(ctx);
        proof {
            let fs = frames@;
            assert forall|i: int| 0 <= i < fs.len() implies sendable_type((#[trigger] fs[i]).spec_frame_type()) by {}
            lemma_send_from_half_closed(fs);
            lemma_send_from_reserved(fs);
        }
        let ghost response_seq = frames@;
        let ghost before = self.send_frames@;
        self.send(frames);
        proof {
            assert(self.send_frames@.take(before.len() as int) =~= before);
            assert(self.send_frames@.skip(before.len() as int) =~= response_seq);
        }
    }

    /// Whether the stream can read a frame: it handles the frame's type in
    /// its state, and the frame's octets are what the reader needs.
    pub fn can_recv(&self, header: &FrameHeader, payload: &[u8]) -> (r: bool)
        requires
            header.frame_type is Some,
        ensures
            r == (recv_handled(self.kind(), header.frame_type->Some_0) && recv_readable(
                self.kind(),
                self.temp().len() == 0,
                *header,
                payload@,
            )),
    {
        let kind = self.get_state_kind();
        let ft = match header.frame_type {
            Some(t) => t,
            None => FrameType::Data,
        };
        let handled = match kind {
            StreamStateKind::Idle | StreamStateKind::Open | StreamStateKind::HalfClosedRemote => true,
            StreamStateKind::Closed(reason) => !(reason == StreamClosedReason::ResetLocal && ft
                == FrameType::Priority),
            _ => false,
        };
        if !handled {
            return false;
        }
        let open = kind == StreamStateKind::Open;
        let half_closed = kind == StreamStateKind::HalfClosedRemote;
        let length = header.length as usize;
        match ft {
            FrameType::Headers => !(kind == StreamStateKind::Idle || open) || headers_readable_exec(
                header,
                payload,
            ),
            FrameType::Data => !open || data_readable_exec(header, payload),
            FrameType::WindowUpdate => !(open || half_closed) || header.length != 4 || (payload.len()
                >= 4 && payload[0] < 0x80),
            FrameType::Continuation => !((open || half_closed) && self.temp_header_block.len() > 0)
                || header.length as usize <= payload.len(),
            _ => true,
        }
    }
}

/// The states sending a prefix of frames goes through.
proof fn lemma_send_prefix(kind: StreamStateKind, frames: Seq<OutgoingFrame>, k: int)
    requires
        0 <= k <= frames.len(),
        send_all(kind, frames) is Some,
    ensures
        send_all(kind, frames.take(k)) is Some,
    decreases frames.len(),
{
    if k < frames.len() {
        assert(frames.drop_last().take(k) =~= frames.take(k));
        lemma_send_prefix(kind, frames.drop_last(), k);
    } else {
        assert(frames.take(k) =~= frames);
    }
}

} // verus!
