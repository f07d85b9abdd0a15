//! An HTTP/2 connection: it routes received frames to the connection or to
//! its streams, answers connection frames, and queues the frames to send,
//! holding back DATA frames that the send window does not allow.

use vstd::prelude::*;
use std::collections::{HashMap, VecDeque};
use crate::http2::error::{ErrorCode, ErrorName, HttpError, error_code_value, error_message};
use crate::http2::frame::{Frame, FrameHeader, FrameType, OutgoingFrame, data_length, frame_type_code, header_octets};
use crate::http2::frame::check::window_update::{check_conn_window_update, window_update_check};
use crate::http2::frame::go_away::{GoAwayFrameCompressModel, code_of, lemma_go_away_frame_written, name_of};
use crate::http2::frame::ping::{PingFrame, PingFrameCompressModel, lemma_ping_frame_written};
use crate::http2::frame::reset_stream::{ResetStreamFrameCompressModel, lemma_reset_stream_frame_written};
use crate::http2::frame::settings::{
    SettingsFrame,
    SettingsFrameCompressModel,
    lemma_settings_frame_written,
    spec_settings_frame,
};
use crate::http2::frame::settings::SettingsParameter as FrameSettingsParameter;
use crate::http2::frame::window_update::{
    WindowUpdateFrame,
    WindowUpdateFrameCompressModel,
    lemma_window_update_frame_written,
    spec_window_update,
    window_update_readable,
};
use crate::http2::hpack::context::{ContextTrait, RecvContext, SendContext};
use crate::http2::hpack::pack::effective_max_size;
use crate::http2::stream::stream_request::StreamRequest;
use crate::http2::stream::stream_response::{
    StreamResponse,
    block_sendable,
    block_sendable_exec,
    carries_response,
    response_sendable,
    response_sendable_exec,
};
use crate::http2::settings::{
    self as settings,
    SettingName,
    Settings,
    SettingsParameter,
    MAXIMUM_FLOW_CONTROL_WINDOW_SIZE,
    INITIAL_FLOW_CONTROL_WINDOW_SIZE,
    applied_settings,
    default_settings,
    first_refused,
    refusal,
};
use crate::http2::stream::{
    Stream,
    StreamId,
    CONNECTION_CONTROL_STREAM_ID,
    carries_pushes_then_response,
    promised_entries,
    recv_effect,
    is_connection_control_stream_id,
    recv_handled,
    recv_outcome,
    recv_readable,
};
use crate::http2::stream::state::StreamStateKind;
use crate::octets;
use super::connection_frame_state::{ConnectionFrameStateValidator, frame_state_step};
use super::connection_shared_state::ConnectionSharedState;
use super::flow_control::get_window_update_amount;
use super::stream_blocker::{StreamBlocker, send_size};

verus! {

broadcast use vstd::std_specs::hash::group_hash_axioms;

/// Where a received frame goes.
#[derive(Debug, Clone, Copy, PartialEq, Eq, Structural)]
pub enum FrameRoute {
    /// The connection is shutting down: the frame is dropped.
    Discard,
    /// The frame is a connection error: the connection shuts down with it.
    Refuse(HttpError),
    /// The frame is ignored.
    Ignore,
    /// A PING frame for the connection.
    Ping,
    /// A frame for a stream.
    ToStream,
    /// A DATA frame: counted against the receive window, then for a stream.
    DataToStream,
    /// A WINDOW_UPDATE frame for the connection.
    ConnectionWindowUpdate,
    /// A SETTINGS frame.
    Settings,
    /// A GOAWAY or PUSH_PROMISE frame, which the connection does not handle.
    Unhandled,
}

/// Where a received frame goes: nowhere once the connection is shutting
/// down; a frame longer than the maximum frame size, or one that interrupts
/// a header block, is a connection error; then by type, connection frames
/// on stream 0 and stream frames on other streams (sections 6.1 to 6.10).
pub open spec fn frame_route(
    shutdown: bool,
    max_frame_size: u32,
    validator_ok: bool,
    header: FrameHeader,
) -> FrameRoute {
    let on_connection = header.stream_id == CONNECTION_CONTROL_STREAM_ID;
    let missing_stream = FrameRoute::Refuse(
        HttpError::ConnectionError(ErrorCode::ProtocolError, ErrorName::MissingStreamIdentifierOnStreamFrame),
    );
    let stream_on_connection = FrameRoute::Refuse(
        HttpError::ConnectionError(ErrorCode::ProtocolError, ErrorName::StreamIdentifierOnConnectionFrame),
    );
    if shutdown {
        FrameRoute::Discard
    } else if header.length > max_frame_size {
        FrameRoute::Refuse(
            HttpError::ConnectionError(ErrorCode::ProtocolError, ErrorName::FramePayloadLargerThanSettingsValue),
        )
    } else if !validator_ok {
        FrameRoute::Refuse(HttpError::ConnectionError(ErrorCode::ProtocolError, ErrorName::HeaderBlockInterupted))
    } else {
        match header.frame_type {
            None => FrameRoute::Ignore,
            Some(FrameType::Ping) => if on_connection { FrameRoute::Ping } else { stream_on_connection },
            Some(FrameType::Headers) | Some(FrameType::Continuation) | Some(FrameType::ResetStream) => if on_connection {
                missing_stream
            } else {
                FrameRoute::ToStream
            },
            Some(FrameType::Data) => if on_connection { missing_stream } else { FrameRoute::DataToStream },
            Some(FrameType::WindowUpdate) => if on_connection {
                FrameRoute::ConnectionWindowUpdate
            } else {
                FrameRoute::ToStream
            },
            Some(FrameType::Priority) => if on_connection { missing_stream } else { FrameRoute::Ignore },
            Some(FrameType::Settings) => if on_connection { FrameRoute::Settings } else { stream_on_connection },
            Some(FrameType::GoAway) | Some(FrameType::PushPromise) => FrameRoute::Unhandled,
        }
    }
}

/// Once a connection is shutting down, every frame is dropped; while it is
/// not, a frame longer than the maximum frame size or one that interrupts a
/// header block is refused.
pub proof fn lemma_frame_route_guards(shutdown: bool, max_frame_size: u32, validator_ok: bool, header: FrameHeader)
    ensures
        shutdown ==> frame_route(shutdown, max_frame_size, validator_ok, header) == FrameRoute::Discard,
        (!shutdown && (header.length > max_frame_size || !validator_ok)) ==> frame_route(
            shutdown,
            max_frame_size,
            validator_ok,
            header,
        ) is Refuse,
        frame_route(shutdown, max_frame_size, validator_ok, header) is ToStream ==> header.stream_id != 0,
        frame_route(shutdown, max_frame_size, validator_ok, header) is DataToStream ==> header.stream_id != 0,
{
}

/// Decides where a received frame goes (`frame_route`).
pub fn route_frame(shutdown: bool, max_frame_size: u32, validator_ok: bool, header: &FrameHeader) -> (r: FrameRoute)
    ensures
        r == frame_route(shutdown, max_frame_size, validator_ok, *header),
{
    let on_connection = is_connection_control_stream_id(header.stream_id);
    if shutdown {
        return FrameRoute::Discard;
    }
    if header.length > max_frame_size {
        return FrameRoute::Refuse(
            HttpError::ConnectionError(ErrorCode::ProtocolError, ErrorName::FramePayloadLargerThanSettingsValue),
        );
    }
    if !validator_ok {
        return FrameRoute::Refuse(
            HttpError::ConnectionError(ErrorCode::ProtocolError, ErrorName::HeaderBlockInterupted),
        );
    }
    let missing_stream = FrameRoute::Refuse(
        HttpError::ConnectionError(ErrorCode::ProtocolError, ErrorName::MissingStreamIdentifierOnStreamFrame),
    );
    let stream_on_connection = FrameRoute::Refuse(
        HttpError::ConnectionError(ErrorCode::ProtocolError, ErrorName::StreamIdentifierOnConnectionFrame),
    );
    match header.frame_type {
        None => FrameRoute::Ignore,
        Some(FrameType::Ping) => if on_connection { FrameRoute::Ping } else { stream_on_connection },
        Some(FrameType::Headers) | Some(FrameType::Continuation) | Some(FrameType::ResetStream) => if on_connection {
            missing_stream
        } else {
            FrameRoute::ToStream
        },
        Some(FrameType::Data) => if on_connection { missing_stream } else { FrameRoute::DataToStream },
        Some(FrameType::WindowUpdate) => if on_connection {
            FrameRoute::ConnectionWindowUpdate
        } else {
            FrameRoute::ToStream
        },
        Some(FrameType::Priority) => if on_connection { missing_stream } else { FrameRoute::Ignore },
        Some(FrameType::Settings) => if on_connection { FrameRoute::Settings } else { stream_on_connection },
        Some(FrameType::GoAway) | Some(FrameType::PushPromise) => FrameRoute::Unhandled,
    }
}

/// The debug data of the GOAWAY frame for an error: the error's message,
/// unless it were too long for a frame.
pub open spec fn go_away_debug(http_error: HttpError) -> Seq<u8> {
    let message = error_message(name_of(http_error));
    if message.len() < 0x1000 { message } else { Seq::<u8>::empty() }
}

/// The octets of the GOAWAY frame the connection sends on an error.
pub open spec fn go_away_octets(last_stream_identifier: u32, http_error: HttpError) -> Seq<u8> {
    let debug = go_away_debug(http_error);
    header_octets((8 + debug.len()) as u32, frame_type_code(FrameType::GoAway), 0, 0)
        + octets::u32_octets(last_stream_identifier) + octets::u32_octets(
        error_code_value(code_of(http_error)),
    ) + debug
}

/// The octets of the WINDOW_UPDATE frame that grows the connection's
/// receive window.
pub open spec fn window_update_octets(increment: u32) -> Seq<u8> {
    header_octets(4, frame_type_code(FrameType::WindowUpdate), 0, 0) + octets::u32_octets(increment)
}

/// The octets of the PING frame that acknowledges a PING.
pub open spec fn ping_ack_octets(data: Seq<u8>) -> Seq<u8> {
    header_octets(8, frame_type_code(FrameType::Ping), 0x1, 0) + data
}

/// The octets of the SETTINGS frame that acknowledges the peer's settings.
pub open spec fn settings_ack_octets() -> Seq<u8> {
    header_octets(0, frame_type_code(FrameType::Settings), 0x1, 0)
}

/// The octets of the RST_STREAM frame that resets a stream with an error
/// code.
pub open spec fn reset_stream_octets(stream_id: StreamId, code: ErrorCode) -> Seq<u8> {
    header_octets(4, frame_type_code(FrameType::ResetStream), 0, stream_id) + octets::u32_octets(
        error_code_value(code),
    )
}

/// The settings changes a SETTINGS frame carries.
pub open spec fn settings_changes(ps: Seq<FrameSettingsParameter>) -> Seq<SettingsParameter> {
    ps.map_values(|p: FrameSettingsParameter| SettingsParameter { name: p.name, value: p.value })
}

/// Whether a SETTINGS frame changes the header table size.
pub open spec fn changes_header_table_size(ps: Seq<FrameSettingsParameter>) -> bool {
    exists|i: int| 0 <= i < ps.len() && (#[trigger] ps[i]).name == SettingName::SettingsHeaderTableSize
}

/// Whether a stream has what a new stream has: it is idle, nothing has
/// been received on it, nothing is queued on it, processing has not
/// started, and its send window is empty.
pub open spec fn fresh_stream(s: Stream, id: StreamId) -> bool {
    &&& s.spec_id() == id
    &&& s.kind() == StreamStateKind::Idle
    &&& s.temp().len() == 0
    &&& s.request().headers@.len() == 0
    &&& s.request().payload is None
    &&& s.request().trailer_headers is None
    &&& !s.started()
    &&& s.send_window() == 0
    &&& s.sent().len() == 0
    &&& s.push_queue().len() == 0
    &&& s.published().len() == 0
}

/// What a stream makes of a frame depends only on its state, the block it
/// is receiving, whether it has request headers, and its send window.
pub proof fn lemma_recv_outcome_depends(s: Stream, t: Stream, ctx: RecvContext, header: FrameHeader, payload: Seq<u8>)
    requires
        s.kind() == t.kind(),
        s.temp() == t.temp(),
        s.request().headers@.len() == t.request().headers@.len(),
        s.send_window() == t.send_window(),
    ensures
        recv_outcome(s, ctx, header, payload) == recv_outcome(t, ctx, header, payload),
{
}

/// A connection: what it has to send, the header block rule, the HPACK
/// contexts, its streams, the frames held back by flow control, the
/// promised streams still to process, the state it shares with its streams,
/// its own settings, and its flow-control windows.
pub struct Connection<'a> {
    send_frames: VecDeque<Vec<u8>>,
    frame_state_validator: ConnectionFrameStateValidator,
    hpack_send_context: SendContext<'a>,
    hpack_recv_context: RecvContext<'a>,
    streams: HashMap<StreamId, Stream>,
    stream_blocker: StreamBlocker,
    promised_streams_queue: VecDeque<StreamId>,
    connection_shared_state: ConnectionSharedState,
    local_settings: Settings,
    highest_remote_initiated_stream_identifier: StreamId,
    shutdown_initiated: bool,
    send_window: u32,
    receive_window: u32,
}

/// What handing a frame to its stream does, from the connection `c` (with
/// the frames `queued` and the shutdown flag `shutdown` just before) to the
/// connection `d`: a stream that cannot be opened shuts the connection down;
/// otherwise the stream takes its next state, a connection error from it
/// shuts the connection down, a stream error queues a RST_STREAM with its
/// code, and `r` hands out the stream's request once it is complete. The
/// stream changes as `recv_effect` has it (from a new stream when none was
/// open), and the request handed out is the one it then holds; no other
/// stream changes.
pub open spec fn stream_step(
    c: Connection,
    queued: Seq<Seq<u8>>,
    shutdown: bool,
    d: Connection,
    header: FrameHeader,
    payload: Seq<u8>,
    r: Option<(StreamId, crate::http2::stream::stream_request::StreamRequest)>,
) -> bool {
    let id = header.stream_id;
    match c.stream_open_error(id) {
        Some(e) => {
            &&& r is None
            &&& d.is_shutting_down()
            &&& d.queued() == queued.push(go_away_octets(c.highest_started(), e))
            &&& d.spec_streams() == c.spec_streams()
            &&& d.highest_remote() == c.highest_remote()
        },
        None => {
            let s = c.stream_before(id);
            let (next, err) = recv_outcome(s, c.recv_context(), header, payload);
            let kind = match next {
                Some(k) => k,
                None => s.kind(),
            };
            &&& d.spec_streams().contains_key(id)
            &&& d.spec_streams()[id].kind() == kind
            &&& d.highest_remote() == if c.spec_streams().contains_key(id) {
                c.highest_remote()
            } else {
                id
            }
            &&& match err {
                Some(HttpError::ConnectionError(code, name)) => {
                    &&& d.is_shutting_down()
                    &&& d.queued() == queued.push(
                        go_away_octets(c.highest_started(), HttpError::ConnectionError(code, name)),
                    )
                },
                Some(HttpError::StreamError(code, _)) => {
                    &&& d.is_shutting_down() == shutdown
                    &&& d.queued() == queued.push(reset_stream_octets(id, code))
                },
                None => {
                    &&& d.is_shutting_down() == shutdown
                    &&& d.queued() == queued
                },
            }
            &&& (r is Some <==> (err is None && kind == StreamStateKind::HalfClosedRemote
                && d.spec_streams()[id].temp().len() == 0))
            &&& r matches Some((rid, _)) ==> rid == id && d.spec_streams()[id].started()
            &&& d.spec_streams() == c.spec_streams().insert(id, d.spec_streams()[id])
            &&& exists|before: Stream, after: Stream|
                {
                    &&& if c.spec_streams().contains_key(id) {
                        before == c.spec_streams()[id]
                    } else {
                        fresh_stream(before, id)
                    }
                    &&& #[trigger] recv_effect(before, after, c.recv_context(), d.recv_context(), header, payload)
                    &&& after.kind() == kind
                    &&& match r {
                        Some((_, request)) => request == after.request(),
                        None => d.spec_streams()[id] == after,
                    }
                }
        },
    }
}

/// The DATA payload that written frames carry, all together.
pub open spec fn data_sent(frames: Seq<Seq<u8>>) -> int
    decreases frames.len(),
{
    if frames.len() == 0 {
        0
    } else {
        data_sent(frames.drop_last()) + data_length(frames.last())
    }
}

/// Frames queued after the first `n`: what they carry adds to what came
/// before.
proof fn lemma_data_sent_push(q: Seq<Seq<u8>>, n: int, x: Seq<u8>)
    requires
        0 <= n <= q.len(),
    ensures
        q.push(x).skip(n) == q.skip(n).push(x),
        data_sent(q.push(x).skip(n)) == data_sent(q.skip(n)) + data_length(x),
{
    assert(q.push(x).skip(n) =~= q.skip(n).push(x));
    assert(q.skip(n).push(x).drop_last() =~= q.skip(n));
}

/// How a stream's frames go out under flow control, in order: a DATA frame
/// is held back when the stream is blocked or the frame is longer than the
/// send window, which blocks the stream; otherwise it is sent and the window
/// shrinks by its length. A HEADERS or CONTINUATION frame is held back when
/// the stream is blocked; any other frame is sent. Gives the frames sent,
/// oldest first; the frames held back, newest first; the send window left;
/// and whether the stream ends blocked.
pub open spec fn flow_split(frames: Seq<OutgoingFrame>, blocked: bool, window: u32) -> (
    Seq<OutgoingFrame>,
    Seq<OutgoingFrame>,
    u32,
    bool,
)
    decreases frames.len(),
{
    if frames.len() == 0 {
        (Seq::<OutgoingFrame>::empty(), Seq::<OutgoingFrame>::empty(), window, blocked)
    } else {
        let f = frames[0];
        let t = f.spec_frame_type();
        let rest = frames.drop_first();
        if t == FrameType::Data {
            if blocked || f.spec_length() > window {
                let r = flow_split(rest, true, window);
                (r.0, r.1 + seq![f], r.2, r.3)
            } else {
                let r = flow_split(rest, false, (window - f.spec_length()) as u32);
                (seq![f] + r.0, r.1, r.2, r.3)
            }
        } else if (t == FrameType::Headers || t == FrameType::Continuation) && blocked {
            let r = flow_split(rest, true, window);
            (r.0, r.1 + seq![f], r.2, r.3)
        } else {
            let r = flow_split(rest, blocked, window);
            (seq![f] + r.0, r.1, r.2, r.3)
        }
    }
}

/// No frame a stream sends is lost to flow control: those sent and those
/// held back are, together, the frames the stream sent. And the window
/// shrinks by exactly what the sent frames need from it.
pub proof fn lemma_flow_split_keeps_frames(frames: Seq<OutgoingFrame>, blocked: bool, window: u32)
    ensures
        ({
            let r = flow_split(frames, blocked, window);
            &&& r.0.to_multiset().add(r.1.to_multiset()) =~= frames.to_multiset()
            &&& r.0.len() + r.1.len() == frames.len()
            &&& r.2 + sizes(r.0) == window
        }),
    decreases frames.len(),
{
    broadcast use vstd::multiset::group_multiset_axioms;
    if frames.len() == 0 {
        let e = Seq::<OutgoingFrame>::empty();
        e.to_multiset_ensures();
        vstd::multiset::lemma_multiset_empty_len(e.to_multiset());
        assert(frames =~= e);
    } else {
        let f = frames[0];
        let rest = frames.drop_first();
        let t = f.spec_frame_type();
        let r = flow_split(frames, blocked, window);
        assert(frames =~= seq![f] + rest);
        vstd::seq_lib::lemma_multiset_commutative(seq![f], rest);
        assert(seq![f].to_multiset() =~= vstd::multiset::Multiset::<OutgoingFrame>::empty().insert(f)) by {
            assert(seq![f] =~= Seq::<OutgoingFrame>::empty().push(f));
            Seq::<OutgoingFrame>::empty().to_multiset_ensures();
        }
        if t == FrameType::Data {
            if blocked || f.spec_length() > window {
                lemma_flow_split_keeps_frames(rest, true, window);
                let q = flow_split(rest, true, window);
                vstd::seq_lib::lemma_multiset_commutative(q.1, seq![f]);
            } else {
                lemma_flow_split_keeps_frames(rest, false, (window - f.spec_length()) as u32);
                let q = flow_split(rest, false, (window - f.spec_length()) as u32);
                vstd::seq_lib::lemma_multiset_commutative(seq![f], q.0);
                assert((seq![f] + q.0).drop_first() =~= q.0);
            }
        } else if (t == FrameType::Headers || t == FrameType::Continuation) && blocked {
            lemma_flow_split_keeps_frames(rest, true, window);
            let q = flow_split(rest, true, window);
            vstd::seq_lib::lemma_multiset_commutative(q.1, seq![f]);
        } else {
            lemma_flow_split_keeps_frames(rest, blocked, window);
            let q = flow_split(rest, blocked, window);
            vstd::seq_lib::lemma_multiset_commutative(seq![f], q.0);
            assert((seq![f] + q.0).drop_first() =~= q.0);
        }
    }
}

/// What sent frames need from the send window, all together.
pub open spec fn sizes(frames: Seq<OutgoingFrame>) -> int
    decreases frames.len(),
{
    if frames.len() == 0 {
        0
    } else {
        send_size(frames[0]) + sizes(frames.drop_first())
    }
}

/// What releasing held-back frames does once the send window has grown: the
/// blocked streams are visited from the least recently blocked (the end of
/// `order`) to the most recent; for each, the oldest frame held back is
/// sent if what it needs from the window (`send_size`) is less than the
/// window, which shrinks by as much. Gives the octets sent, oldest first;
/// the frames still held back; and the send window left.
pub open spec fn unblock(
    held: Map<StreamId, Seq<OutgoingFrame>>,
    order: Seq<StreamId>,
    window: u32,
) -> (Seq<Seq<u8>>, Map<StreamId, Seq<OutgoingFrame>>, u32)
    decreases order.len(),
{
    if order.len() == 0 {
        (Seq::<Seq<u8>>::empty(), held, window)
    } else {
        let id = order.last();
        let releases = held.contains_key(id) && held[id].len() > 0 && send_size(held[id].last()) < window;
        if releases {
            let f = held[id].last();
            let r = unblock(
                held.insert(id, held[id].drop_last()),
                order.drop_last(),
                (window - send_size(f)) as u32,
            );
            (seq![f.octets(id)] + r.0, r.1, r.2)
        } else {
            unblock(held, order.drop_last(), window)
        }
    }
}

/// The octets of frames written on a stream, in order.
pub open spec fn written(frames: Seq<OutgoingFrame>, stream_id: StreamId) -> Seq<Seq<u8>> {
    frames.map_values(|f: OutgoingFrame| f.octets(stream_id))
}

/// The frames held back for a stream after more are held back: the new
/// ones, newest first, before those held back already.
pub open spec fn held_after(
    held: Map<StreamId, Seq<OutgoingFrame>>,
    stream_id: StreamId,
    more: Seq<OutgoingFrame>,
) -> Map<StreamId, Seq<OutgoingFrame>> {
    if more.len() == 0 {
        held
    } else {
        held.insert(
            stream_id,
            more + if held.contains_key(stream_id) {
                held[stream_id]
            } else {
                Seq::<OutgoingFrame>::empty()
            },
        )
    }
}

/// The blocked streams after frames are held back for a stream: a stream
/// not blocked before becomes the most recently blocked.
pub open spec fn order_after(
    order: Seq<StreamId>,
    held: Map<StreamId, Seq<OutgoingFrame>>,
    stream_id: StreamId,
    more: Seq<OutgoingFrame>,
) -> Seq<StreamId> {
    if more.len() > 0 && !held.contains_key(stream_id) {
        seq![stream_id] + order
    } else {
        order
    }
}

impl<'a> Connection<'a> {
    /// Whether `after` is `self` once a stream's frames went out under flow
    /// control (`flow_split`): the frames sent are queued, the others held
    /// back, and the send window shrinks by what was sent.
    pub open spec fn sent_under_flow_control(
        &self,
        after: Self,
        stream_id: StreamId,
        frames: Seq<OutgoingFrame>,
    ) -> bool {
        let split = flow_split(frames, self.held_back().contains_key(stream_id), self.spec_send_window());
        &&& after.queued() == self.queued() + written(split.0, stream_id)
        &&& after.spec_send_window() == split.2
        &&& after.held_back() == held_after(self.held_back(), stream_id, split.1)
        &&& after.held_back_order() == order_after(
            self.held_back_order(),
            self.held_back(),
            stream_id,
            split.1,
        )
    }

    /// The frames held back by flow control, per stream, newest first.
    pub closed spec fn held_back(&self) -> Map<StreamId, Seq<OutgoingFrame>> {
        self.stream_blocker.blocked()
    }

    /// The streams with frames held back, most recently blocked first.
    pub closed spec fn held_back_order(&self) -> Seq<StreamId> {
        self.stream_blocker.priorities()
    }

    /// The frames queued to be sent, oldest first.
    pub closed spec fn queued(&self) -> Seq<Seq<u8>> {
        self.send_frames@.map_values(|f: Vec<u8>| f@)
    }

    pub closed spec fn is_shutting_down(&self) -> bool {
        self.shutdown_initiated
    }

    pub closed spec fn spec_send_window(&self) -> u32 {
        self.send_window
    }

    pub closed spec fn spec_receive_window(&self) -> u32 {
        self.receive_window
    }

    /// The peer's settings.
    pub closed spec fn remote_settings(&self) -> Settings {
        self.connection_shared_state.spec_settings()
    }

    /// The server's own settings.
    pub closed spec fn spec_local_settings(&self) -> Settings {
        self.local_settings
    }

    /// The streams, by identifier.
    pub closed spec fn spec_streams(&self) -> Map<StreamId, Stream> {
        self.streams@
    }

    /// The highest stream identifier the client has opened.
    pub closed spec fn highest_remote(&self) -> StreamId {
        self.highest_remote_initiated_stream_identifier
    }

    /// The highest stream on which processing has started.
    pub closed spec fn highest_started(&self) -> StreamId {
        self.connection_shared_state.spec_highest_started()
    }

    /// The promised streams still to process, newest first.
    pub closed spec fn promised(&self) -> Seq<StreamId> {
        self.promised_streams_queue@
    }

    /// The stream whose header block is being received, if any.
    pub closed spec fn expecting(&self) -> Option<StreamId> {
        self.frame_state_validator.expecting()
    }

    /// What the connection keeps: both HPACK contexts well formed; each
    /// stream well formed and filed under its identifier, which fits in 31
    /// bits; the windows within the maximum.
    pub closed spec fn wf(&self) -> bool {
        &&& self.hpack_send_context.wf()
        &&& self.hpack_recv_context.wf()
        &&& forall|id: StreamId| #[trigger] self.streams@.contains_key(id) ==> {
            &&& self.streams@[id].wf()
            &&& self.streams@[id].spec_id() == id
            &&& id < 0x8000_0000
        }
        &&& self.stream_blocker.wf()
        &&& self.send_window <= MAXIMUM_FLOW_CONTROL_WINDOW_SIZE
        &&& self.receive_window <= MAXIMUM_FLOW_CONTROL_WINDOW_SIZE
        &&& self.connection_shared_state.spec_highest_started() < 0x8000_0000
        &&& self.highest_remote_initiated_stream_identifier < 0x8000_0000
        &&& forall|id: StreamId| #[trigger] self.streams@.contains_key(id) ==> {
            &&& self.streams@[id].sent().len() == 0
            &&& self.streams@[id].published().len() == 0
        }
        &&& forall|i: int|
            0 <= i < self.promised_streams_queue@.len() ==> {
                let pid = #[trigger] self.promised_streams_queue@[i];
                &&& self.streams@.contains_key(pid)
                &&& self.streams@[pid].kind() == StreamStateKind::ReservedLocal
                &&& !self.streams@[pid].started()
                &&& pid < self.connection_shared_state.spec_next_stream_id()
            }
        &&& self.promised_streams_queue@.no_duplicates()
        &&& self.connection_shared_state.spec_next_stream_id() % 2 == 0
    }

    /// Queues a frame to be sent on a stream.
    fn push_send_frame(&mut self, frame: OutgoingFrame, stream_id: StreamId)
        ensures
            final(self).queued() == old(self).queued().push(frame.octets(stream_id)),
            data_length(frame.octets(stream_id)) == send_size(frame),
            final(self).send_frames@.len() == old(self).send_frames@.len() + 1,
            final(self).frame_state_validator == old(self).frame_state_validator,
            final(self).hpack_send_context == old(self).hpack_send_context,
            final(self).hpack_recv_context == old(self).hpack_recv_context,
            final(self).streams == old(self).streams,
            final(self).stream_blocker == old(self).stream_blocker,
            final(self).promised_streams_queue == old(self).promised_streams_queue,
            final(self).connection_shared_state == old(self).connection_shared_state,
            final(self).local_settings == old(self).local_settings,
            final(self).highest_remote_initiated_stream_identifier == old(
                self,
            ).highest_remote_initiated_stream_identifier,
            final(self).shutdown_initiated == old(self).shutdown_initiated,
            final(self).send_window == old(self).send_window,
            final(self).receive_window == old(self).receive_window,
    {
        let octets = frame.compress(stream_id);
        self.send_frames.push_back(octets);
        proof {
            assert(self.queued() =~= old(self).queued().push(octets@));
        }
    }

    /// Starts shutting the connection down: no frame is processed after
    /// this, and a GOAWAY frame with the error and the highest stream whose
    /// processing started is queued.
    fn shutdown_connection(&mut self, http_error: HttpError)
        requires
            old(self).wf(),
        ensures
            final(self).wf(),
            final(self).shutdown_initiated,
            final(self).queued() == old(self).queued().push(
                go_away_octets(old(self).highest_started(), http_error),
            ),
            final(self).frame_state_validator == old(self).frame_state_validator,
            final(self).hpack_send_context == old(self).hpack_send_context,
            final(self).hpack_recv_context == old(self).hpack_recv_context,
            final(self).streams == old(self).streams,
            final(self).stream_blocker == old(self).stream_blocker,
            final(self).promised_streams_queue == old(self).promised_streams_queue,
            final(self).connection_shared_state == old(self).connection_shared_state,
            final(self).local_settings == old(self).local_settings,
            final(self).highest_remote_initiated_stream_identifier == old(
                self,
            ).highest_remote_initiated_stream_identifier,
            final(self).send_window == old(self).send_window,
            final(self).receive_window == old(self).receive_window,
    {
        self.shutdown_initiated = true;
        let go_away = GoAwayFrameCompressModel::for_error(
            self.connection_shared_state.get_highest_started_processing_stream_id(),
            http_error,
        );
        proof {
            lemma_go_away_frame_written(go_away);
        }
        let frame = OutgoingFrame::new(go_away);
        proof {
            assert(frame.octets(0) =~= go_away_octets(old(self).highest_started(), http_error));
        }
        self.push_send_frame(frame, CONNECTION_CONTROL_STREAM_ID);
    }

    /// Counts a DATA frame's length against the receive window: a frame
    /// larger than the window is a flow-control error; otherwise the window
    /// shrinks by the length, and a WINDOW_UPDATE tops it back up to the
    /// maximum.
    fn handle_flow_control_for_recv(&mut self, size: u32)
        requires
            old(self).wf(),
        ensures
            final(self).wf(),
            if size > old(self).receive_window {
                &&& final(self).shutdown_initiated
                &&& final(self).queued() == old(self).queued().push(
                    go_away_octets(
                        old(self).highest_started(),
                        HttpError::ConnectionError(
                            ErrorCode::FlowControlError,
                            ErrorName::ConnectionFlowControlWindowNotRespected,
                        ),
                    ),
                )
                &&& final(self).receive_window == old(self).receive_window
            } else {
                let amount = (MAXIMUM_FLOW_CONTROL_WINDOW_SIZE - (old(self).receive_window - size)) as u32;
                &&& final(self).shutdown_initiated == old(self).shutdown_initiated
                &&& final(self).queued() == if amount > 0 {
                    old(self).queued().push(window_update_octets(amount))
                } else {
                    old(self).queued()
                }
                &&& final(self).receive_window == MAXIMUM_FLOW_CONTROL_WINDOW_SIZE
            },
            final(self).frame_state_validator == old(self).frame_state_validator,
            final(self).hpack_send_context == old(self).hpack_send_context,
            final(self).hpack_recv_context == old(self).hpack_recv_context,
            final(self).streams == old(self).streams,
            final(self).stream_blocker == old(self).stream_blocker,
            final(self).promised_streams_queue == old(self).promised_streams_queue,
            final(self).connection_shared_state == old(self).connection_shared_state,
            final(self).local_settings == old(self).local_settings,
            final(self).highest_remote_initiated_stream_identifier == old(
                self,
            ).highest_remote_initiated_stream_identifier,
            final(self).send_window == old(self).send_window,
    {
        if size > self.receive_window {
            self.shutdown_connection(
                HttpError::ConnectionError(
                    ErrorCode::FlowControlError,
                    ErrorName::ConnectionFlowControlWindowNotRespected,
                ),
            );
            return ;
        }
        self.receive_window = self.receive_window - size;
        let update_amount = get_window_update_amount(self.receive_window);
        if update_amount > 0 {
            let model = WindowUpdateFrameCompressModel::new(update_amount);
            proof {
                lemma_window_update_frame_written(model);
            }
            let frame = OutgoingFrame::new(model);
            proof {
                assert(frame.octets(0) =~= window_update_octets(update_amount));
            }
            self.push_send_frame(frame, CONNECTION_CONTROL_STREAM_ID);
            self.receive_window = self.receive_window + update_amount;
        }
    }

    /// Whether the connection is shutting down.
    pub fn is_shutdown(&self) -> (r: bool)
        ensures
            r == self.is_shutting_down(),
    {
        self.shutdown_initiated
    }

    /// The oldest frame queued to be sent.
    pub fn pull_frame(&mut self) -> (r: Option<Vec<u8>>)
        requires
            old(self).wf(),
        ensures
            final(self).spec_local_settings() == old(self).spec_local_settings(),
            final(self).wf(),
            match r {
                Some(f) => old(self).queued().len() > 0 && f@ == old(self).queued()[0]
                    && final(self).queued() == old(self).queued().drop_first(),
                None => old(self).queued().len() == 0 && final(self).queued() == old(self).queued(),
            },
            final(self).is_shutting_down() == old(self).is_shutting_down(),
            final(self).spec_streams() == old(self).spec_streams(),
    {
        let r = self.send_frames.pop_front();
        proof {
            if r is Some {
                assert(self.queued() =~= old(self).queued().drop_first());
            }
        }
        r
    }

    /// Applies the peer's settings (section 6.5.3): a refused value shuts
    /// the connection down with its error; otherwise a change of the header
    /// table size is signalled to the encoder, and the settings are
    /// acknowledged when asked.
    fn apply_settings(&mut self, parameters: &[FrameSettingsParameter], send_acknowledge: bool)
        requires
            old(self).wf(),
        ensures
            final(self).wf(),
            final(self).remote_settings() == applied_settings(
                old(self).remote_settings(),
                settings_changes(parameters@),
            ),
            if first_refused(old(self).remote_settings(), settings_changes(parameters@)) is Some {
                &&& final(self).shutdown_initiated
                &&& final(self).queued() == old(self).queued().push(
                    go_away_octets(
                        old(self).highest_started(),
                        refusal(old(self).remote_settings(), settings_changes(parameters@)),
                    ),
                )
                &&& final(self).hpack_send_context == old(self).hpack_send_context
            } else {
                &&& final(self).shutdown_initiated == old(self).shutdown_initiated
                &&& final(self).queued() == if send_acknowledge {
                    old(self).queued().push(settings_ack_octets())
                } else {
                    old(self).queued()
                }
                &&& final(self).hpack_send_context.pending_size_update() == if changes_header_table_size(
                    parameters@,
                ) {
                    Some(final(self).remote_settings().header_table_size)
                } else {
                    old(self).hpack_send_context.pending_size_update()
                }
                &&& final(self).hpack_send_context.dynamic_fields() == old(self).hpack_send_context.dynamic_fields()
                &&& final(self).hpack_send_context.dynamic_max_size() == old(self).hpack_send_context.dynamic_max_size()
            },
            final(self).hpack_send_context.static_fields() == old(self).hpack_send_context.static_fields(),
            final(self).highest_started() == old(self).highest_started(),
            final(self).frame_state_validator == old(self).frame_state_validator,
            final(self).hpack_recv_context == old(self).hpack_recv_context,
            final(self).streams == old(self).streams,
            final(self).stream_blocker == old(self).stream_blocker,
            final(self).promised_streams_queue == old(self).promised_streams_queue,
            final(self).connection_shared_state.spec_next_stream_id() == old(
                self,
            ).connection_shared_state.spec_next_stream_id(),
            final(self).local_settings == old(self).local_settings,
            final(self).highest_remote_initiated_stream_identifier == old(
                self,
            ).highest_remote_initiated_stream_identifier,
            final(self).send_window == old(self).send_window,
            final(self).receive_window == old(self).receive_window,
    {
        let mut changes: Vec<SettingsParameter> = Vec::new();
        let mut header_table_size_changed = false;
        let mut k: usize = 0;
        while k < parameters.len()
            invariant
                k <= parameters.len(),
                changes@ == settings_changes(parameters@.take(k as int)),
                header_table_size_changed == exists|i: int|
                    0 <= i < k && (#[trigger] parameters@[i]).name == SettingName::SettingsHeaderTableSize,
            decreases parameters.len() - k,
        {
            let p = parameters[k];
            if p.name == SettingName::SettingsHeaderTableSize {
                header_table_size_changed = true;
            }
            changes.push(SettingsParameter::new(p.name, p.value));
            proof {
                assert(settings_changes(parameters@.take(k + 1)) =~= settings_changes(
                    parameters@.take(k as int),
                ).push(SettingsParameter { name: p.name, value: p.value }));
            }
            k = k + 1;
        }
        proof {
            assert(parameters@.take(k as int) =~= parameters@);
        }
        match self.connection_shared_state.apply_settings(changes.as_slice()) {
            Ok(_) => {
                if header_table_size_changed {
                    let size = self.connection_shared_state.get_incoming_settings().header_table_size;
                    self.hpack_send_context.inform_max_size_setting_changed(size);
                }
                if send_acknowledge {
                    let mut acknowledge = SettingsFrameCompressModel::new();
                    acknowledge.set_acknowledge();
                    proof {
                        lemma_settings_frame_written(acknowledge);
                        assert(0u8 | 0x1u8 == 0x1u8) by (bit_vector);
                    }
                    let frame = OutgoingFrame::new(acknowledge);
                    proof {
                        assert(frame.octets(0) =~= settings_ack_octets());
                    }
                    self.push_send_frame(frame, CONNECTION_CONTROL_STREAM_ID);
                }
            },
            Err(e) => {
                self.shutdown_connection(e);
            },
        }
    }

    /// A connection with its HPACK contexts and its own settings, applying
    /// the peer's initial settings and acknowledging them.
    pub fn new(
        hpack_send_context: SendContext<'a>,
        hpack_recv_context: RecvContext<'a>,
        initial_local_settings: Settings,
        initial_remote_settings_frame: SettingsFrame,
    ) -> (r: Self)
        requires
            hpack_send_context.wf(),
            hpack_recv_context.wf(),
        ensures
            r.wf(),
            r.spec_local_settings() == initial_local_settings,
            r.spec_send_window() == INITIAL_FLOW_CONTROL_WINDOW_SIZE,
            r.spec_receive_window() == INITIAL_FLOW_CONTROL_WINDOW_SIZE,
            r.spec_streams() == Map::<StreamId, Stream>::empty(),
            r.promised().len() == 0,
            r.expecting() is None,
            r.highest_remote() == 0,
            r.highest_started() == 0,
            r.remote_settings() == applied_settings(
                default_settings(),
                settings_changes(initial_remote_settings_frame.spec_parameters()),
            ),
            if first_refused(default_settings(), settings_changes(initial_remote_settings_frame.spec_parameters())) is Some {
                &&& r.is_shutting_down()
                &&& r.queued() == seq![
                    go_away_octets(
                        0,
                        refusal(default_settings(), settings_changes(initial_remote_settings_frame.spec_parameters())),
                    ),
                ]
            } else {
                &&& !r.is_shutting_down()
                &&& r.queued() == seq![settings_ack_octets()]
            },
    {
        let mut connection = Connection {
            send_frames: VecDeque::new(),
            frame_state_validator: ConnectionFrameStateValidator::new(),
            hpack_send_context,
            hpack_recv_context,
            streams: HashMap::new(),
            stream_blocker: StreamBlocker::new(),
            promised_streams_queue: VecDeque::new(),
            connection_shared_state: ConnectionSharedState::new(),
            local_settings: initial_local_settings,
            highest_remote_initiated_stream_identifier: 0,
            shutdown_initiated: false,
            send_window: INITIAL_FLOW_CONTROL_WINDOW_SIZE,
            receive_window: INITIAL_FLOW_CONTROL_WINDOW_SIZE,
        };
        proof {
            assert(connection.queued() =~= Seq::<Seq<u8>>::empty());
            assert(connection.streams@ =~= Map::<StreamId, Stream>::empty());
        }
        connection.apply_settings(initial_remote_settings_frame.get_parameters(), true);
        proof {
            assert(Seq::<Seq<u8>>::empty().push(settings_ack_octets()) =~= seq![settings_ack_octets()]);
        }
        connection
    }

    /// The error, if any, of opening a stream for a frame: a stream the
    /// client opens has an odd identifier (section 5.1.1) higher than any it
    /// opened before.
    pub closed spec fn stream_open_error(&self, id: StreamId) -> Option<HttpError> {
        if self.streams@.contains_key(id) {
            None
        } else if id % 2 != 1 {
            Some(
                HttpError::ConnectionError(
                    ErrorCode::ProtocolError,
                    ErrorName::EvenStreamIdentiferOnClientInitiatedStream,
                ),
            )
        } else if id <= self.highest_remote_initiated_stream_identifier {
            Some(
                HttpError::ConnectionError(
                    ErrorCode::ProtocolError,
                    ErrorName::ExpectedHigherStreamIdentiferForNewStream,
                ),
            )
        } else {
            None
        }
    }

    /// The stream a frame for a stream goes to, as it is before the frame:
    /// the existing one, or a new one.
    pub closed spec fn stream_before(&self, id: StreamId) -> Stream {
        if self.streams@.contains_key(id) {
            self.streams@[id]
        } else {
            choose|s: Stream| fresh_stream(s, id)
        }
    }

    /// Opening a stream for a frame: a frame for a stream that exists opens
    /// none; a stream the client opens must have an odd identifier, else the
    /// frame is a PROTOCOL_ERROR connection error, and one higher than any
    /// it opened before, else the same; otherwise the stream is opened.
    pub proof fn lemma_stream_open_error(&self, id: StreamId)
        ensures
            self.stream_open_error(id) == if self.spec_streams().contains_key(id) {
                None
            } else if id % 2 != 1 {
                Some(
                    HttpError::ConnectionError(
                        ErrorCode::ProtocolError,
                        ErrorName::EvenStreamIdentiferOnClientInitiatedStream,
                    ),
                )
            } else if id <= self.highest_remote() {
                Some(
                    HttpError::ConnectionError(
                        ErrorCode::ProtocolError,
                        ErrorName::ExpectedHigherStreamIdentiferForNewStream,
                    ),
                )
            } else {
                None
            },
    {
    }

    /// The stream a frame goes to: the stream with its identifier, or, when
    /// there is none, a new stream (`fresh_stream`; `Stream::new` makes one).
    pub proof fn lemma_stream_before(&self, id: StreamId)
        requires
            exists|s: Stream| fresh_stream(s, id),
        ensures
            self.spec_streams().contains_key(id) ==> self.stream_before(id) == self.spec_streams()[id],
            !self.spec_streams().contains_key(id) ==> fresh_stream(self.stream_before(id), id),
    {
    }

    /// The decoder context header blocks are decoded in.
    pub closed spec fn recv_context(&self) -> RecvContext<'a> {
        self.hpack_recv_context
    }

    /// Whether the stream a frame goes to can read it.
    pub open spec fn stream_can_recv(&self, header: FrameHeader, payload: Seq<u8>) -> bool {
        let id = header.stream_id;
        self.stream_open_error(id) is None ==> {
            let s = self.stream_before(id);
            &&& recv_handled(s.kind(), header.frame_type->Some_0)
            &&& recv_readable(s.kind(), s.temp().len() == 0, header, payload)
        }
    }

    /// Hands a frame to its stream, opening the stream if the client may;
    /// a connection error from the stream shuts the connection down, a
    /// stream error resets the stream; a request that is complete is
    /// handed out with its stream.
    fn move_to_stream(&mut self, frame: Frame) -> (r: Option<(StreamId, crate::http2::stream::stream_request::StreamRequest)>)
        requires
            old(self).wf(),
            frame.header.frame_type is Some,
            frame.header.stream_id != 0,
            frame.header.stream_id < 0x8000_0000,
            old(self).stream_can_recv(frame.header, frame.payload@),
        ensures
            final(self).wf(),
            stream_step(
                *old(self),
                old(self).queued(),
                old(self).shutdown_initiated,
                *final(self),
                frame.header,
                frame.payload@,
                r,
            ),
            final(self).send_window == old(self).send_window,
            final(self).receive_window == old(self).receive_window,
            final(self).frame_state_validator == old(self).frame_state_validator,
            final(self).local_settings == old(self).local_settings,
            final(self).connection_shared_state.spec_settings() == old(self).connection_shared_state.spec_settings(),
            final(self).stream_blocker == old(self).stream_blocker,
    {
        let id = frame.header.stream_id;
        let ghost old_streams = self.streams@;
        if !self.streams.contains_key(&id) {
            if id % 2 != 1 {
                self.shutdown_connection(
                    HttpError::ConnectionError(
                        ErrorCode::ProtocolError,
                        ErrorName::EvenStreamIdentiferOnClientInitiatedStream,
                    ),
                );
                return None;
            }
            if id <= self.highest_remote_initiated_stream_identifier {
                self.shutdown_connection(
                    HttpError::ConnectionError(
                        ErrorCode::ProtocolError,
                        ErrorName::ExpectedHigherStreamIdentiferForNewStream,
                    ),
                );
                return None;
            }
            self.highest_remote_initiated_stream_identifier = id;
            let fresh = Stream::new(id);
            proof {
                assert(fresh_stream(fresh, id));
                assert(exists|s: Stream| fresh_stream(s, id));
                let chosen = choose|s: Stream| fresh_stream(s, id);
                assert(fresh.temp() =~= chosen.temp());
                lemma_recv_outcome_depends(fresh, chosen, self.hpack_recv_context, frame.header, frame.payload@);
            }
            self.streams.insert(id, fresh);
        }
        let ghost before = self.streams@[id];
        let mut stream = match self.streams.remove(&id) {
            Some(stream) => stream,
            None => Stream::new(id),
        };
        assert(stream == before);
        let header = frame.header;
        let ghost payload = frame.payload@;
        let err = stream.recv(frame, &mut self.hpack_recv_context);
        let ghost after_recv = stream;
        proof {
            assert(recv_effect(before, after_recv, old(self).hpack_recv_context, self.hpack_recv_context, header, payload));
        }
        match err {
            Some(HttpError::ConnectionError(code, name)) => {
                self.streams.insert(id, stream);
                self.shutdown_connection(HttpError::ConnectionError(code, name));
                proof {
                    assert(self.streams@ =~= old(self).streams@.insert(id, after_recv));
                    assert(recv_effect(before, after_recv, old(self).recv_context(), self.recv_context(), header, payload));
                }
                None
            },
            Some(HttpError::StreamError(code, _)) => {
                self.streams.insert(id, stream);
                let model = ResetStreamFrameCompressModel::new(u32::from(code));
                proof {
                    lemma_reset_stream_frame_written(model);
                }
                let reset = OutgoingFrame::new(model);
                proof {
                    assert(reset.octets(id) =~= reset_stream_octets(id, code));
                }
                self.push_send_frame(reset, id);
                proof {
                    assert(self.streams@ =~= old(self).streams@.insert(id, after_recv));
                    assert(recv_effect(before, after_recv, old(self).recv_context(), self.recv_context(), header, payload));
                }
                None
            },
            None => {
                let request = stream.take_request(&mut self.connection_shared_state);
                self.streams.insert(id, stream);
                proof {
                    assert(self.streams@ =~= old(self).streams@.insert(id, self.streams@[id]));
                    assert(recv_effect(before, after_recv, old(self).recv_context(), self.recv_context(), header, payload));
                }
                match request {
                    Some(request) => Some((id, request)),
                    None => None,
                }
            },
        }
    }

    /// Releases held-back frames now that the send window has grown: for
    /// each blocked stream, oldest blocked first, the oldest frame held back
    /// is sent if what it needs is less than the send window.
    fn try_unblock_streams(&mut self)
        requires
            old(self).wf(),
        ensures
            final(self).wf(),
            final(self).send_window <= old(self).send_window,
            final(self).send_window + data_sent(final(self).queued().skip(old(self).queued().len() as int))
                == old(self).send_window,
            final(self).queued().len() >= old(self).queued().len(),
            final(self).queued().take(old(self).queued().len() as int) == old(self).queued(),
            final(self).shutdown_initiated == old(self).shutdown_initiated,
            final(self).streams == old(self).streams,
            final(self).frame_state_validator == old(self).frame_state_validator,
            final(self).hpack_send_context == old(self).hpack_send_context,
            final(self).hpack_recv_context == old(self).hpack_recv_context,
            final(self).promised_streams_queue == old(self).promised_streams_queue,
            final(self).connection_shared_state == old(self).connection_shared_state,
            final(self).local_settings == old(self).local_settings,
            final(self).highest_remote_initiated_stream_identifier == old(
                self,
            ).highest_remote_initiated_stream_identifier,
            final(self).receive_window == old(self).receive_window,
            ({
                let r = unblock(old(self).held_back(), old(self).held_back_order(), old(self).send_window);
                &&& final(self).queued() == old(self).queued() + r.0
                &&& final(self).held_back() == r.1
                &&& final(self).send_window == r.2
                &&& final(self).held_back_order() == old(self).held_back_order()
            }),
    {
        let mut unblock_priorities = self.stream_blocker.get_unblock_priorities();
        let ghost q0 = self.queued();
        let ghost mut out = Seq::<Seq<u8>>::empty();
        proof {
            assert(q0 + out =~= q0);
        }
        while unblock_priorities.len() > 0
            invariant
                self.wf(),
                self.send_window <= old(self).send_window,
                self.send_window + data_sent(self.queued().skip(q0.len() as int)) == old(self).send_window,
                self.queued().len() >= q0.len(),
                self.queued().take(q0.len() as int) == q0,
                q0 == old(self).queued(),
                self.shutdown_initiated == old(self).shutdown_initiated,
                self.streams == old(self).streams,
                self.frame_state_validator == old(self).frame_state_validator,
                self.hpack_send_context == old(self).hpack_send_context,
                self.hpack_recv_context == old(self).hpack_recv_context,
                self.promised_streams_queue == old(self).promised_streams_queue,
                self.connection_shared_state == old(self).connection_shared_state,
                self.local_settings == old(self).local_settings,
                self.highest_remote_initiated_stream_identifier == old(
                    self,
                ).highest_remote_initiated_stream_identifier,
                self.receive_window == old(self).receive_window,
                self.held_back_order() == old(self).held_back_order(),
                self.queued() == q0 + out,
                ({
                    let r = unblock(self.held_back(), unblock_priorities@, self.send_window);
                    unblock(old(self).held_back(), old(self).held_back_order(), old(self).send_window)
                        == (out + r.0, r.1, r.2)
                }),
            decreases unblock_priorities@.len(),
        {
            let ghost order = unblock_priorities@;
            let ghost held = self.held_back();
            let ghost window = self.send_window;
            let stream_id = match unblock_priorities.pop_back() {
                Some(id) => id,
                None => 0,
            };
            proof {
                assert(stream_id == order.last());
                assert(unblock_priorities@ =~= order.drop_last());
            }
            match self.stream_blocker.get_next_send_size(stream_id) {
                Some(size) => {
                    if size < self.send_window {
                        match self.stream_blocker.get_next_frame(stream_id) {
                            Some(frame) => {
                                self.send_window = self.send_window - size;
                                let ghost before = self.queued();
                                let ghost f = frame;
                                self.push_send_frame(frame, stream_id);
                                proof {
                                    assert(self.queued().take(q0.len() as int) =~= before.take(q0.len() as int));
                                    lemma_data_sent_push(before, q0.len() as int, f.octets(stream_id));
                                    let r = unblock(self.held_back(), unblock_priorities@, self.send_window);
                                    assert(out + (seq![f.octets(stream_id)] + r.0) =~= out.push(f.octets(stream_id)) + r.0);
                                    assert(self.queued() =~= q0 + out.push(f.octets(stream_id)));
                                    out = out.push(f.octets(stream_id));
                                }
                            },
                            None => {},
                        }
                    }
                },
                None => {},
            }
        }
    }

    /// Whether the connection can process a frame: its stream identifier
    /// fits in 31 bits; it is not a GOAWAY or PUSH_PROMISE frame, nor a PING
    /// acknowledgement; its octets are what the reader of its type needs;
    /// and the stream it goes to can read it.
    pub open spec fn recv_supported(&self, frame: Frame) -> bool {
        let h = frame.header;
        let p = frame.payload@;
        let ok = frame_state_step(self.expecting(), h.frame_type, h.flags, h.stream_id).1;
        &&& !self.is_shutting_down() ==> h.stream_id < 0x8000_0000
        &&& match frame_route(self.is_shutting_down(), self.spec_local_settings().max_frame_size, ok, h) {
            FrameRoute::Unhandled => false,
            FrameRoute::Ping => h.length == 8 ==> (p.len() >= 8 && h.flags & 0x1 != 0x1),
            FrameRoute::ConnectionWindowUpdate => window_update_readable(h, p),
            FrameRoute::Settings => h.length <= p.len(),
            FrameRoute::ToStream | FrameRoute::DataToStream => self.stream_can_recv(h, p),
            _ => true,
        }
    }

    /// Checks `recv_supported`.
    pub fn can_recv(&self, frame: &Frame) -> (r: bool)
        requires
            self.wf(),
        ensures
            r == self.recv_supported(*frame),
    {
        let h = &frame.header;
        if !self.shutdown_initiated && h.stream_id >= 0x8000_0000 {
            return false;
        }
        let ok = self.frame_state_validator.accepts(h.frame_type, h.flags, h.stream_id);
        match route_frame(self.shutdown_initiated, self.local_settings.max_frame_size, ok, h) {
            FrameRoute::Unhandled => false,
            FrameRoute::Ping => h.length != 8 || (frame.payload.len() >= 8 && h.flags & 0x1 != 0x1),
            FrameRoute::ConnectionWindowUpdate => h.length != 4 || (frame.payload.len() >= 4
                && frame.payload[0] < 0x80),
            FrameRoute::Settings => h.length as usize <= frame.payload.len(),
            FrameRoute::ToStream | FrameRoute::DataToStream => {
                let id = h.stream_id;
                match self.streams.get(&id) {
                    Some(stream) => stream.can_recv(h, frame.payload.as_slice()),
                    None => {
                        if id % 2 != 1 || id <= self.highest_remote_initiated_stream_identifier {
                            true
                        } else {
                            let fresh = Stream::new(id);
                            proof {
                                assert(fresh_stream(fresh, id));
                                assert(exists|s: Stream| fresh_stream(s, id));
                                let chosen = choose|s: Stream| fresh_stream(s, id);
                                assert(fresh.temp() =~= chosen.temp());
                            }
                            fresh.can_recv(h, frame.payload.as_slice())
                        }
                    },
                }
            },
            _ => true,
        }
    }

    /// Receives a frame (`frame_route`): a connection frame is answered
    /// here, a stream frame goes to its stream (`stream_step`), after a DATA
    /// frame is counted against the receive window. When a stream's request
    /// is complete, it is handed out with its stream for the application to
    /// process; the response goes back through `respond`. Once the
    /// connection is shutting down, every frame is dropped unprocessed: the
    /// frames to send, the streams and the held-back frames stay as they
    /// were, and no request is handed out.
    pub fn recv(&mut self, frame: Frame) -> (r: Option<(StreamId, crate::http2::stream::stream_request::StreamRequest)>)
        requires
            old(self).wf(),
            old(self).recv_supported(frame),
        ensures
            final(self).spec_local_settings() == old(self).spec_local_settings(),
            final(self).wf(),
            old(self).is_shutting_down() ==> {
                &&& r is None
                &&& final(self).queued() == old(self).queued()
                &&& final(self).spec_streams() == old(self).spec_streams()
                &&& final(self).is_shutting_down()
                &&& final(self).held_back() == old(self).held_back()
                &&& final(self).expecting() == old(self).expecting()
            },
            ({
                let h = frame.header;
                let p = frame.payload@;
                let step = frame_state_step(old(self).expecting(), h.frame_type, h.flags, h.stream_id);
                let checked = !old(self).is_shutting_down() && h.length <= old(self).spec_local_settings().max_frame_size;
                let route = frame_route(old(self).is_shutting_down(), old(self).spec_local_settings().max_frame_size, step.1, h);
                let shut = |e: HttpError| {
                    &&& final(self).is_shutting_down()
                    &&& final(self).queued() == old(self).queued().push(go_away_octets(old(self).highest_started(), e))
                };
                let unchanged = final(self).queued() == old(self).queued() && final(self).is_shutting_down()
                    == old(self).is_shutting_down();
                &&& final(self).expecting() == if checked { step.0 } else { old(self).expecting() }
                &&& final(self).held_back_order() == old(self).held_back_order()
                &&& route != FrameRoute::ConnectionWindowUpdate ==> final(self).held_back() == old(self).held_back()
                &&& match route {
                    FrameRoute::Refuse(e) => r is None && shut(e) && final(self).spec_streams() == old(self).spec_streams(),
                    FrameRoute::Ping => {
                        &&& r is None
                        &&& final(self).spec_streams() == old(self).spec_streams()
                        &&& if h.length == 8 {
                            final(self).queued() == old(self).queued().push(ping_ack_octets(p.take(8)))
                                && final(self).is_shutting_down() == old(self).is_shutting_down()
                        } else {
                            shut(HttpError::ConnectionError(ErrorCode::FrameSizeError, ErrorName::PingPayloadLength))
                        }
                    },
                    FrameRoute::ConnectionWindowUpdate => {
                        &&& r is None
                        &&& final(self).spec_streams() == old(self).spec_streams()
                        &&& match spec_window_update(h, p) {
                            Err(e) => shut(e),
                            Ok(increment) => match window_update_check(increment, old(self).spec_send_window(), false) {
                                Some(e) => shut(e),
                                None => {
                                    let released = unblock(
                                        old(self).held_back(),
                                        old(self).held_back_order(),
                                        (old(self).spec_send_window() + increment) as u32,
                                    );
                                    &&& final(self).is_shutting_down() == old(self).is_shutting_down()
                                    &&& final(self).queued() == old(self).queued() + released.0
                                    &&& final(self).held_back() == released.1
                                    &&& final(self).spec_send_window() == released.2
                                    &&& final(self).spec_send_window() + data_sent(
                                        final(self).queued().skip(old(self).queued().len() as int),
                                    ) == old(self).spec_send_window() + increment
                                },
                            },
                        }
                    },
                    FrameRoute::Settings => {
                        &&& r is None
                        &&& final(self).spec_streams() == old(self).spec_streams()
                        &&& match spec_settings_frame(h, p) {
                            Err(e) => shut(e),
                            Ok((true, _)) => unchanged,
                            Ok((false, ps)) => {
                                &&& final(self).remote_settings() == applied_settings(
                                    old(self).remote_settings(),
                                    settings_changes(ps),
                                )
                                &&& if first_refused(old(self).remote_settings(), settings_changes(ps)) is Some {
                                    shut(refusal(old(self).remote_settings(), settings_changes(ps)))
                                } else {
                                    final(self).queued() == old(self).queued().push(settings_ack_octets())
                                        && final(self).is_shutting_down() == old(self).is_shutting_down()
                                }
                            },
                        }
                    },
                    FrameRoute::ToStream => stream_step(
                        *old(self),
                        old(self).queued(),
                        old(self).is_shutting_down(),
                        *final(self),
                        h,
                        p,
                        r,
                    ),
                    FrameRoute::DataToStream => {
                        let over = h.length > old(self).spec_receive_window();
                        let amount = (MAXIMUM_FLOW_CONTROL_WINDOW_SIZE - (old(self).spec_receive_window() - h.length)) as u32;
                        let flow_queued = if over {
                            old(self).queued().push(
                                go_away_octets(
                                    old(self).highest_started(),
                                    HttpError::ConnectionError(
                                        ErrorCode::FlowControlError,
                                        ErrorName::ConnectionFlowControlWindowNotRespected,
                                    ),
                                ),
                            )
                        } else if amount > 0 {
                            old(self).queued().push(window_update_octets(amount))
                        } else {
                            old(self).queued()
                        };
                        &&& stream_step(
                            *old(self),
                            flow_queued,
                            old(self).is_shutting_down() || over,
                            *final(self),
                            h,
                            p,
                            r,
                        )
                        &&& final(self).spec_receive_window() == if over {
                            old(self).spec_receive_window()
                        } else {
                            MAXIMUM_FLOW_CONTROL_WINDOW_SIZE
                        }
                    },
                    _ => r is None && unchanged && final(self).spec_streams() == old(self).spec_streams(),
                }
            }),
    {
        if self.shutdown_initiated {
            return None;
        }
        let max_frame_size = self.local_settings.max_frame_size;
        if frame.header.length > max_frame_size {
            self.shutdown_connection(
                HttpError::ConnectionError(ErrorCode::ProtocolError, ErrorName::FramePayloadLargerThanSettingsValue),
            );
            return None;
        }
        let okay = self.frame_state_validator.is_okay(
            frame.header.frame_type,
            frame.header.flags,
            frame.header.stream_id,
        );
        let route = route_frame(false, max_frame_size, okay, &frame.header);
        match route {
            FrameRoute::Refuse(e) => {
                self.shutdown_connection(e);
                None
            },
            FrameRoute::Ping => {
                match PingFrame::new(&frame.header, frame.payload.as_slice()) {
                    Ok(ping_frame) => {
                        let mut ping_response = PingFrameCompressModel::new();
                        ping_response.set_acknowledge();
                        ping_response.set_ping_payload(ping_frame.get_payload());
                        proof {
                            lemma_ping_frame_written(ping_response);
                            assert(0u8 | 0x1u8 == 0x1u8) by (bit_vector);
                        }
                        let response = OutgoingFrame::new(ping_response);
                        proof {
                            assert(response.octets(0) =~= ping_ack_octets(frame.payload@.take(8)));
                        }
                        self.push_send_frame(response, CONNECTION_CONTROL_STREAM_ID);
                    },
                    Err(e) => {
                        self.shutdown_connection(e);
                    },
                }
                None
            },
            FrameRoute::ConnectionWindowUpdate => {
                let checked = check_conn_window_update(
                    WindowUpdateFrame::new_conn(&frame.header, frame.payload.as_slice()),
                    self.send_window,
                );
                match checked {
                    Ok(window_update_frame) => {
                        let increment = window_update_frame.get_window_size_increment();
                        proof {
                            crate::http2::frame::check::window_update::lemma_accepted_window_update(
                                increment,
                                self.send_window,
                                false,
                            );
                        }
                        self.send_window = self.send_window + increment;
                        self.try_unblock_streams();
                    },
                    Err(e) => {
                        self.shutdown_connection(e);
                    },
                }
                None
            },
            FrameRoute::Settings => {
                match SettingsFrame::new(&frame.header, frame.payload.as_slice()) {
                    Ok(settings_frame) => {
                        if !settings_frame.is_acknowledge() {
                            self.apply_settings(settings_frame.get_parameters(), true);
                        }
                    },
                    Err(e) => {
                        self.shutdown_connection(e);
                    },
                }
                None
            },
            FrameRoute::ToStream => self.move_to_stream(frame),
            FrameRoute::DataToStream => {
                self.handle_flow_control_for_recv(frame.header.length);
                self.move_to_stream(frame)
            },
            _ => None,
        }
    }

    /// Queues a stream's frames to be sent, holding back what flow control
    /// does not allow: once the stream is blocked, its DATA, HEADERS and
    /// CONTINUATION frames wait behind the blocked ones; a DATA frame longer
    /// than the send window blocks the stream; a DATA frame that is sent
    /// takes its length from the send window; other frames are sent.
    fn queue_stream_frames(&mut self, stream_id: StreamId, frames: Vec<OutgoingFrame>)
        requires
            old(self).wf(),
            stream_id < 0x8000_0000,
        ensures
            final(self).wf(),
            final(self).send_window <= old(self).send_window,
            final(self).send_window + data_sent(final(self).queued().skip(old(self).queued().len() as int))
                == old(self).send_window,
            final(self).queued().len() >= old(self).queued().len(),
            final(self).queued().take(old(self).queued().len() as int) == old(self).queued(),
            final(self).shutdown_initiated == old(self).shutdown_initiated,
            final(self).streams == old(self).streams,
            final(self).frame_state_validator == old(self).frame_state_validator,
            final(self).hpack_send_context == old(self).hpack_send_context,
            final(self).hpack_recv_context == old(self).hpack_recv_context,
            final(self).promised_streams_queue == old(self).promised_streams_queue,
            final(self).connection_shared_state == old(self).connection_shared_state,
            final(self).local_settings == old(self).local_settings,
            final(self).highest_remote_initiated_stream_identifier == old(
                self,
            ).highest_remote_initiated_stream_identifier,
            final(self).receive_window == old(self).receive_window,
            ({
                let blocked = old(self).held_back().contains_key(stream_id);
                let split = flow_split(frames@, blocked, old(self).send_window);
                &&& final(self).queued() == old(self).queued() + written(split.0, stream_id)
                &&& final(self).send_window == split.2
                &&& final(self).held_back() == held_after(old(self).held_back(), stream_id, split.1)
                &&& final(self).held_back_order() == order_after(
                    old(self).held_back_order(),
                    old(self).held_back(),
                    stream_id,
                    split.1,
                )
            }),
    {
        let mut is_blocked = self.stream_blocker.is_blocking(stream_id);
        let mut rest = frames;
        let ghost q0 = self.queued();
        let ghost all = frames@;
        let ghost b0 = is_blocked;
        let ghost w0 = self.send_window;
        let ghost held0 = self.held_back();
        let ghost order0 = self.held_back_order();
        let ghost mut sent = Seq::<OutgoingFrame>::empty();
        let ghost mut held = Seq::<OutgoingFrame>::empty();
        proof {
            assert(q0 + written(sent, stream_id) =~= q0);
        }
        while rest.len() > 0
            invariant
                self.wf(),
                stream_id < 0x8000_0000,
                self.send_window <= old(self).send_window,
                self.send_window + data_sent(self.queued().skip(q0.len() as int)) == old(self).send_window,
                self.queued().len() >= q0.len(),
                self.queued().take(q0.len() as int) == q0,
                q0 == old(self).queued(),
                self.shutdown_initiated == old(self).shutdown_initiated,
                self.streams == old(self).streams,
                self.frame_state_validator == old(self).frame_state_validator,
                self.hpack_send_context == old(self).hpack_send_context,
                self.hpack_recv_context == old(self).hpack_recv_context,
                self.promised_streams_queue == old(self).promised_streams_queue,
                self.connection_shared_state == old(self).connection_shared_state,
                self.local_settings == old(self).local_settings,
                self.highest_remote_initiated_stream_identifier == old(
                    self,
                ).highest_remote_initiated_stream_identifier,
                self.receive_window == old(self).receive_window,
                b0 == held0.contains_key(stream_id),
                held0 == old(self).held_back(),
                order0 == old(self).held_back_order(),
                w0 == old(self).send_window,
                all == frames@,
                is_blocked == (b0 || held.len() > 0),
                ({
                    let r = flow_split(rest@, is_blocked, self.send_window);
                    flow_split(all, b0, w0) == (sent + r.0, r.1 + held, r.2, r.3)
                }),
                self.queued() == q0 + written(sent, stream_id),
                self.held_back() == held_after(held0, stream_id, held),
                self.held_back_order() == order_after(order0, held0, stream_id, held),
            decreases rest.len(),
        {
            let ghost rest0 = rest@;
            let frame = rest.remove(0);
            let frame_type = frame.get_frame_type();
            let ghost old_blocked = is_blocked;
            let ghost old_window = self.send_window;
            let ghost hb0 = self.held_back();
            let ghost before = self.queued();
            let ghost f = frame;
            proof {
                assert(rest@ =~= rest0.drop_first());
            }
            if frame_type == FrameType::Data {
                let length = frame.get_length();
                if is_blocked {
                    self.stream_blocker.block_frame(stream_id, frame);
                } else if length > self.send_window {
                    self.stream_blocker.block_frame(stream_id, frame);
                    is_blocked = true;
                } else {
                    self.send_window = self.send_window - length;
                    self.push_send_frame(frame, stream_id);
                }
            } else if (frame_type == FrameType::Headers || frame_type == FrameType::Continuation) && is_blocked {
                self.stream_blocker.block_frame(stream_id, frame);
            } else {
                self.push_send_frame(frame, stream_id);
            }
            proof {
                assert(self.queued().take(q0.len() as int) =~= before.take(q0.len() as int));
                if self.queued() != before {
                    lemma_data_sent_push(before, q0.len() as int, f.octets(stream_id));
                }
            }
            proof {
                let r0 = flow_split(rest0, old_blocked, old_window);
                let r = flow_split(rest@, is_blocked, self.send_window);
                if self.queued() != before {
                    assert(written(sent.push(f), stream_id) =~= written(sent, stream_id).push(f.octets(stream_id)));
                    assert(sent + r0.0 =~= sent.push(f) + r.0);
                    sent = sent.push(f);
                } else {
                    assert(r.1 + (seq![f] + held) =~= (r.1 + seq![f]) + held);
                    let base = if held0.contains_key(stream_id) {
                        held0[stream_id]
                    } else {
                        Seq::<OutgoingFrame>::empty()
                    };
                    if held.len() > 0 {
                        assert(hb0[stream_id] == held + base);
                        assert((seq![f] + held) + base =~= seq![f] + (held + base));
                    } else {
                        assert(hb0 == held0);
                    }
                    assert(self.held_back() =~= held_after(held0, stream_id, seq![f] + held));
                    held = seq![f] + held;
                }
            }
        }
    }

    /// The encoder context header blocks are encoded in.
    pub closed spec fn send_context(&self) -> SendContext<'a> {
        self.hpack_send_context
    }

    /// The next identifier for a stream the server opens.
    pub closed spec fn next_promised_id(&self) -> StreamId {
        self.connection_shared_state.spec_next_stream_id()
    }

    /// What responding on a stream needs: the stream is half closed by the
    /// client; the response, and each request queued to be pushed, can be
    /// encoded; and the promised streams' identifiers fit in 31 bits.
    pub open spec fn can_respond_to(&self, stream_id: StreamId, response: StreamResponse) -> bool {
        let m = effective_max_size(
            self.send_context().dynamic_max_size() as int,
            self.send_context().pending_size_update(),
        );
        &&& stream_id % 2 == 1
        &&& self.spec_streams().contains_key(stream_id)
        &&& self.spec_streams()[stream_id].kind() == StreamStateKind::HalfClosedRemote
        &&& response_sendable(self.send_context(), response)
        &&& forall|i: int|
            0 <= i < self.spec_streams()[stream_id].push_queue().len() ==> block_sendable(
                (#[trigger] self.spec_streams()[stream_id].push_queue()[i]).headers,
                m,
            )
        &&& self.next_promised_id() + 2 * self.spec_streams()[stream_id].push_queue().len() < 0x8000_0000
    }

    /// Checks `can_respond_to`.
    pub fn can_respond(&self, stream_id: StreamId, response: &StreamResponse) -> (r: bool)
        requires
            self.wf(),
        ensures
            r == self.can_respond_to(stream_id, *response),
    {
        if stream_id % 2 != 1 {
            return false;
        }
        match self.streams.get(&stream_id) {
            None => false,
            Some(stream) => {
                assert(*stream == self.spec_streams()[stream_id]);
                if stream.get_state_kind() != StreamStateKind::HalfClosedRemote {
                    return false;
                }
                if !response_sendable_exec(&self.hpack_send_context, response) {
                    return false;
                }
                let m = self.hpack_send_context.next_block_max_size();
                let queue = stream.push_queue_slice();
                let n = queue.len();
                let mut k: usize = 0;
                while k < n
                    invariant
                        k <= n,
                        n == queue.len(),
                        queue@ == stream.push_queue(),
                        self.spec_streams().contains_key(stream_id),
                        *stream == self.spec_streams()[stream_id],
                        stream.kind() == StreamStateKind::HalfClosedRemote,
                        response_sendable(self.send_context(), *response),
                        m == effective_max_size(
                            self.hpack_send_context.dynamic_max_size() as int,
                            self.hpack_send_context.pending_size_update(),
                        ),
                        forall|i: int| 0 <= i < k ==> block_sendable((#[trigger] queue@[i]).headers, m as int),
                    decreases n - k,
                {
                    if !block_sendable_exec(&queue[k].headers, m) {
                        assert(self.spec_streams()[stream_id].push_queue()[k as int] == queue@[k as int]);
                        return false;
                    }
                    k = k + 1;
                }
                let next = self.connection_shared_state.get_next_stream_id();
                n < 0x4000_0000 && (next as u64) + 2 * (n as u64) < 0x8000_0000
            },
        }
    }

    /// Sends the application's response on a stream: the stream sends a
    /// PUSH_PROMISE for each queued push and then the response, which
    /// closes it; each promised stream is opened reserved and queued to be
    /// processed; the stream's frames are queued under flow control.
    pub fn respond(&mut self, stream_id: StreamId, response: StreamResponse)
        requires
            old(self).wf(),
            old(self).can_respond_to(stream_id, response),
        ensures
            final(self).spec_local_settings() == old(self).spec_local_settings(),
            final(self).wf(),
            final(self).spec_streams().contains_key(stream_id),
            final(self).spec_streams()[stream_id].kind() == StreamStateKind::Closed(
                crate::http2::stream::state::StreamClosedReason::StreamEnded,
            ),
            final(self).promised().len() == old(self).promised().len() + old(self).spec_streams()[stream_id].push_queue().len(),
            final(self).promised().skip(
                old(self).spec_streams()[stream_id].push_queue().len() as int,
            ) == old(self).promised(),
            final(self).next_promised_id() == old(self).next_promised_id() + 2 * old(
                self,
            ).spec_streams()[stream_id].push_queue().len(),
            final(self).queued().len() >= old(self).queued().len(),
            final(self).queued().take(old(self).queued().len() as int) == old(self).queued(),
            final(self).is_shutting_down() == old(self).is_shutting_down(),
            final(self).spec_send_window() <= old(self).spec_send_window(),
            final(self).spec_send_window() + data_sent(final(self).queued().skip(old(self).queued().len() as int))
                == old(self).spec_send_window(),
            forall|j: int|
                0 <= j < old(self).spec_streams()[stream_id].push_queue().len() ==> {
                    let e = #[trigger] promised_entries(
                        old(self).spec_streams()[stream_id].push_queue(),
                        old(self).next_promised_id(),
                    )[j];
                    &&& final(self).spec_streams().contains_key(e.0)
                    &&& final(self).spec_streams()[e.0].promised_request() == Some(e.1)
                },
            exists|frames: Seq<OutgoingFrame>|
                {
                    &&& carries_pushes_then_response(
                        frames,
                        old(self).send_context().static_fields(),
                        old(self).send_context().dynamic_fields(),
                        old(self).send_context().dynamic_max_size() as int,
                        old(self).send_context().pending_size_update(),
                        old(self).spec_streams()[stream_id].push_queue(),
                        old(self).next_promised_id(),
                        response,
                        final(self).send_context().dynamic_fields(),
                    )
                    &&& #[trigger] old(self).sent_under_flow_control(*final(self), stream_id, frames)
                },
    {
        let ghost n = self.streams@[stream_id].push_queue().len();
        let ghost q0 = self.queued();
        let ghost promised0 = self.promised_streams_queue@;
        let ghost next0 = self.connection_shared_state.spec_next_stream_id();
        let mut stream = match self.streams.remove(&stream_id) {
            Some(stream) => stream,
            None => Stream::new(stream_id),
        };
        let n_exec = stream.push_queue_slice().len();
        assert(n_exec == n);
        let ghost stream0 = stream;
        stream.respond(response, &mut self.hpack_send_context, &mut self.connection_shared_state);
        let ghost ctx1 = self.hpack_send_context;
        let ghost sent1 = stream.sent();
        proof {
            assert(stream0 == old(self).spec_streams()[stream_id]);
            assert(stream0.sent().len() == 0);
            assert(sent1.skip(0) =~= sent1);
        }
        let ghost entries = stream.published();
        assert(entries.len() == n);
        let mut k: usize = 0;
        while k < n_exec
            invariant
                n_exec == n,
                0 <= k <= n,
                entries.len() == n,
                stream.published() == entries.take(n - k),
                forall|j: int| 0 <= j < n ==> {
                    &&& (#[trigger] entries[j]).0 < self.connection_shared_state.spec_next_stream_id()
                    &&& entries[j].0 >= next0
                    &&& entries[j].0 < 0x8000_0000
                    &&& entries[j].0 % 2 == 0
                },
                stream_id % 2 == 1,
                next0 % 2 == 0,
                forall|j: int, l: int| 0 <= j < l < n ==> (#[trigger] entries[j]).0 != (#[trigger] entries[l]).0,
                stream.wf(),
                stream.spec_id() == stream_id,
                stream.kind() == StreamStateKind::Closed(crate::http2::stream::state::StreamClosedReason::StreamEnded),
                !self.streams@.contains_key(stream_id),
                self.promised_streams_queue@.len() == promised0.len() + k,
                self.promised_streams_queue@.skip(k as int) == promised0,
                forall|i: int| 0 <= i < promised0.len() ==> (#[trigger] promised0[i]) < next0,
                forall|j: int| 0 <= j < k ==> self.promised_streams_queue@[j] == (#[trigger] entries[n - k + j]).0,
                self.connection_shared_state.spec_next_stream_id() == next0 + 2 * n,
                next0 == old(self).connection_shared_state.spec_next_stream_id(),
                self.queued() == q0,
                self.send_frames@.len() == q0.len(),
                q0 == old(self).queued(),
                self.hpack_send_context.wf(),
                self.hpack_recv_context.wf(),
                forall|id: StreamId| #[trigger] self.streams@.contains_key(id) ==> {
                    &&& self.streams@[id].wf()
                    &&& self.streams@[id].spec_id() == id
                    &&& id < 0x8000_0000
                    &&& self.streams@[id].sent().len() == 0
                    &&& self.streams@[id].published().len() == 0
                },
                stream_id < 0x8000_0000,
                self.stream_blocker.wf(),
                self.send_window <= MAXIMUM_FLOW_CONTROL_WINDOW_SIZE,
                self.receive_window <= MAXIMUM_FLOW_CONTROL_WINDOW_SIZE,
                self.connection_shared_state.spec_highest_started() < 0x8000_0000,
                self.highest_remote_initiated_stream_identifier < 0x8000_0000,
                forall|i: int|
                    0 <= i < self.promised_streams_queue@.len() ==> {
                        let pid = #[trigger] self.promised_streams_queue@[i];
                        &&& self.streams@.contains_key(pid)
                        &&& self.streams@[pid].kind() == StreamStateKind::ReservedLocal
                        &&& !self.streams@[pid].started()
                        &&& pid < self.connection_shared_state.spec_next_stream_id()
                    },
                self.promised_streams_queue@.no_duplicates(),
                self.shutdown_initiated == old(self).shutdown_initiated,
                self.send_window == old(self).send_window,
                self.stream_blocker == old(self).stream_blocker,
                self.local_settings == old(self).local_settings,
                self.hpack_send_context == ctx1,
                stream.sent() == sent1,
                forall|j: int|
                    n - k <= j < n ==> {
                        &&& self.streams@.contains_key((#[trigger] entries[j]).0)
                        &&& self.streams@[entries[j].0].promised_request() == Some(entries[j].1)
                    },
            decreases n - k,
        {
            let entry = stream.fetch_push_promise();
            let (promised_stream_id, stream_request) = match entry {
                Some(entry) => entry,
                None => (0, StreamRequest::new()),
            };
            proof {
                assert(entries.take(n - k).last() == entries[n - k - 1]);
                assert(entries.take(n - k).drop_last() =~= entries.take(n - (k + 1)));
                assert(promised_stream_id == entries[n - k - 1].0);
            }
            let promise_stream = Stream::new_promise(promised_stream_id, stream_request);
            proof {
                assert(stream_request == entries[n - k - 1].1);
            }
            self.streams.insert(promised_stream_id, promise_stream);
            proof {
                assert forall|j: int| n - (k + 1) <= j < n implies {
                    &&& self.streams@.contains_key((#[trigger] entries[j]).0)
                    &&& self.streams@[entries[j].0].promised_request() == Some(entries[j].1)
                } by {
                    if j != n - k - 1 {
                        assert(entries[j].0 != entries[n - k - 1].0);
                    }
                }
            }
            self.promised_streams_queue.push_front(promised_stream_id);
            proof {
                let q = self.promised_streams_queue@;
                assert(q.skip(k + 1) =~= q.skip(1).skip(k as int));
                assert(q.skip(1) =~= old_queue_of(q));
                assert forall|j: int| 0 <= j < k + 1 implies q[j] == (#[trigger] entries[n - (k + 1) + j]).0 by {
                    if j > 0 {
                        assert(q[j] == q.skip(1)[j - 1]);
                        assert(q.skip(1)[j - 1] == entries[n - k + (j - 1)].0);
                    } else {
                        assert(q[0] == promised_stream_id);
                    }
                }
                assert forall|i: int| 0 <= i < q.len() implies {
                    let pid = #[trigger] q[i];
                    &&& self.streams@.contains_key(pid)
                    &&& self.streams@[pid].kind() == StreamStateKind::ReservedLocal
                    &&& !self.streams@[pid].started()
                    &&& pid < self.connection_shared_state.spec_next_stream_id()
                } by {
                    if i > 0 {
                        assert(q[i] == q.skip(1)[i - 1]);
                        if i - 1 < k {
                            assert(q[i] == entries[n - (k + 1) + i].0);
                        } else {
                            assert(q[i] == promised0[i - 1 - k]);
                        }
                    }
                }
                assert(q.no_duplicates()) by {
                    assert forall|i: int, j: int| 0 <= i < j < q.len() implies q[i] != q[j] by {
                        assert(q[j] == q.skip(1)[j - 1]);
                        if i > 0 {
                            assert(q[i] == q.skip(1)[i - 1]);
                        }
                        if j - 1 >= k {
                            assert(q[j] == promised0[j - 1 - k]);
                        } else {
                            assert(q[j] == entries[n - (k + 1) + j].0);
                        }
                        if i > 0 && i - 1 >= k {
                            assert(q[i] == promised0[i - 1 - k]);
                        } else {
                            assert(q[i] == entries[n - (k + 1) + i].0);
                        }
                    }
                }
            }
            k = k + 1;
        }
        let frames = stream.fetch_send_frames();
        let ghost sent = frames@;
        self.streams.insert(stream_id, stream);
        proof {
            assert(stream0.published().len() == 0);
            assert(entries =~= promised_entries(stream0.push_queue(), next0));
            assert forall|j: int| 0 <= j < n implies {
                &&& self.streams@.contains_key((#[trigger] entries[j]).0)
                &&& self.streams@[entries[j].0].promised_request() == Some(entries[j].1)
            } by {
                assert(entries[j].0 % 2 == 0);
            }
        }
        self.queue_stream_frames(stream_id, frames);
        proof {
            assert(sent == sent1);
            assert(old(self).sent_under_flow_control(*self, stream_id, sent));
        }
    }

    /// Whether the client lets the server push.
    pub fn is_push_enabled(&self) -> (r: bool)
        ensures
            r == self.remote_settings().enable_push,
    {
        self.connection_shared_state.get_incoming_settings().enable_push
    }

    /// Queues a request to be pushed on a stream's behalf, before its
    /// response.
    pub fn push_promise(&mut self, stream_id: StreamId, request: StreamRequest)
        requires
            old(self).wf(),
            old(self).spec_streams().contains_key(stream_id),
        ensures
            final(self).spec_local_settings() == old(self).spec_local_settings(),
            final(self).wf(),
            final(self).spec_streams() == old(self).spec_streams().insert(
                stream_id,
                final(self).spec_streams()[stream_id],
            ),
            final(self).spec_streams()[stream_id].push_queue() == seq![request] + old(
                self,
            ).spec_streams()[stream_id].push_queue(),
            final(self).spec_streams()[stream_id].kind() == old(self).spec_streams()[stream_id].kind(),
            final(self).queued() == old(self).queued(),
            final(self).promised() == old(self).promised(),
            final(self).is_shutting_down() == old(self).is_shutting_down(),
    {
        let mut stream = match self.streams.remove(&stream_id) {
            Some(stream) => stream,
            None => Stream::new(stream_id),
        };
        stream.push_promise(request);
        self.streams.insert(stream_id, stream);
        proof {
            assert(self.streams@ =~= old(self).streams@.insert(stream_id, self.streams@[stream_id]));
        }
    }

    /// Takes the oldest promised stream still to be processed, and the
    /// request it promises, for the application to process; the response
    /// goes back through `respond_promised`. Nothing once the connection is
    /// shutting down.
    pub fn execute_promised(&mut self) -> (r: Option<(StreamId, StreamRequest)>)
        requires
            old(self).wf(),
        ensures
            final(self).spec_local_settings() == old(self).spec_local_settings(),
            final(self).wf(),
            final(self).queued() == old(self).queued(),
            final(self).is_shutting_down() == old(self).is_shutting_down(),
            match r {
                Some((pid, request)) => {
                    &&& !old(self).is_shutting_down()
                    &&& old(self).promised().len() > 0
                    &&& pid == old(self).promised().last()
                    &&& final(self).promised() == old(self).promised().drop_last()
                    &&& Some(request) == old(self).spec_streams()[pid].promised_request()
                    &&& final(self).spec_streams().contains_key(pid)
                    &&& final(self).spec_streams()[pid].kind() == StreamStateKind::ReservedLocal
                    &&& final(self).spec_streams()[pid].started()
                },
                None => {
                    &&& old(self).is_shutting_down() || old(self).promised().len() == 0
                    &&& final(self).promised() == old(self).promised()
                },
            },
    {
        if self.shutdown_initiated {
            return None;
        }
        match self.promised_streams_queue.pop_back() {
            None => None,
            Some(pid) => {
                let ghost q0 = old(self).promised_streams_queue@;
                proof {
                    assert(q0[q0.len() - 1] == pid);
                    assert forall|i: int| 0 <= i < self.promised_streams_queue@.len()
                        implies self.promised_streams_queue@[i] != pid by {
                        assert(self.promised_streams_queue@[i] == q0[i]);
                    }
                }
                let mut stream = match self.streams.remove(&pid) {
                    Some(stream) => stream,
                    None => Stream::new(pid),
                };
                let request = stream.take_promised_request();
                self.streams.insert(pid, stream);
                proof {
                    let q = self.promised_streams_queue@;
                    assert forall|i: int| 0 <= i < q.len() implies {
                        let p = #[trigger] q[i];
                        &&& self.streams@.contains_key(p)
                        &&& self.streams@[p].kind() == StreamStateKind::ReservedLocal
                        &&& !self.streams@[p].started()
                        &&& p < self.connection_shared_state.spec_next_stream_id()
                    } by {
                        assert(q[i] == q0[i]);
                    }
                    assert(q.no_duplicates()) by {
                        assert forall|i: int, j: int| 0 <= i < j < q.len() implies q[i] != q[j] by {
                            assert(q[i] == q0[i]);
                            assert(q[j] == q0[j]);
                        }
                    }
                }
                Some((pid, request))
            },
        }
    }

    /// Whether a promised stream awaits its response: it is reserved and
    /// its request has been handed out, and the response can be encoded.
    pub open spec fn can_respond_promised_to(&self, stream_id: StreamId, response: StreamResponse) -> bool {
        &&& self.spec_streams().contains_key(stream_id)
        &&& self.spec_streams()[stream_id].kind() == StreamStateKind::ReservedLocal
        &&& self.spec_streams()[stream_id].started()
        &&& response_sendable(self.send_context(), response)
    }

    /// Checks `can_respond_promised_to`.
    pub fn can_respond_promised(&self, stream_id: StreamId, response: &StreamResponse) -> (r: bool)
        requires
            self.wf(),
        ensures
            r == self.can_respond_promised_to(stream_id, *response),
    {
        match self.streams.get(&stream_id) {
            None => false,
            Some(stream) => {
                assert(*stream == self.spec_streams()[stream_id]);
                stream.get_state_kind() == StreamStateKind::ReservedLocal && stream.is_started()
                    && response_sendable_exec(&self.hpack_send_context, response)
            },
        }
    }

    /// Sends the application's response on a promised stream; the response
    /// closes the stream; its frames are queued under flow control.
    pub fn respond_promised(&mut self, stream_id: StreamId, response: StreamResponse)
        requires
            old(self).wf(),
            old(self).can_respond_promised_to(stream_id, response),
        ensures
            final(self).spec_local_settings() == old(self).spec_local_settings(),
            final(self).wf(),
            final(self).spec_streams().contains_key(stream_id),
            final(self).spec_streams()[stream_id].kind() == StreamStateKind::Closed(
                crate::http2::stream::state::StreamClosedReason::StreamEnded,
            ),
            final(self).promised() == old(self).promised(),
            final(self).queued().len() >= old(self).queued().len(),
            final(self).queued().take(old(self).queued().len() as int) == old(self).queued(),
            final(self).is_shutting_down() == old(self).is_shutting_down(),
            final(self).spec_send_window() + data_sent(final(self).queued().skip(old(self).queued().len() as int))
                == old(self).spec_send_window(),
            exists|frames: Seq<OutgoingFrame>|
                {
                    &&& carries_response(
                        frames,
                        old(self).send_context().static_fields(),
                        old(self).send_context().dynamic_fields(),
                        old(self).send_context().dynamic_max_size() as int,
                        old(self).send_context().pending_size_update(),
                        response.informational_headers@,
                        response,
                        final(self).send_context().dynamic_fields(),
                    )
                    &&& #[trigger] old(self).sent_under_flow_control(*final(self), stream_id, frames)
                },
    {
        proof {
            assert forall|i: int| 0 <= i < self.promised_streams_queue@.len()
                implies self.promised_streams_queue@[i] != stream_id by {
                let p = self.promised_streams_queue@[i];
                assert(!self.streams@[p].started());
            }
        }
        let mut stream = match self.streams.remove(&stream_id) {
            Some(stream) => stream,
            None => Stream::new(stream_id),
        };
        let ghost stream0 = stream;
        stream.respond_promised(response, &mut self.hpack_send_context);
        proof {
            assert(stream0 == old(self).spec_streams()[stream_id]);
            assert(stream0.sent().len() == 0);
            assert(stream.sent().skip(0) =~= stream.sent());
        }
        let frames = stream.fetch_send_frames();
        let ghost sent = frames@;
        self.streams.insert(stream_id, stream);
        proof {
            let q = self.promised_streams_queue@;
            assert forall|i: int| 0 <= i < q.len() implies {
                let p = #[trigger] q[i];
                &&& self.streams@.contains_key(p)
                &&& self.streams@[p].kind() == StreamStateKind::ReservedLocal
                &&& !self.streams@[p].started()
                &&& p < self.connection_shared_state.spec_next_stream_id()
            } by {
                assert(q[i] != stream_id);
            }
        }
        self.queue_stream_frames(stream_id, frames);
        proof {
            assert(old(self).sent_under_flow_control(*self, stream_id, sent));
        }
    }
}

/// A queue without its newest entry.
spec fn old_queue_of(q: Seq<StreamId>) -> Seq<StreamId> {
    q.skip(1)
}

} // verus!
