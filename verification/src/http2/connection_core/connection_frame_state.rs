//! The connection-level rule on header blocks (RFC 7540, section 6.2): a
//! HEADERS frame without END_HEADERS must be followed by CONTINUATION frames
//! on the same stream, up to one with END_HEADERS.

use vstd::prelude::*;
use crate::http2::frame::FrameType;
use crate::http2::frame::headers::{has_flag, FLAG_END_HEADERS};
use crate::http2::stream::StreamId;

verus! {

/// Tracks whether the connection is in the middle of a header block.
pub struct ConnectionFrameStateValidator {
    name: ConnectionFrameStateName,
}

/// The two states: any frame may come, or a CONTINUATION is due.
pub enum ConnectionFrameStateName {
    AllowAny(ConnectionFrameState<StateAllowAny>),
    ReceiveContinuation(ConnectionFrameState<StateReceiveContinuation>),
}

/// A state of the validator.
pub struct ConnectionFrameState<S> {
    state: S,
}

/// Any frame may come.
pub struct StateAllowAny;

/// A CONTINUATION frame on the given stream is due.
pub struct StateReceiveContinuation {
    stream_id: StreamId,
}

impl ConnectionFrameState<StateAllowAny> {
    /// The state in which any frame may come.
    pub closed spec fn allow_any() -> Self {
        ConnectionFrameState { state: StateAllowAny }
    }

    /// The state in which any frame may come; it carries nothing.
    pub fn new() -> (r: Self)
        ensures
            r == Self::allow_any(),
    {
        ConnectionFrameState { state: StateAllowAny }
    }
}

impl ConnectionFrameState<StateReceiveContinuation> {
    pub closed spec fn spec_stream_id(&self) -> StreamId {
        self.state.stream_id
    }

    pub fn get_stream_id(&self) -> (r: StreamId)
        ensures
            r == self.spec_stream_id(),
    {
        self.state.stream_id
    }
}

/// The validator after a frame and whether the frame is acceptable, given
/// the stream whose header block is being received, if any.
pub open spec fn frame_state_step(
    expecting: Option<StreamId>,
    frame_type: Option<FrameType>,
    flags: u8,
    stream_id: StreamId,
) -> (Option<StreamId>, bool) {
    match frame_type {
        Some(t) => match expecting {
            None => if t == FrameType::Headers && !has_flag(flags, FLAG_END_HEADERS) {
                (Some(stream_id), true)
            } else {
                (None, true)
            },
            Some(s) => if stream_id == s && t == FrameType::Continuation {
                if has_flag(flags, FLAG_END_HEADERS) {
                    (None, true)
                } else {
                    (Some(s), true)
                }
            } else {
                (Some(s), false)
            },
        },
        None => match expecting {
            None => (None, true),
            Some(s) => (Some(s), false),
        },
    }
}

impl ConnectionFrameStateValidator {
    /// The stream whose header block is being received, if any.
    pub closed spec fn expecting(&self) -> Option<StreamId> {
        match self.name {
            ConnectionFrameStateName::AllowAny(_) => None,
            ConnectionFrameStateName::ReceiveContinuation(s) => Some(s.state.stream_id),
        }
    }

    pub fn new() -> (r: Self)
        ensures
            r.expecting() is None,
    {
        ConnectionFrameStateValidator {
            name: ConnectionFrameStateName::AllowAny(ConnectionFrameState::new()),
        }
    }

    /// Checks a frame against the header block rule and moves to the next
    /// state: a HEADERS frame without END_HEADERS makes a CONTINUATION on its
    /// stream due; while one is due, any other frame (an unknown one too) is
    /// refused; a CONTINUATION with END_HEADERS ends the block.
    pub fn is_okay(&mut self, frame_type: Option<FrameType>, flags: u8, stream_id: StreamId) -> (r: bool)
        ensures
            (final(self).expecting(), r) == frame_state_step(
                old(self).expecting(),
                frame_type,
                flags,
                stream_id,
            ),
    {
        let (new_name, okay): (Option<ConnectionFrameStateName>, bool) = match frame_type {
            Some(frame_type) => match &self.name {
                ConnectionFrameStateName::AllowAny(_) => {
                    if frame_type == FrameType::Headers && !has_flag_exec(flags, FLAG_END_HEADERS) {
                        (
                            Some(
                                ConnectionFrameStateName::ReceiveContinuation(
                                    ConnectionFrameState { state: StateReceiveContinuation { stream_id } },
                                ),
                            ),
                            true,
                        )
                    } else {
                        (None, true)
                    }
                },
                ConnectionFrameStateName::ReceiveContinuation(s) => {
                    if stream_id == s.get_stream_id() && frame_type == FrameType::Continuation {
                        if has_flag_exec(flags, FLAG_END_HEADERS) {
                            (Some(ConnectionFrameStateName::AllowAny(ConnectionFrameState::new())), true)
                        } else {
                            (None, true)
                        }
                    } else {
                        (None, false)
                    }
                },
            },
            None => match &self.name {
                ConnectionFrameStateName::AllowAny(_) => (None, true),
                ConnectionFrameStateName::ReceiveContinuation(_) => (None, false),
            },
        };
        if let Some(new_name) = new_name {
            self.name = new_name;
        }
        okay
    }
}

impl ConnectionFrameStateValidator {
    /// Whether a frame would be acceptable, without moving to the next
    /// state.
    pub fn accepts(&self, frame_type: Option<FrameType>, flags: u8, stream_id: StreamId) -> (r: bool)
        ensures
            r == frame_state_step(self.expecting(), frame_type, flags, stream_id).1,
    {
        match frame_type {
            Some(frame_type) => match &self.name {
                ConnectionFrameStateName::AllowAny(_) => true,
                ConnectionFrameStateName::ReceiveContinuation(s) => stream_id == s.get_stream_id()
                    && frame_type == FrameType::Continuation,
            },
            None => match &self.name {
                ConnectionFrameStateName::AllowAny(_) => true,
                ConnectionFrameStateName::ReceiveContinuation(_) => false,
            },
        }
    }
}

/// Whether a flag is set.
fn has_flag_exec(flags: u8, flag: u8) -> (r: bool)
    ensures
        r == has_flag(flags, flag),
{
    flags & flag == flag
}

/// While a header block is being received, the only acceptable frames are
/// CONTINUATION frames on its stream; an acceptable frame that does not end
/// the block keeps the connection waiting on the same stream.
pub proof fn lemma_header_block_not_interrupted(
    expecting: StreamId,
    frame_type: Option<FrameType>,
    flags: u8,
    stream_id: StreamId,
)
    ensures
        frame_state_step(Some(expecting), frame_type, flags, stream_id).1 ==> (stream_id == expecting
            && frame_type == Some(FrameType::Continuation)),
        !has_flag(flags, FLAG_END_HEADERS) ==> frame_state_step(Some(expecting), frame_type, flags, stream_id).0
            == Some(expecting),
{
}

} // verus!
