//! The stream states of RFC 7540, section 5.1.

use vstd::prelude::*;
use super::stream_request::StreamRequest;

verus! {

/// The state of a stream, with what each state carries.
#[derive(Debug)]
pub enum StreamStateName {
    Idle(StreamState<StateIdle>),
    ReservedLocal(StreamState<StateReservedLocal>),
    ReservedRemote(StreamState<StateReservedRemote>),
    Open(StreamState<StateOpen>),
    HalfClosedLocal(StreamState<StateHalfClosedLocal>),
    HalfClosedRemote(StreamState<StateHalfClosedRemote>),
    Closed(StreamState<StateClosed>),
}

/// A state, holding what the state carries.
#[derive(Debug)]
pub struct StreamState<S> {
    pub state: S,
}

impl StreamState<StateIdle> {
    /// The idle state, which carries nothing.
    pub fn new() -> (r: StreamState<StateIdle>)
        ensures
            r == (StreamState { state: StateIdle }),
    {
        StreamState { state: StateIdle }
    }
}

/// Why a stream closed.
#[derive(Debug, Clone, Copy, PartialEq, Eq, Structural)]
pub enum StreamClosedReason {
    StreamEnded,
    ResetLocal,
    ResetRemote,
}

/// How a stream closed.
#[derive(Debug, Clone, Copy, PartialEq, Eq, Structural)]
pub struct StreamClosedInfo {
    pub reason: StreamClosedReason,
}

#[derive(Debug)]
pub struct StateIdle;

/// A stream reserved by a push promise of the server, with the request it
/// promises.
#[derive(Debug)]
pub struct StateReservedLocal {
    pub stream_request: StreamRequest,
}

#[derive(Debug)]
pub struct StateReservedRemote;

#[derive(Debug)]
pub struct StateOpen;

#[derive(Debug)]
pub struct StateHalfClosedLocal;

#[derive(Debug)]
pub struct StateHalfClosedRemote;

#[derive(Debug)]
pub struct StateClosed {
    pub info: StreamClosedInfo,
}

/// The states without what they carry.
#[derive(Debug, Clone, Copy, PartialEq, Eq, Structural)]
pub enum StreamStateKind {
    Idle,
    ReservedLocal,
    ReservedRemote,
    Open,
    HalfClosedLocal,
    HalfClosedRemote,
    Closed(StreamClosedReason),
}

/// The kind of a state.
pub open spec fn kind_of(s: StreamStateName) -> StreamStateKind {
    match s {
        StreamStateName::Idle(_) => StreamStateKind::Idle,
        StreamStateName::ReservedLocal(_) => StreamStateKind::ReservedLocal,
        StreamStateName::ReservedRemote(_) => StreamStateKind::ReservedRemote,
        StreamStateName::Open(_) => StreamStateKind::Open,
        StreamStateName::HalfClosedLocal(_) => StreamStateKind::HalfClosedLocal,
        StreamStateName::HalfClosedRemote(_) => StreamStateKind::HalfClosedRemote,
        StreamStateName::Closed(c) => StreamStateKind::Closed(c.state.info.reason),
    }
}

/// The state of a given kind that carries nothing (any kind but reserved
/// local).
pub fn state_of_kind(kind: StreamStateKind) -> (r: StreamStateName)
    requires
        kind != StreamStateKind::ReservedLocal,
    ensures
        kind_of(r) == kind,
{
    match kind {
        StreamStateKind::Idle => StreamStateName::Idle(StreamState { state: StateIdle }),
        StreamStateKind::ReservedRemote => StreamStateName::ReservedRemote(
            StreamState { state: StateReservedRemote },
        ),
        StreamStateKind::Open => StreamStateName::Open(StreamState { state: StateOpen }),
        StreamStateKind::HalfClosedLocal => StreamStateName::HalfClosedLocal(
            StreamState { state: StateHalfClosedLocal },
        ),
        StreamStateKind::HalfClosedRemote => StreamStateName::HalfClosedRemote(
            StreamState { state: StateHalfClosedRemote },
        ),
        StreamStateKind::Closed(reason) => StreamStateName::Closed(
            StreamState { state: StateClosed { info: StreamClosedInfo { reason } } },
        ),
        StreamStateKind::ReservedLocal => StreamStateName::Idle(StreamState { state: StateIdle }),
    }
}

} // verus!
