//! Connection-wide data: the peer's settings and the identifiers of streams
//! the server opens.

use vstd::prelude::*;
use crate::http2::settings::{Settings, default_settings};
use crate::http2::stream::StreamId;

verus! {

/// The peer's settings and the next identifier for a server-initiated
/// stream.
pub struct ConnectionData {
    pub incoming_settings: Settings,
    next_server_created_stream_id: StreamId,
}

impl ConnectionData {
    pub closed spec fn spec_settings(&self) -> Settings {
        self.incoming_settings
    }

    pub closed spec fn spec_next_stream_id(&self) -> StreamId {
        self.next_server_created_stream_id
    }

    pub fn new() -> (r: Self)
        ensures
            r.spec_settings() == default_settings(),
            r.spec_next_stream_id() == 2,
    {
        ConnectionData { incoming_settings: Settings::spec_default(), next_server_created_stream_id: 2 }
    }

    /// The next identifier for a server-initiated stream; server streams are
    /// even-numbered, so each call gives the one after the last by 2.
    pub fn get_next_stream_id_for_locally_initiated_stream(&mut self) -> (r: u32)
        requires
            old(self).spec_next_stream_id() <= u32::MAX - 2,
        ensures
            r == old(self).spec_next_stream_id(),
            final(self).spec_next_stream_id() == r + 2,
            final(self).spec_settings() == old(self).spec_settings(),
    {
        let id = self.next_server_created_stream_id;
        self.next_server_created_stream_id = id + 2;
        id
    }
}

} // verus!
