//! State that a connection shares with its streams.

use vstd::prelude::*;
use crate::http2::error::HttpError;
use crate::http2::settings::{
    SettingName,
    Settings,
    SettingsParameter,
    applied_settings,
    default_settings,
    first_refused,
    refusal,
};
use crate::http2::stream::StreamId;

verus! {

/// The peer's settings, the next identifier for a server-initiated stream,
/// and the highest stream on which processing has started.
pub struct ConnectionSharedState {
    pub incoming_settings: Settings,
    next_server_created_stream_id: StreamId,
    highest_started_processing_stream_id: StreamId,
}

impl ConnectionSharedState {
    pub closed spec fn spec_settings(&self) -> Settings {
        self.incoming_settings
    }

    pub closed spec fn spec_next_stream_id(&self) -> StreamId {
        self.next_server_created_stream_id
    }

    pub closed spec fn spec_highest_started(&self) -> StreamId {
        self.highest_started_processing_stream_id
    }

    pub fn new() -> (r: Self)
        ensures
            r.spec_settings() == default_settings(),
            r.spec_next_stream_id() == 2,
            r.spec_highest_started() == 0,
    {
        ConnectionSharedState {
            incoming_settings: Settings::spec_default(),
            next_server_created_stream_id: 2,
            highest_started_processing_stream_id: 0,
        }
    }

    /// The next identifier for a server-initiated stream (even-numbered).
    pub fn get_next_stream_id_for_locally_initiated_stream(&mut self) -> (r: u32)
        requires
            old(self).spec_next_stream_id() <= u32::MAX - 2,
        ensures
            r == old(self).spec_next_stream_id(),
            final(self).spec_next_stream_id() == r + 2,
            final(self).spec_highest_started() == old(self).spec_highest_started(),
            final(self).spec_settings() == old(self).spec_settings(),
    {
        let id = self.next_server_created_stream_id;
        self.next_server_created_stream_id = id + 2;
        id
    }

    /// Records that processing has started on a stream: the highest such
    /// stream is kept.
    pub fn notify_processing_started_on_stream(&mut self, stream_id: StreamId)
        ensures
            final(self).spec_highest_started() == if stream_id > old(self).spec_highest_started() {
                stream_id
            } else {
                old(self).spec_highest_started()
            },
            final(self).spec_next_stream_id() == old(self).spec_next_stream_id(),
            final(self).spec_settings() == old(self).spec_settings(),
    {
        if stream_id > self.highest_started_processing_stream_id {
            self.highest_started_processing_stream_id = stream_id;
        }
    }

    /// Applies the parameters of a SETTINGS frame from the peer, in order
    /// (`Settings::apply_changes`).
    pub fn apply_settings(&mut self, changes: &[SettingsParameter]) -> (r: Result<Vec<SettingName>, HttpError>)
        ensures
            final(self).spec_settings() == applied_settings(old(self).spec_settings(), changes@),
            r is Ok <==> first_refused(old(self).spec_settings(), changes@) is None,
            r matches Ok(names) ==> names@ == changes@.map_values(|p: SettingsParameter| p.name),
            r matches Err(e) ==> e == refusal(old(self).spec_settings(), changes@),
            final(self).spec_next_stream_id() == old(self).spec_next_stream_id(),
            final(self).spec_highest_started() == old(self).spec_highest_started(),
    {
        self.incoming_settings.apply_changes(changes)
    }

    /// The identifier the next server-initiated stream gets.
    pub fn get_next_stream_id(&self) -> (r: StreamId)
        ensures
            r == self.spec_next_stream_id(),
    {
        self.next_server_created_stream_id
    }

    /// The peer's settings.
    pub fn get_incoming_settings(&self) -> (r: Settings)
        ensures
            r == self.spec_settings(),
    {
        self.incoming_settings
    }

    pub fn get_highest_started_processing_stream_id(&self) -> (r: StreamId)
        ensures
            r == self.spec_highest_started(),
    {
        self.highest_started_processing_stream_id
    }
}

} // verus!
