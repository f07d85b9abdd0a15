//! Frames held back by flow control, per stream, until the send window
//! allows them (RFC 7540, section 6.9).

use vstd::prelude::*;
use std::collections::{HashMap, VecDeque};
use crate::http2::frame::{FrameType, OutgoingFrame};
use crate::http2::stream::StreamId;

verus! {

broadcast use vstd::std_specs::hash::group_hash_axioms;

/// The frames held back for each blocked stream, and the blocked streams,
/// newest first.
pub struct StreamBlocker {
    blocked_streams: HashMap<StreamId, VecDeque<OutgoingFrame>>,
    priority: VecDeque<StreamId>,
}

/// The size a blocked frame needs from the send window: the length of a
/// DATA frame; nothing for other frames.
pub open spec fn send_size(frame: OutgoingFrame) -> u32 {
    if frame.spec_frame_type() == FrameType::Data {
        frame.spec_length()
    } else {
        0
    }
}

impl StreamBlocker {
    /// The frames held back for each blocked stream, newest first.
    pub closed spec fn blocked(&self) -> Map<StreamId, Seq<OutgoingFrame>> {
        Map::new(
            |id: StreamId| self.blocked_streams@.contains_key(id),
            |id: StreamId| self.blocked_streams@[id]@,
        )
    }

    /// The blocked streams, most recently blocked first.
    pub closed spec fn priorities(&self) -> Seq<StreamId> {
        self.priority@
    }

    /// Every blocked stream is listed once among the priorities.
    pub closed spec fn wf(&self) -> bool {
        &&& forall|id: StreamId| self.blocked_streams@.contains_key(id) <==> self.priority@.contains(id)
        &&& self.priority@.no_duplicates()
    }

    pub fn new() -> (r: Self)
        ensures
            r.wf(),
            r.blocked() == Map::<StreamId, Seq<OutgoingFrame>>::empty(),
            r.priorities() == Seq::<StreamId>::empty(),
    {
        let r = StreamBlocker { blocked_streams: HashMap::new(), priority: VecDeque::new() };
        assert(r.blocked() =~= Map::<StreamId, Seq<OutgoingFrame>>::empty());
        r
    }

    /// Holds a frame back: it joins the stream's queue; a stream that was
    /// not blocked becomes the most recently blocked.
    pub fn block_frame(&mut self, stream_id: StreamId, frame: OutgoingFrame)
        requires
            old(self).wf(),
        ensures
            final(self).wf(),
            final(self).blocked() == old(self).blocked().insert(
                stream_id,
                seq![frame] + if old(self).blocked().contains_key(stream_id) {
                    old(self).blocked()[stream_id]
                } else {
                    Seq::<OutgoingFrame>::empty()
                },
            ),
            final(self).priorities() == if old(self).blocked().contains_key(stream_id) {
                old(self).priorities()
            } else {
                seq![stream_id] + old(self).priorities()
            },
    {
        let ghost old_blocked = self.blocked();
        match self.blocked_streams.remove(&stream_id) {
            Some(queue) => {
                let mut queue = queue;
                queue.push_front(frame);
                self.blocked_streams.insert(stream_id, queue);
                proof {
                    assert(self.blocked() =~= old_blocked.insert(stream_id, seq![frame] + old_blocked[stream_id]));
                }
            },
            None => {
                let mut queue: VecDeque<OutgoingFrame> = VecDeque::new();
                queue.push_front(frame);
                self.blocked_streams.insert(stream_id, queue);
                self.priority.push_front(stream_id);
                proof {
                    assert(self.blocked() =~= old_blocked.insert(
                        stream_id,
                        seq![frame] + Seq::<OutgoingFrame>::empty(),
                    ));
                    assert(!old(self).priority@.contains(stream_id));
                    assert forall|id: StreamId| self.blocked_streams@.contains_key(id) <==> self.priority@.contains(id) by {
                        if id != stream_id {
                            assert(self.priority@.contains(id) <==> old(self).priority@.contains(id)) by {
                                if old(self).priority@.contains(id) {
                                    let i = choose|i: int| 0 <= i < old(self).priority@.len() && old(self).priority@[i] == id;
                                    assert(self.priority@[i + 1] == id);
                                }
                                if self.priority@.contains(id) {
                                    let i = choose|i: int| 0 <= i < self.priority@.len() && self.priority@[i] == id;
                                    assert(old(self).priority@[i - 1] == id);
                                }
                            }
                        } else {
                            assert(self.priority@[0] == id);
                        }
                    }
                    assert(self.priority@.no_duplicates()) by {
                        assert forall|i: int, j: int| 0 <= i < j < self.priority@.len() implies self.priority@[i] != self.priority@[j] by {
                            if i == 0 {
                                assert(old(self).priority@[j - 1] == self.priority@[j]);
                            } else {
                                assert(old(self).priority@[i - 1] == self.priority@[i]);
                                assert(old(self).priority@[j - 1] == self.priority@[j]);
                            }
                        }
                    }
                }
            },
        }
    }

    /// Whether a stream has frames held back.
    pub fn is_blocking(&self, stream_id: StreamId) -> (r: bool)
        ensures
            r == self.blocked().contains_key(stream_id),
    {
        self.blocked_streams.contains_key(&stream_id)
    }

    /// The blocked streams, most recently blocked first.
    pub fn get_unblock_priorities(&self) -> (r: VecDeque<StreamId>)
        ensures
            r@ == self.priorities(),
    {
        self.priority.clone()
    }

    /// What the oldest frame held back for a stream needs from the send
    /// window; `None` when none is held back.
    pub fn get_next_send_size(&self, stream_id: StreamId) -> (r: Option<u32>)
        ensures
            r == if self.blocked().contains_key(stream_id) && self.blocked()[stream_id].len() > 0 {
                Some(send_size(self.blocked()[stream_id].last()))
            } else {
                None::<u32>
            },
    {
        match self.blocked_streams.get(&stream_id) {
            Some(queue) => {
                let n = queue.len();
                if n == 0 {
                    None
                } else {
                    let frame = &queue[n - 1];
                    if frame.get_frame_type() == FrameType::Data {
                        Some(frame.get_length())
                    } else {
                        Some(0)
                    }
                }
            },
            None => None,
        }
    }

    /// Releases the oldest frame held back for a stream.
    pub fn get_next_frame(&mut self, stream_id: StreamId) -> (r: Option<OutgoingFrame>)
        requires
            old(self).wf(),
        ensures
            final(self).wf(),
            final(self).priorities() == old(self).priorities(),
            if old(self).blocked().contains_key(stream_id) && old(self).blocked()[stream_id].len() > 0 {
                &&& r == Some(old(self).blocked()[stream_id].last())
                &&& final(self).blocked() == old(self).blocked().insert(
                    stream_id,
                    old(self).blocked()[stream_id].drop_last(),
                )
            } else {
                &&& r is None
                &&& final(self).blocked() == old(self).blocked()
            },
    {
        let ghost old_blocked = self.blocked();
        match self.blocked_streams.remove(&stream_id) {
            Some(queue) => {
                let mut queue = queue;
                let r = queue.pop_back();
                self.blocked_streams.insert(stream_id, queue);
                proof {
                    if r is Some {
                        assert(self.blocked() =~= old_blocked.insert(stream_id, old_blocked[stream_id].drop_last()));
                    } else {
                        assert(self.blocked() =~= old_blocked);
                    }
                }
                r
            },
            None => {
                assert(self.blocked() =~= old_blocked);
                None
            },
        }
    }
}

} // verus!
