//! The response a stream sends, and the frames that carry it.

use vstd::prelude::*;
use crate::http2::frame::{FrameType, OutgoingFrame};
use crate::http2::frame::continuation::{ContinuationFrameCompressModel, lemma_continuation_frame_written};
use crate::http2::frame::data::{DataFrameCompressModel, lemma_data_frame_written};
use crate::http2::frame::headers::{HeadersFrameCompressModel, lemma_headers_frame_written};
use crate::http2::frame::push_promise::{PushPromiseFrameCompressModel, lemma_push_promise_frame_written};
use crate::http2::header::Headers;
use crate::http2::hpack::header_trait::HpackHeaderTrait;
use crate::http2::hpack::table::field_size;
use vstd::string::StringSliceAdditionalSpecFns;
use crate::http2::hpack::context::{ContextTrait, SendContext};
use crate::http2::hpack::pack::{
    self,
    effective_max_size,
    fields_fit,
    headers_encodable,
    headers_view,
    lemma_packable,
    spec_pack,
};
use crate::http2::hpack::table::DEFAULT_MAX_SIZE_SETTING;
use crate::octets;

verus! {

/// The largest header block fragment one frame carries.
pub const HEADER_BLOCK_CHUNK_SIZE: usize = 150;

/// The number of chunks a header block is cut into.
pub open spec fn chunk_count(len: nat) -> int {
    ((len + 149) / 150) as int
}

/// The `k`-th chunk of a header block.
pub open spec fn block_chunk(block: Seq<u8>, k: int) -> Seq<u8> {
    block.subrange(150 * k, if 150 * (k + 1) < block.len() { 150 * (k + 1) } else { block.len() as int })
}

/// The flags of the frame carrying the `k`-th of `n` chunks: END_HEADERS on
/// the last; END_STREAM on the first when the block ends the stream.
pub open spec fn chunk_flags(k: int, n: int, end_stream: bool) -> u8 {
    ((if k == 0 && end_stream { 0x1u8 } else { 0u8 }) | (if k == n - 1 { 0x4u8 } else { 0u8 })) as u8
}

/// Frames carrying a non-empty header block: one per chunk, in order; the
/// first is a frame of type `first` whose payload is `prefix` then the first
/// chunk; each further one is a CONTINUATION frame with its chunk;
/// END_HEADERS is on the last, END_STREAM on the first when asked; each
/// frame's length is that of its payload.
pub open spec fn carries_block(
    frames: Seq<OutgoingFrame>,
    block: Seq<u8>,
    first: FrameType,
    prefix: Seq<u8>,
    end_stream: bool,
) -> bool {
    let n = chunk_count(block.len());
    &&& frames.len() == n
    &&& forall|k: int|
        0 <= k < n ==> {
            &&& (#[trigger] frames[k]).spec_frame_type() == if k == 0 {
                first
            } else {
                FrameType::Continuation
            }
            &&& frames[k].spec_payload() == if k == 0 {
                prefix + block_chunk(block, 0)
            } else {
                block_chunk(block, k)
            }
            &&& frames[k].spec_flags() == chunk_flags(k, n, end_stream)
            &&& frames[k].spec_length() == frames[k].spec_payload().len()
        }
}

/// What a first frame carries before its chunk: the promised stream
/// identifier of a PUSH_PROMISE frame, nothing for a HEADERS frame.
pub open spec fn promise_prefix(promised: Option<u32>) -> Seq<u8> {
    match promised {
        Some(id) => octets::u32_octets(id),
        None => Seq::<u8>::empty(),
    }
}

/// Cuts a non-empty header block into frames: the first chunk in a HEADERS
/// frame (with END_STREAM when asked), or in a PUSH_PROMISE frame for
/// the given promised stream, and each further chunk in a CONTINUATION
/// frame.
pub(crate) fn block_to_frames(block: Vec<u8>, promised: Option<u32>, end_stream: bool) -> (r: Vec<OutgoingFrame>)
    requires
        block@.len() > 0,
        promised matches Some(id) ==> id < 0x8000_0000 && !end_stream,
    ensures
        carries_block(
            r@,
            block@,
            if promised is Some { FrameType::PushPromise } else { FrameType::Headers },
            promise_prefix(promised),
            end_stream,
        ),
{
    let len = block.len();
    let ghost n = chunk_count(block@.len());
    let mut frames: Vec<OutgoingFrame> = Vec::new();
    let first_end: usize = if len < HEADER_BLOCK_CHUNK_SIZE { len } else { HEADER_BLOCK_CHUNK_SIZE };
    let first_chunk = octets::copy_range(block.as_slice(), 0, first_end);
    let only_chunk = len <= HEADER_BLOCK_CHUNK_SIZE;
    assert(first_chunk@ == block_chunk(block@, 0));
    assert(only_chunk == (n == 1));
    match promised {
        Some(id) => {
            let mut model = PushPromiseFrameCompressModel::new(only_chunk);
            model.set_promised_stream_identifier(id);
            model.set_header_block_fragment(first_chunk);
            proof {
                lemma_push_promise_frame_written(model);
                let f = model.spec_flags();
                assert(f & 0x8u8 != 0x8u8) by (bit_vector)
                    requires
                        f == if only_chunk { 0x4u8 } else { 0u8 },
                ;
                let one = n == 1;
                assert(f == ((if false { 0x1u8 } else { 0u8 }) | (if one { 0x4u8 } else { 0u8 }))) by (bit_vector)
                    requires
                        f == if only_chunk { 0x4u8 } else { 0u8 },
                        only_chunk == one,
                ;
            }
            frames.push(OutgoingFrame::new(model));
        },
        None => {
            let mut model = HeadersFrameCompressModel::new(end_stream, only_chunk);
            model.set_header_block_fragment(first_chunk);
            proof {
                lemma_headers_frame_written(model);
                let f = model.spec_flags();
                assert(f & 0x8u8 != 0x8u8 && f & 0x20u8 != 0x20u8) by (bit_vector)
                    requires
                        f == (if end_stream { 0x1u8 } else { 0u8 }) | (if only_chunk { 0x4u8 } else { 0u8 }),
                ;
                assert(Seq::<u8>::empty() + block_chunk(block@, 0) =~= block_chunk(block@, 0));
            }
            frames.push(OutgoingFrame::new(model));
        },
    }
    let mut start: usize = first_end;
    let mut k: usize = 1;
    while start < len
        invariant
            len == block@.len(),
            n == chunk_count(block@.len()),
            1 <= k <= n,
            start == if 150 * k < len { 150 * k } else { len as int },
            frames@.len() == k,
            promised matches Some(id) ==> id < 0x8000_0000 && !end_stream,
            forall|j: int|
                0 <= j < k ==> {
                    &&& (#[trigger] frames@[j]).spec_frame_type() == if j == 0 {
                        if promised is Some { FrameType::PushPromise } else { FrameType::Headers }
                    } else {
                        FrameType::Continuation
                    }
                    &&& frames@[j].spec_payload() == if j == 0 {
                        promise_prefix(promised) + block_chunk(block@, 0)
                    } else {
                        block_chunk(block@, j)
                    }
                    &&& frames@[j].spec_flags() == chunk_flags(j, n, end_stream)
                    &&& frames@[j].spec_length() == frames@[j].spec_payload().len()
                },
        decreases len - start,
    {
        let end: usize = if len - start < HEADER_BLOCK_CHUNK_SIZE { len } else { start + HEADER_BLOCK_CHUNK_SIZE };
        let chunk = octets::copy_range(block.as_slice(), start, end);
        assert(chunk@ == block_chunk(block@, k as int));
        let last = end == len;
        assert(last == (k == n - 1));
        let mut model = ContinuationFrameCompressModel::new(chunk);
        if last {
            model.set_end_headers();
        }
        proof {
            lemma_continuation_frame_written(model);
            let f = model.spec_flags();
            assert(f == ((if false { 0x1u8 } else { 0u8 }) | (if last { 0x4u8 } else { 0u8 }))) by (bit_vector)
                requires
                    f == if last { 0u8 | 0x4u8 } else { 0u8 },
            ;
        }
        frames.push(OutgoingFrame::new(model));
        start = end;
        k = k + 1;
    }
    assert(k == n);
    frames
}

/// The response a stream sends: informational header blocks, the headers,
/// a payload, and trailing headers.
#[derive(Debug)]
pub struct StreamResponse {
    pub informational_headers: Vec<Headers>,
    pub headers: Headers,
    pub payload: Option<Vec<u8>>,
    pub trailer_headers: Option<Headers>,
}


/// The header block a header list is encoded into (with Huffman coding)
/// from an encoder's static table, dynamic table, table size and pending
/// size update, and the dynamic table after it.
pub open spec fn encode_block(
    static_fields: Seq<(Seq<char>, Seq<char>)>,
    dynamic: Seq<(Seq<char>, Seq<char>)>,
    max_size: int,
    pending: Option<u32>,
    headers: Headers,
) -> (Seq<u8>, Seq<(Seq<char>, Seq<char>)>) {
    let r = spec_pack(static_fields, dynamic, max_size, pending, headers_view(headers@), true)->Some_0;
    (r.0, r.1)
}

/// A DATA frame carrying a payload, with END_STREAM when asked.
pub open spec fn carries_data(frame: OutgoingFrame, payload: Seq<u8>, end_stream: bool) -> bool {
    &&& frame.spec_frame_type() == FrameType::Data
    &&& frame.spec_payload() == payload
    &&& frame.spec_length() == payload.len()
    &&& frame.spec_flags() == if end_stream { 0x1u8 } else { 0u8 }
}

/// Whether frames carry a response whose informational header blocks still
/// to send are `infos`: each header block is encoded in turn, starting from
/// the given encoder state, and carried by a HEADERS frame and CONTINUATION
/// frames; the payload follows the headers in a DATA frame, and the trailing
/// headers come last; the last of these ends the stream. `table` is the
/// dynamic table after the last block.
#[verifier::opaque]
pub open spec fn carries_response(
    frames: Seq<OutgoingFrame>,
    static_fields: Seq<(Seq<char>, Seq<char>)>,
    dynamic: Seq<(Seq<char>, Seq<char>)>,
    max_size: int,
    pending: Option<u32>,
    infos: Seq<Headers>,
    response: StreamResponse,
    table: Seq<(Seq<char>, Seq<char>)>,
) -> bool
    decreases infos.len(),
{
    let m = effective_max_size(max_size, pending);
    if infos.len() > 0 {
        let (block, next) = encode_block(static_fields, dynamic, max_size, pending, infos[0]);
        let n = chunk_count(block.len());
        &&& n <= frames.len()
        &&& carries_block(frames.take(n), block, FrameType::Headers, Seq::<u8>::empty(), false)
        &&& carries_response(frames.skip(n), static_fields, next, m, None, infos.drop_first(), response, table)
    } else {
        let end_with_headers = response.payload is None && response.trailer_headers is None;
        let (block, next) = encode_block(static_fields, dynamic, max_size, pending, response.headers);
        let n = chunk_count(block.len());
        let rest = frames.skip(n);
        let d: int = if response.payload is Some { 1 } else { 0 };
        &&& n <= frames.len()
        &&& carries_block(frames.take(n), block, FrameType::Headers, Seq::<u8>::empty(), end_with_headers)
        &&& match response.payload {
            Some(p) => rest.len() > 0 && carries_data(rest[0], p@, response.trailer_headers is None),
            None => true,
        }
        &&& match response.trailer_headers {
            Some(t) => {
                let (tail, last) = encode_block(static_fields, next, m, None, t);
                &&& carries_block(rest.skip(d), tail, FrameType::Headers, Seq::<u8>::empty(), true)
                &&& table == last
            },
            None => rest.len() == d && table == next,
        }
    }
}

/// Whether frames end the stream exactly once: some frame ends it, and only
/// CONTINUATION frames follow that frame.
pub open spec fn ends_stream_once(frames: Seq<OutgoingFrame>) -> bool {
    &&& forall|i: int, j: int|
        0 <= i < j < frames.len() && (#[trigger] frames[i]).ends_stream() ==> (
        #[trigger] frames[j]).spec_frame_type() == FrameType::Continuation
    &&& exists|i: int| 0 <= i < frames.len() && (#[trigger] frames[i]).ends_stream()
}

/// Whether no frame ends the stream.
pub open spec fn ends_stream_never(frames: Seq<OutgoingFrame>) -> bool {
    forall|i: int| 0 <= i < frames.len() ==> !(#[trigger] frames[i]).ends_stream()
}

/// Whether a header list can be sent as a block: it is not empty, and it
/// can be encoded under the given table size.
pub open spec fn block_sendable(headers: Headers, max_size: int) -> bool {
    &&& headers@.len() > 0
    &&& headers_encodable(headers_view(headers@))
    &&& fields_fit(headers_view(headers@), max_size)
}

/// Whether a response can be sent from an encoder context: a pending size
/// update is within the setting's limit, every header block is non-empty
/// and can be encoded under the table size the blocks are encoded under,
/// and a payload fits in one frame.
pub open spec fn response_sendable(ctx: SendContext, response: StreamResponse) -> bool {
    let m = effective_max_size(ctx.dynamic_max_size() as int, ctx.pending_size_update());
    &&& ctx.pending_size_update() matches Some(u) ==> u <= DEFAULT_MAX_SIZE_SETTING
    &&& forall|i: int|
        0 <= i < response.informational_headers@.len() ==> block_sendable(
            #[trigger] response.informational_headers@[i],
            m,
        )
    &&& block_sendable(response.headers, m)
    &&& response.trailer_headers matches Some(t) ==> block_sendable(t, m)
    &&& response.payload matches Some(p) ==> p@.len() < 0x1000000
}

/// Checks `block_sendable`.
pub fn block_sendable_exec(headers: &Headers, max_size: usize) -> (r: bool)
    ensures
        r == block_sendable(*headers, max_size as int),
{
    let hs = headers.as_slice();
    if hs.len() == 0 {
        return false;
    }
    let ghost view = headers_view(headers@);
    let mut k: usize = 0;
    while k < hs.len()
        invariant
            k <= hs.len(),
            hs@ == headers@,
            view == headers_view(headers@),
            forall|i: int|
                0 <= i < k ==> {
                    &&& crate::http2::hpack::pack::text_bytes((#[trigger] view[i]).0).len() <= 0x3fff_ffff
                    &&& crate::http2::hpack::pack::text_bytes(view[i].1).len() <= 0x3fff_ffff
                    &&& field_size((view[i].0, view[i].1)) <= max_size
                },
        decreases hs.len() - k,
    {
        let name = hs[k].get_name();
        let value = hs[k].get_value();
        let name_len = name.as_str().as_bytes().len();
        let value_len = value.as_str().as_bytes().len();
        assert(view[k as int].0 == name@ && view[k as int].1 == value@);
        if name_len > 0x3fff_ffff || value_len > 0x3fff_ffff {
            return false;
        }
        if name_len as u64 + value_len as u64 + 32 > max_size as u64 {
            return false;
        }
        k = k + 1;
    }
    true
}

/// Checks `response_sendable`.
pub fn response_sendable_exec(ctx: &SendContext, response: &StreamResponse) -> (r: bool)
    ensures
        r == response_sendable(*ctx, *response),
{
    if !ctx.size_update_in_limit() {
        return false;
    }
    let m = ctx.next_block_max_size();
    let n = response.informational_headers.len();
    let mut k: usize = 0;
    while k < n
        invariant
            k <= n,
            n == response.informational_headers@.len(),
            m == effective_max_size(ctx.dynamic_max_size() as int, ctx.pending_size_update()),
            forall|i: int| 0 <= i < k ==> block_sendable(#[trigger] response.informational_headers@[i], m as int),
        decreases n - k,
    {
        if !block_sendable_exec(&response.informational_headers[k], m) {
            return false;
        }
        k = k + 1;
    }
    if !block_sendable_exec(&response.headers, m) {
        return false;
    }
    match &response.trailer_headers {
        Some(t) => {
            if !block_sendable_exec(t, m) {
                return false;
            }
        },
        None => {},
    }
    match &response.payload {
        Some(p) => p.len() < 0x1000000,
        None => true,
    }
}

/// Encodes a header list and cuts the block into a HEADERS frame and
/// CONTINUATION frames; END_STREAM is set on the HEADERS frame when asked.
fn headers_to_frames(headers: &Headers, ctx: &mut SendContext, end_stream: bool) -> (r: Vec<OutgoingFrame>)
    requires
        old(ctx).wf(),
        old(ctx).pending_size_update() matches Some(u) ==> u <= DEFAULT_MAX_SIZE_SETTING,
        block_sendable(
            *headers,
            effective_max_size(old(ctx).dynamic_max_size() as int, old(ctx).pending_size_update()),
        ),
    ensures
        final(ctx).wf(),
        final(ctx).static_fields() == old(ctx).static_fields(),
        final(ctx).dynamic_max_size_setting() == old(ctx).dynamic_max_size_setting(),
        final(ctx).pending_size_update() is None,
        final(ctx).dynamic_max_size() == effective_max_size(
            old(ctx).dynamic_max_size() as int,
            old(ctx).pending_size_update(),
        ),
        carries_block(
            r@,
            spec_pack(
                old(ctx).static_fields(),
                old(ctx).dynamic_fields(),
                old(ctx).dynamic_max_size() as int,
                old(ctx).pending_size_update(),
                headers_view(headers@),
                true,
            )->Some_0.0,
            FrameType::Headers,
            Seq::<u8>::empty(),
            end_stream,
        ),
        final(ctx).dynamic_fields() == encode_block(
            old(ctx).static_fields(),
            old(ctx).dynamic_fields(),
            old(ctx).dynamic_max_size() as int,
            old(ctx).pending_size_update(),
            *headers,
        ).1,
        r@.len() > 0,
        r@[0].ends_stream() == end_stream,
        forall|k: int| 1 <= k < r@.len() ==> (#[trigger] r@[k]).spec_frame_type() == FrameType::Continuation,
{
    proof {
        lemma_packable(
            ctx.static_fields(),
            ctx.dynamic_fields(),
            ctx.dynamic_max_size() as int,
            ctx.pending_size_update(),
            headers_view(headers@),
            true,
        );
    }
    let packed = pack::pack(headers.as_slice(), ctx, true);
    let r = block_to_frames(packed, None, end_stream);
    proof {
        let n = chunk_count(packed@.len());
        assert(r@[0].spec_frame_type() == FrameType::Headers);
        let f = r@[0].spec_flags();
        let one = n == 1;
        assert(f == chunk_flags(0, n, end_stream));
        assert((f & 0x1 == 0x1) == end_stream) by (bit_vector)
            requires
                f == ((if end_stream { 0x1u8 } else { 0u8 }) | (if one { 0x4u8 } else { 0u8 })) as u8,
        ;
    }
    r
}

/// Appends frames to a list.
fn append_frames(frames: &mut Vec<OutgoingFrame>, more: Vec<OutgoingFrame>)
    ensures
        final(frames)@ == old(frames)@ + more@,
{
    let mut more = more;
    let ghost start = frames@;
    let ghost all = more@;
    let mut k: usize = 0;
    let total_len = more.len();
    let ghost total = total_len as nat;
    while more.len() > 0
        invariant
            total == all.len(),
            total <= usize::MAX,
            k + more@.len() == total,
            more@ == all.skip(k as int),
            frames@ == start + all.take(k as int),
        decreases more.len(),
    {
        let f = more.remove(0);
        proof {
            assert(f == all[k as int]);
            assert(more@ =~= all.skip(k + 1));
            assert(start + all.take(k + 1) =~= (start + all.take(k as int)).push(f));
        }
        frames.push(f);
        k = k + 1;
    }
    assert(all.take(k as int) =~= all);
}

/// The frames of a response's headers, payload and trailing headers, each
/// carried as `carries_response` asks, carry the response once no
/// informational block is left.
proof fn lemma_response_end(
    head: Seq<OutgoingFrame>,
    data: Seq<OutgoingFrame>,
    tail: Seq<OutgoingFrame>,
    static_fields: Seq<(Seq<char>, Seq<char>)>,
    dynamic: Seq<(Seq<char>, Seq<char>)>,
    max_size: int,
    pending: Option<u32>,
    response: StreamResponse,
    table: Seq<(Seq<char>, Seq<char>)>,
)
    requires
        ({
            let end_with_headers = response.payload is None && response.trailer_headers is None;
            let (block, next) = encode_block(static_fields, dynamic, max_size, pending, response.headers);
            &&& carries_block(head, block, FrameType::Headers, Seq::<u8>::empty(), end_with_headers)
            &&& match response.payload {
                Some(p) => data.len() == 1 && carries_data(data[0], p@, response.trailer_headers is None),
                None => data.len() == 0,
            }
            &&& match response.trailer_headers {
                Some(t) => {
                    let (tb, last) = encode_block(
                        static_fields,
                        next,
                        effective_max_size(max_size, pending),
                        None,
                        t,
                    );
                    carries_block(tail, tb, FrameType::Headers, Seq::<u8>::empty(), true) && table == last
                },
                None => tail.len() == 0 && table == next,
            }
        }),
    ensures
        carries_response(
            head + data + tail,
            static_fields,
            dynamic,
            max_size,
            pending,
            Seq::<Headers>::empty(),
            response,
            table,
        ),
{
    reveal(carries_response);
    let all = head + data + tail;
    let n = head.len() as int;
    assert(all.take(n) =~= head);
    assert(all.skip(n) =~= data + tail);
    let d: int = data.len() as int;
    assert((data + tail).skip(d) =~= tail);
    if d == 1 {
        assert((data + tail)[0] == data[0]);
    }
}

/// The frames of informational header blocks, each encoded in turn and cut
/// into a HEADERS frame and CONTINUATION frames, none ending the stream.
fn informational_frames(infos: &Vec<Headers>, ctx: &mut SendContext) -> (r: Vec<OutgoingFrame>)
    requires
        old(ctx).wf(),
        old(ctx).pending_size_update() matches Some(u) ==> u <= DEFAULT_MAX_SIZE_SETTING,
        forall|i: int|
            0 <= i < infos@.len() ==> block_sendable(
                #[trigger] infos@[i],
                effective_max_size(old(ctx).dynamic_max_size() as int, old(ctx).pending_size_update()),
            ),
    ensures
        final(ctx).wf(),
        final(ctx).static_fields() == old(ctx).static_fields(),
        final(ctx).dynamic_max_size_setting() == old(ctx).dynamic_max_size_setting(),
        infos@.len() > 0 ==> final(ctx).pending_size_update() is None,
        infos@.len() == 0 ==> final(ctx).pending_size_update() == old(ctx).pending_size_update(),
        infos@.len() == 0 ==> final(ctx).dynamic_max_size() == old(ctx).dynamic_max_size(),
        infos@.len() == 0 ==> final(ctx).dynamic_fields() == old(ctx).dynamic_fields(),
        effective_max_size(final(ctx).dynamic_max_size() as int, final(ctx).pending_size_update())
            == effective_max_size(old(ctx).dynamic_max_size() as int, old(ctx).pending_size_update()),
        ends_stream_never(r@),
        infos@.len() == 0 ==> r@.len() == 0,
        infos@.len() > 0 ==> r@.len() > 0 && r@[0].spec_frame_type() == FrameType::Headers,
        forall|j: int|
            0 <= j < r@.len() ==> (#[trigger] r@[j]).spec_frame_type() == FrameType::Headers
                || r@[j].spec_frame_type() == FrameType::Continuation,
        forall|rest: Seq<OutgoingFrame>, response: StreamResponse, table: Seq<(Seq<char>, Seq<char>)>|
            #[trigger] carries_response(
                rest,
                final(ctx).static_fields(),
                final(ctx).dynamic_fields(),
                final(ctx).dynamic_max_size() as int,
                final(ctx).pending_size_update(),
                Seq::<Headers>::empty(),
                response,
                table,
            ) ==> carries_response(
                r@ + rest,
                old(ctx).static_fields(),
                old(ctx).dynamic_fields(),
                old(ctx).dynamic_max_size() as int,
                old(ctx).pending_size_update(),
                infos@,
                response,
                table,
            ),
{
    let ghost m = effective_max_size(ctx.dynamic_max_size() as int, ctx.pending_size_update());
    let ghost st = ctx.static_fields();
    let mut frames: Vec<OutgoingFrame> = Vec::new();
    let n_info = infos.len();
    let mut i: usize = 0;
    proof {
        assert forall|rest: Seq<OutgoingFrame>, response: StreamResponse, table: Seq<(Seq<char>, Seq<char>)>|
            #[trigger] carries_response(
                rest,
                st,
                ctx.dynamic_fields(),
                ctx.dynamic_max_size() as int,
                ctx.pending_size_update(),
                infos@.skip(0),
                response,
                table,
            ) implies carries_response(
                frames@ + rest,
                st,
                old(ctx).dynamic_fields(),
                old(ctx).dynamic_max_size() as int,
                old(ctx).pending_size_update(),
                infos@,
                response,
                table,
            ) by {
            assert(infos@.skip(0) =~= infos@);
            assert(frames@ + rest =~= rest);
        }
    }
    while i < n_info
        invariant
            n_info == infos@.len(),
            0 <= i <= n_info,
            ctx.wf(),
            ctx.static_fields() == st,
            st == old(ctx).static_fields(),
            ctx.dynamic_max_size_setting() == old(ctx).dynamic_max_size_setting(),
            i > 0 ==> ctx.pending_size_update() is None,
            i == 0 ==> *ctx == *old(ctx),
            ctx.pending_size_update() matches Some(u) ==> u <= DEFAULT_MAX_SIZE_SETTING,
            effective_max_size(ctx.dynamic_max_size() as int, ctx.pending_size_update()) == m,
            m == effective_max_size(old(ctx).dynamic_max_size() as int, old(ctx).pending_size_update()),
            forall|k: int| 0 <= k < infos@.len() ==> block_sendable(#[trigger] infos@[k], m),
            ends_stream_never(frames@),
            i == 0 ==> frames@.len() == 0,
            i > 0 ==> frames@.len() > 0 && frames@[0].spec_frame_type() == FrameType::Headers,
            forall|j: int|
                0 <= j < frames@.len() ==> (#[trigger] frames@[j]).spec_frame_type() == FrameType::Headers
                    || frames@[j].spec_frame_type() == FrameType::Continuation,
            forall|rest: Seq<OutgoingFrame>, response: StreamResponse, table: Seq<(Seq<char>, Seq<char>)>|
                #[trigger] carries_response(
                    rest,
                    st,
                    ctx.dynamic_fields(),
                    ctx.dynamic_max_size() as int,
                    ctx.pending_size_update(),
                    infos@.skip(i as int),
                    response,
                    table,
                ) ==> carries_response(
                    frames@ + rest,
                    st,
                    old(ctx).dynamic_fields(),
                    old(ctx).dynamic_max_size() as int,
                    old(ctx).pending_size_update(),
                    infos@,
                    response,
                    table,
                ),
        decreases n_info - i,
    {
        let ghost c_dyn = ctx.dynamic_fields();
        let ghost c_max = ctx.dynamic_max_size() as int;
        let ghost c_pend = ctx.pending_size_update();
        let ghost prev = frames@;
        let block = headers_to_frames(&infos[i], ctx, false);
        let ghost block_seq = block@;
        append_frames(&mut frames, block);
        proof {
            assert forall|rest: Seq<OutgoingFrame>, response: StreamResponse, table: Seq<(Seq<char>, Seq<char>)>|
                #[trigger] carries_response(
                    rest,
                    st,
                    ctx.dynamic_fields(),
                    ctx.dynamic_max_size() as int,
                    ctx.pending_size_update(),
                    infos@.skip(i + 1),
                    response,
                    table,
                ) implies carries_response(
                    frames@ + rest,
                    st,
                    old(ctx).dynamic_fields(),
                    old(ctx).dynamic_max_size() as int,
                    old(ctx).pending_size_update(),
                    infos@,
                    response,
                    table,
                ) by {
                reveal(carries_response);
                let big = block_seq + rest;
                let tail = infos@.skip(i as int);
                let n = chunk_count(encode_block(st, c_dyn, c_max, c_pend, infos@[i as int]).0.len());
                assert(tail[0] == infos@[i as int]);
                assert(tail.drop_first() =~= infos@.skip(i + 1));
                assert(n == block_seq.len());
                assert(big.take(n) =~= block_seq);
                assert(big.skip(n) =~= rest);
                assert(carries_response(big, st, c_dyn, c_max, c_pend, tail, response, table));
                assert(prev + big =~= frames@ + rest);
            }
            if i == 0 {
                assert(frames@[0] == block_seq[0]);
            } else {
                assert(frames@[0] == prev[0]);
            }
            assert forall|j: int| 0 <= j < frames@.len() implies !(#[trigger] frames@[j]).ends_stream() by {
                if j >= prev.len() {
                    assert(frames@[j] == block_seq[j - prev.len()]);
                }
            }
            assert forall|j: int| 0 <= j < frames@.len() implies (#[trigger] frames@[j]).spec_frame_type()
                == FrameType::Headers || frames@[j].spec_frame_type() == FrameType::Continuation by {
                if j >= prev.len() {
                    assert(frames@[j] == block_seq[j - prev.len()]);
                }
            }
        }
        i = i + 1;
    }
    proof {
        assert(infos@.skip(n_info as int) =~= Seq::<Headers>::empty());
    }
    frames
}

/// The frames of the informational blocks followed by those of the rest of
/// a response carry the whole response.
proof fn lemma_response_frames(
    before: Seq<OutgoingFrame>,
    head: Seq<OutgoingFrame>,
    data: Seq<OutgoingFrame>,
    tail: Seq<OutgoingFrame>,
    static_fields: Seq<(Seq<char>, Seq<char>)>,
    dynamic0: Seq<(Seq<char>, Seq<char>)>,
    max_size0: int,
    pending0: Option<u32>,
    dynamic: Seq<(Seq<char>, Seq<char>)>,
    max_size: int,
    pending: Option<u32>,
    infos: Seq<Headers>,
    response: StreamResponse,
    table: Seq<(Seq<char>, Seq<char>)>,
)
    requires
        forall|rest: Seq<OutgoingFrame>, r: StreamResponse, t: Seq<(Seq<char>, Seq<char>)>|
            #[trigger] carries_response(rest, static_fields, dynamic, max_size, pending, Seq::<Headers>::empty(), r, t)
                ==> carries_response(before + rest, static_fields, dynamic0, max_size0, pending0, infos, r, t),
        ({
            let end_with_headers = response.payload is None && response.trailer_headers is None;
            let (block, next) = encode_block(static_fields, dynamic, max_size, pending, response.headers);
            &&& carries_block(head, block, FrameType::Headers, Seq::<u8>::empty(), end_with_headers)
            &&& match response.payload {
                Some(p) => data.len() == 1 && carries_data(data[0], p@, response.trailer_headers is None),
                None => data.len() == 0,
            }
            &&& match response.trailer_headers {
                Some(t) => {
                    let (tb, last) = encode_block(
                        static_fields,
                        next,
                        effective_max_size(max_size, pending),
                        None,
                        t,
                    );
                    carries_block(tail, tb, FrameType::Headers, Seq::<u8>::empty(), true) && table == last
                },
                None => tail.len() == 0 && table == next,
            }
        }),
    ensures
        carries_response(
            before + (head + data + tail),
            static_fields,
            dynamic0,
            max_size0,
            pending0,
            infos,
            response,
            table,
        ),
{
    lemma_response_end(head, data, tail, static_fields, dynamic, max_size, pending, response, table);
}

impl StreamResponse {
    /// The frames that send the response: each informational header block,
    /// the headers, a DATA frame with the payload, and the trailing headers;
    /// each header block in a HEADERS frame and CONTINUATION frames. The
    /// last of these (headers, payload or trailing headers) ends the stream.
    /// The blocks are encoded in turn, so the encoder's dynamic table ends as
    /// the last block leaves it.
    #[verifier::spinoff_prover]
    #[verifier::rlimit(40)]
    pub fn to_frames(self, ctx: &mut SendContext) -> (r: Vec<OutgoingFrame>)
        requires
            old(ctx).wf(),
            response_sendable(*old(ctx), self),
        ensures
            final(ctx).wf(),
            final(ctx).static_fields() == old(ctx).static_fields(),
            final(ctx).dynamic_max_size_setting() == old(ctx).dynamic_max_size_setting(),
            final(ctx).pending_size_update() is None,
            final(ctx).dynamic_max_size() == effective_max_size(
                old(ctx).dynamic_max_size() as int,
                old(ctx).pending_size_update(),
            ),
            r@.len() > 0,
            r@[0].spec_frame_type() == FrameType::Headers,
            ends_stream_once(r@),
            forall|i: int|
                0 <= i < r@.len() ==> {
                    let t = (#[trigger] r@[i]).spec_frame_type();
                    t == FrameType::Headers || t == FrameType::Continuation || t == FrameType::Data
                },
            carries_response(
                r@,
                old(ctx).static_fields(),
                old(ctx).dynamic_fields(),
                old(ctx).dynamic_max_size() as int,
                old(ctx).pending_size_update(),
                self.informational_headers@,
                self,
                final(ctx).dynamic_fields(),
            ),
    {
        let ghost pay = self.payload;
        let ghost st = ctx.static_fields();
        let ghost infos = self.informational_headers@;
        let mut frames = informational_frames(&self.informational_headers, ctx);
        let ghost before = frames@;
        let ghost c_dyn = ctx.dynamic_fields();
        let ghost c_max = ctx.dynamic_max_size() as int;
        let ghost c_pend = ctx.pending_size_update();
        let end_with_headers = self.payload.is_none() && self.trailer_headers.is_none();
        let head = headers_to_frames(&self.headers, ctx, end_with_headers);
        let ghost head_seq = head@;
        append_frames(&mut frames, head);
        let ghost after_head = frames@;
        proof {
            assert(after_head =~= before + head_seq);
            assert(frames@[before.len() as int] == head_seq[0]);
            assert forall|j: int| 0 <= j < frames@.len() implies {
                let t = (#[trigger] frames@[j]).spec_frame_type();
                &&& t == FrameType::Headers || t == FrameType::Continuation
                &&& (j != before.len() ==> !frames@[j].ends_stream())
                &&& (j > before.len() ==> t == FrameType::Continuation)
            } by {
                if j >= before.len() {
                    assert(frames@[j] == head_seq[j - before.len()]);
                }
            }
        }
        let ghost data_index = frames@.len();
        match self.payload {
            Some(payload) => {
                let mut data_frame = DataFrameCompressModel::new(self.trailer_headers.is_none());
                data_frame.set_payload(payload);
                proof {
                    lemma_data_frame_written(data_frame);
                    let f = data_frame.spec_flags();
                    let t = self.trailer_headers is None;
                    assert(f & 0x8 != 0x8 && ((f & 0x1 == 0x1) == t)) by (bit_vector)
                        requires
                            f == if t { 0x1u8 } else { 0u8 },
                    ;
                }
                let df = OutgoingFrame::new(data_frame);
                proof {
                    assert(carries_data(df, pay->Some_0@, self.trailer_headers is None));
                }
                frames.push(df);
            },
            None => {},
        }
        let ghost after_data = frames@;
        let ghost data_seq = after_data.skip(after_head.len() as int);
        match self.trailer_headers {
            Some(trailers) => {
                let tail = headers_to_frames(&trailers, ctx, true);
                append_frames(&mut frames, tail);
                proof {
                    assert(frames@[after_data.len() as int] == tail@[0]);
                    assert forall|j: int| after_data.len() < j < frames@.len() implies (#[trigger] frames@[j]).spec_frame_type()
                        == FrameType::Continuation by {
                        assert(frames@[j] == tail@[j - after_data.len()]);
                    }
                    assert forall|j: int| after_data.len() <= j < frames@.len() implies (#[trigger] frames@[j]).spec_frame_type()
                        == FrameType::Headers || frames@[j].spec_frame_type() == FrameType::Continuation by {
                        assert(frames@[j] == tail@[j - after_data.len()]);
                    }
                }
            },
            None => {},
        }
        proof {
            let fs = frames@;
            assert forall|j: int| 0 <= j < after_data.len() implies fs[j] == after_data[j] by {}
            assert forall|j: int| 0 <= j < after_head.len() implies after_data[j] == after_head[j] by {}
            if pay is Some {
                assert(after_data[data_index as int].spec_frame_type() == FrameType::Data);
                assert(fs[data_index as int] == after_data[data_index as int]);
            }
            let end_index: int = if self.trailer_headers is Some {
                after_data.len() as int
            } else if pay is Some {
                data_index as int
            } else {
                before.len() as int
            };
            assert(fs[end_index].ends_stream());
            assert(fs[0] == after_head[0]);
            if infos.len() > 0 {
                assert(after_head[0] == before[0]);
            } else {
                assert(before.len() == 0);
                assert(after_head[0] == head_seq[0]);
            }
            assert forall|i: int, j: int|
                0 <= i < j < fs.len() && (#[trigger] fs[i]).ends_stream() implies (
                #[trigger] fs[j]).spec_frame_type() == FrameType::Continuation by {
                if i < after_head.len() {
                    assert(fs[i] == after_head[i]);
                }
                if j < after_head.len() {
                    assert(fs[j] == after_head[j]);
                }
            }
            let tail_seq = fs.skip(after_data.len() as int);
            if pay is Some {
                assert(data_seq.len() == 1);
                assert(data_seq[0] == after_data[data_index as int]);
            } else {
                assert(data_seq.len() == 0);
            }
            assert(after_data =~= after_head + data_seq);
            assert(fs =~= after_data + tail_seq);
            assert(fs =~= before + (head_seq + data_seq + tail_seq));
            lemma_response_frames(
                before,
                head_seq,
                data_seq,
                tail_seq,
                st,
                old(ctx).dynamic_fields(),
                old(ctx).dynamic_max_size() as int,
                old(ctx).pending_size_update(),
                c_dyn,
                c_max,
                c_pend,
                infos,
                self,
                ctx.dynamic_fields(),
            );
        }
        frames
    }
}

} // verus!
