//! HEADERS frames (RFC 7540, section 6.2).

use vstd::prelude::*;
use super::{
    CompressibleHttpFrame,
    FrameHeader,
    FrameType,
    flags_of,
    frame_octets,
    frame_type_of,
    length_of,
    payload_of,
    spec_frame_header,
    writable,
};
use super::priority::{
    dependency_octets,
    dependency_ok,
    push_dependency,
    spec_dependency,
    spec_exclusive,
    lemma_dependency_round_trip,
};
use crate::octets;

verus! {

pub const FLAG_END_STREAM: u8 = 0x1;
pub const FLAG_END_HEADERS: u8 = 0x4;
pub const FLAG_PADDED: u8 = 0x8;
pub const FLAG_PRIORITY: u8 = 0x20;

/// A HEADERS frame to be written.
pub struct HeadersFrameCompressModel {
    flags: u8,
    pad_length: u8,
    stream_dependency: u32,
    stream_dependency_exclusive: bool,
    weight: u8,
    header_block_fragment: Vec<u8>,
}

/// Whether a flag is set.
pub open spec fn has_flag(flags: u8, flag: u8) -> bool {
    flags & flag == flag
}

impl HeadersFrameCompressModel {
    pub closed spec fn spec_flags(&self) -> u8 {
        self.flags
    }

    pub closed spec fn spec_pad_length(&self) -> u8 {
        self.pad_length
    }

    pub closed spec fn spec_stream_dependency(&self) -> u32 {
        self.stream_dependency
    }

    pub closed spec fn spec_exclusive(&self) -> bool {
        self.stream_dependency_exclusive
    }

    pub closed spec fn spec_weight(&self) -> u8 {
        self.weight
    }

    pub closed spec fn spec_fragment(&self) -> Seq<u8> {
        self.header_block_fragment@
    }

    pub fn new(end_stream: bool, end_headers: bool) -> (r: Self)
        ensures
            r.spec_flags() == (if end_stream { FLAG_END_STREAM } else { 0 }) | (if end_headers {
                FLAG_END_HEADERS
            } else {
                0
            }),
            r.spec_pad_length() == 0,
            r.spec_stream_dependency() == 0,
            !r.spec_exclusive(),
            r.spec_weight() == 0,
            r.spec_fragment() == Seq::<u8>::empty(),
    {
        let mut flags: u8 = if end_stream { FLAG_END_STREAM } else { 0 };
        flags = flags | if end_headers { FLAG_END_HEADERS } else { 0 };
        HeadersFrameCompressModel {
            flags,
            pad_length: 0,
            stream_dependency: 0,
            stream_dependency_exclusive: false,
            weight: 0,
            header_block_fragment: Vec::new(),
        }
    }

    pub fn set_pad_length(&mut self, pad_length: u8)
        ensures
            final(self).spec_flags() == old(self).spec_flags() | FLAG_PADDED,
            final(self).spec_pad_length() == pad_length,
            final(self).spec_stream_dependency() == old(self).spec_stream_dependency(),
            final(self).spec_exclusive() == old(self).spec_exclusive(),
            final(self).spec_weight() == old(self).spec_weight(),
            final(self).spec_fragment() == old(self).spec_fragment(),
    {
        self.pad_length = pad_length;
        self.flags = self.flags | FLAG_PADDED;
    }

    pub fn set_dependency(&mut self, stream_dependency: u32, weight: u8, exclusive: bool)
        ensures
            final(self).spec_flags() == old(self).spec_flags() | FLAG_PRIORITY,
            final(self).spec_pad_length() == old(self).spec_pad_length(),
            final(self).spec_stream_dependency() == stream_dependency,
            final(self).spec_exclusive() == exclusive,
            final(self).spec_weight() == weight,
            final(self).spec_fragment() == old(self).spec_fragment(),
    {
        self.stream_dependency = stream_dependency;
        self.weight = weight;
        self.stream_dependency_exclusive = exclusive;
        self.flags = self.flags | FLAG_PRIORITY;
    }

    pub fn set_header_block_fragment(&mut self, header_block_fragment: Vec<u8>)
        ensures
            final(self).spec_flags() == old(self).spec_flags(),
            final(self).spec_pad_length() == old(self).spec_pad_length(),
            final(self).spec_stream_dependency() == old(self).spec_stream_dependency(),
            final(self).spec_exclusive() == old(self).spec_exclusive(),
            final(self).spec_weight() == old(self).spec_weight(),
            final(self).spec_fragment() == header_block_fragment@,
    {
        self.header_block_fragment = header_block_fragment;
    }

    /// The payload length: the fragment, the pad length octet and padding
    /// when padded, and five dependency octets when a priority is set.
    pub open spec fn full_length(&self) -> int {
        self.spec_fragment().len() + (if has_flag(self.spec_flags(), FLAG_PADDED) {
            1 + self.spec_pad_length()
        } else {
            0int
        }) + (if has_flag(self.spec_flags(), FLAG_PRIORITY) {
            5int
        } else {
            0int
        })
    }
}

impl CompressibleHttpFrame for HeadersFrameCompressModel {
    closed spec fn spec_length(&self) -> i32 {
        self.full_length() as i32
    }

    closed spec fn spec_frame_type(&self) -> FrameType {
        FrameType::Headers
    }

    closed spec fn spec_flags(&self) -> u8 {
        self.flags
    }

    closed spec fn spec_payload(&self) -> Seq<u8> {
        (if has_flag(self.flags, FLAG_PADDED) {
            seq![self.pad_length]
        } else {
            Seq::<u8>::empty()
        }) + (if has_flag(self.flags, FLAG_PRIORITY) {
            dependency_octets(self.stream_dependency, self.stream_dependency_exclusive, self.weight)
        } else {
            Seq::<u8>::empty()
        }) + self.header_block_fragment@ + Seq::new(self.pad_length as nat, |i: int| 0u8)
    }

    closed spec fn payload_ok(&self) -> bool {
        has_flag(self.flags, FLAG_PRIORITY) ==> dependency_ok(self.stream_dependency, self.weight)
    }

    fn get_length(&self) -> (r: i32) {
        let len: u64 = self.header_block_fragment.len() as u64;
        let low: u64 = len % 0x1_0000_0000;
        let mut extra: u64 = 0;
        if self.flags & FLAG_PADDED == FLAG_PADDED {
            extra = 1 + self.pad_length as u64;
        }
        if self.flags & FLAG_PRIORITY == FLAG_PRIORITY {
            extra = extra + 5;
        }
        assert(((low + extra) as i32) == ((len + extra) as i32)) by (bit_vector)
            requires
                low == len % 0x1_0000_0000,
                extra < 300,
        ;
        (low + extra) as i32
    }

    fn get_frame_type(&self) -> (r: FrameType) {
        FrameType::Headers
    }

    fn get_flags(&self) -> (r: u8) {
        self.flags
    }

    fn get_payload(self) -> (r: Vec<u8>) {
        let mut result: Vec<u8> = Vec::new();
        if self.flags & FLAG_PADDED == FLAG_PADDED {
            result.push(self.pad_length);
        }
        let ghost a = result@;
        if self.flags & FLAG_PRIORITY == FLAG_PRIORITY {
            push_dependency(
                &mut result,
                self.stream_dependency,
                self.stream_dependency_exclusive,
                self.weight,
            );
        } else {
            assert(result@ =~= a + Seq::<u8>::empty());
        }
        octets::extend_from(&mut result, self.header_block_fragment.as_slice());
        octets::push_zeros(&mut result, self.pad_length);
        result
    }
}

/// The priority a HEADERS frame carries.
#[derive(Debug, Clone, Copy, PartialEq, Eq, Structural)]
pub struct Priority {
    pub exclusive: bool,
    pub stream_dependency: u32,
    pub weight: u8,
}

/// A received HEADERS frame.
pub struct HeaderFrame {
    priority: Option<Priority>,
    header_block_fragment: Vec<u8>,
    end_stream: bool,
    end_headers: bool,
}

/// Where the priority fields start: after the pad length octet, if any.
pub open spec fn priority_offset(flags: u8) -> int {
    if has_flag(flags, FLAG_PADDED) { 1 } else { 0 }
}

/// Where the header block fragment starts.
pub open spec fn fragment_offset(flags: u8) -> int {
    priority_offset(flags) + if has_flag(flags, FLAG_PRIORITY) { 5int } else { 0int }
}

/// The number of padding octets.
pub open spec fn pad_of(flags: u8, payload: Seq<u8>) -> int {
    if has_flag(flags, FLAG_PADDED) { payload[0] as int } else { 0 }
}

/// The priority fields of a HEADERS frame payload, if the PRIORITY flag is set.
pub open spec fn spec_priority(flags: u8, payload: Seq<u8>) -> Option<Priority> {
    if has_flag(flags, FLAG_PRIORITY) {
        let p = payload.skip(priority_offset(flags));
        Some(Priority { exclusive: spec_exclusive(p[0]), stream_dependency: spec_dependency(p), weight: p[4] })
    } else {
        None
    }
}

/// What a HEADERS frame needs to be read: its payload is there, and the
/// pad length octet, priority fields and padding fit in it.
pub open spec fn headers_readable(frame_header: FrameHeader, payload: Seq<u8>) -> bool {
    &&& frame_header.length <= payload.len()
    &&& fragment_offset(frame_header.flags) <= frame_header.length
    &&& fragment_offset(frame_header.flags) + pad_of(frame_header.flags, payload)
        <= frame_header.length
}

/// The header block fragment of a HEADERS frame payload.
pub open spec fn spec_headers_fragment(frame_header: FrameHeader, payload: Seq<u8>) -> Seq<u8> {
    payload.subrange(
        fragment_offset(frame_header.flags),
        frame_header.length - pad_of(frame_header.flags, payload),
    )
}

impl HeaderFrame {
    pub closed spec fn spec_priority(&self) -> Option<Priority> {
        self.priority
    }

    pub closed spec fn spec_fragment(&self) -> Seq<u8> {
        self.header_block_fragment@
    }

    pub closed spec fn spec_end_stream(&self) -> bool {
        self.end_stream
    }

    pub closed spec fn spec_end_headers(&self) -> bool {
        self.end_headers
    }

    /// Reads a HEADERS frame: the optional pad length, the optional
    /// priority, the header block fragment and the padding.
    pub fn new(frame_header: &FrameHeader, payload: &[u8]) -> (r: Self)
        requires
            headers_readable(*frame_header, payload@),
        ensures
            r.spec_priority() == spec_priority(frame_header.flags, payload@),
            r.spec_fragment() == spec_headers_fragment(*frame_header, payload@),
            r.spec_end_stream() == has_flag(frame_header.flags, FLAG_END_STREAM),
            r.spec_end_headers() == has_flag(frame_header.flags, FLAG_END_HEADERS),
    {
        let flags = frame_header.flags;
        let mut read_length: usize = 0;
        let pad_length: u8 = if flags & FLAG_PADDED == FLAG_PADDED {
            read_length = 1;
            payload[0]
        } else {
            0
        };
        let priority = if flags & FLAG_PRIORITY == FLAG_PRIORITY {
            let o = read_length;
            read_length = read_length + 5;
            let first = payload[o];
            let p = Priority {
                exclusive: first & 0x80 == 0x80,
                stream_dependency: octets::octets_to_u32(
                    first % 0x80,
                    payload[o + 1],
                    payload[o + 2],
                    payload[o + 3],
                ),
                weight: payload[o + 4],
            };
            assert(p == spec_priority(flags, payload@)->Some_0);
            Some(p)
        } else {
            None
        };
        let end = frame_header.length as usize - pad_length as usize;
        let header_block_fragment = octets::copy_range(payload, read_length, end);
        HeaderFrame {
            priority,
            header_block_fragment,
            end_stream: flags & FLAG_END_STREAM == FLAG_END_STREAM,
            end_headers: flags & FLAG_END_HEADERS == FLAG_END_HEADERS,
        }
    }

    pub fn get_priority(&self) -> (r: &Option<Priority>)
        ensures
            *r == self.spec_priority(),
    {
        &self.priority
    }

    pub fn get_header_block_fragment(&self) -> (r: &[u8])
        ensures
            r@ == self.spec_fragment(),
    {
        self.header_block_fragment.as_slice()
    }

    pub fn is_end_stream(&self) -> (r: bool)
        ensures
            r == self.spec_end_stream(),
    {
        self.end_stream
    }

    pub fn is_end_headers(&self) -> (r: bool)
        ensures
            r == self.spec_end_headers(),
    {
        self.end_headers
    }
}

/// A written HEADERS frame reads back as its fragment, and its priority when
/// one was set.
pub proof fn lemma_headers_frame_round_trip(model: HeadersFrameCompressModel, stream_id: u32)
    requires
        model.full_length() < 0x1000000,
        has_flag(model.spec_flags(), FLAG_PADDED) || model.spec_pad_length() == 0,
        has_flag(model.spec_flags(), FLAG_PRIORITY) ==> dependency_ok(
            model.spec_stream_dependency(),
            model.spec_weight(),
        ),
    ensures
        ({
            let frame = frame_octets(model, stream_id);
            let header = spec_frame_header(frame);
            let p = frame.skip(9);
            &&& header.frame_type == Some(FrameType::Headers)
            &&& header.flags == model.spec_flags()
            &&& header.stream_id == stream_id % 0x8000_0000
            &&& headers_readable(header, p)
            &&& spec_headers_fragment(header, p) == model.spec_fragment()
            &&& spec_priority(header.flags, p) == if has_flag(model.spec_flags(), FLAG_PRIORITY) {
                Some(
                    Priority {
                        exclusive: model.spec_exclusive(),
                        stream_dependency: model.spec_stream_dependency(),
                        weight: model.spec_weight(),
                    },
                )
            } else {
                None
            }
        }),
{
    let flags = model.spec_flags();
    let p = model.spec_payload();
    super::lemma_frame_round_trip(model.full_length() as u32, FrameType::Headers, flags, stream_id, p);
    let frame = frame_octets(model, stream_id);
    let header = spec_frame_header(frame);
    assert(frame.skip(9) == p);
    assert(header.length == model.full_length());
    let padded = has_flag(flags, FLAG_PADDED);
    let prio = has_flag(flags, FLAG_PRIORITY);
    let pre = if padded { seq![model.spec_pad_length()] } else { Seq::<u8>::empty() };
    let dep = if prio {
        dependency_octets(model.spec_stream_dependency(), model.spec_exclusive(), model.spec_weight())
    } else {
        Seq::<u8>::empty()
    };
    assert(p == pre + dep + model.spec_fragment() + Seq::new(
        model.spec_pad_length() as nat,
        |i: int| 0u8,
    ));
    if padded {
        assert(p[0] == model.spec_pad_length());
    }
    if prio {
        lemma_dependency_round_trip(
            model.spec_stream_dependency(),
            model.spec_exclusive(),
            model.spec_weight(),
        );
        assert(p.skip(priority_offset(flags)).take(5) =~= dep);
    }
    assert(p.subrange(fragment_offset(flags), header.length - pad_of(flags, p))
        =~= model.spec_fragment());
}


/// How a HEADERS frame is written: its type, its flags, its length and its
/// payload (the pad length octet when padded, the dependency octets when a
/// priority is set, the fragment, then the padding's zero octets); one
/// without priority whose payload fits in 24 bits can be written.
pub proof fn lemma_headers_frame_written(m: HeadersFrameCompressModel)
    ensures
        frame_type_of(m) == FrameType::Headers,
        flags_of(m) == m.spec_flags(),
        m.full_length() < 0x1000000 ==> length_of(m) == m.full_length(),
        (m.full_length() < 0x1000000 && !has_flag(m.spec_flags(), FLAG_PRIORITY)) ==> writable(m),
        payload_of(m) == (if has_flag(m.spec_flags(), FLAG_PADDED) {
            seq![m.spec_pad_length()]
        } else {
            Seq::<u8>::empty()
        }) + (if has_flag(m.spec_flags(), FLAG_PRIORITY) {
            dependency_octets(m.spec_stream_dependency(), m.spec_exclusive(), m.spec_weight())
        } else {
            Seq::<u8>::empty()
        }) + m.spec_fragment() + Seq::new(m.spec_pad_length() as nat, |i: int| 0u8),
        (!has_flag(m.spec_flags(), FLAG_PADDED) && !has_flag(m.spec_flags(), FLAG_PRIORITY)
            && m.spec_pad_length() == 0) ==> payload_of(m) == m.spec_fragment(),
{
    if !has_flag(m.spec_flags(), FLAG_PADDED) && !has_flag(m.spec_flags(), FLAG_PRIORITY)
        && m.spec_pad_length() == 0 {
        assert(payload_of(m) =~= m.spec_fragment());
    }
}

} // verus!
