//! PUSH_PROMISE frames (RFC 7540, section 6.6).

use vstd::prelude::*;
use super::{
    CompressibleHttpFrame,
    FrameHeader,
    FrameType,
    flags_of,
    frame_octets,
    frame_type_of,
    length_of,
    payload_of,
    spec_frame_header,
    writable,
};
use super::headers::has_flag;
use crate::octets;

verus! {

pub const FLAG_END_HEADERS: u8 = 0x4;
pub const FLAG_PADDED: u8 = 0x8;

/// A PUSH_PROMISE frame to be written.
pub struct PushPromiseFrameCompressModel {
    flags: u8,
    pad_length: u8,
    promised_stream_identifier: u32,
    header_block_fragment: Vec<u8>,
}

impl PushPromiseFrameCompressModel {
    pub closed spec fn spec_flags(&self) -> u8 {
        self.flags
    }

    pub closed spec fn spec_pad_length(&self) -> u8 {
        self.pad_length
    }

    pub closed spec fn spec_promised_stream_identifier(&self) -> u32 {
        self.promised_stream_identifier
    }

    pub closed spec fn spec_fragment(&self) -> Seq<u8> {
        self.header_block_fragment@
    }

    pub fn new(end_headers: bool) -> (r: Self)
        ensures
            r.spec_flags() == if end_headers { FLAG_END_HEADERS } else { 0 },
            r.spec_pad_length() == 0,
            r.spec_promised_stream_identifier() == 0,
            r.spec_fragment() == Seq::<u8>::empty(),
    {
        PushPromiseFrameCompressModel {
            flags: if end_headers { FLAG_END_HEADERS } else { 0 },
            pad_length: 0,
            promised_stream_identifier: 0,
            header_block_fragment: Vec::new(),
        }
    }

    pub fn set_pad_length(&mut self, pad_length: u8)
        ensures
            final(self).spec_flags() == old(self).spec_flags() | FLAG_PADDED,
            final(self).spec_pad_length() == pad_length,
            final(self).spec_promised_stream_identifier() == old(
                self,
            ).spec_promised_stream_identifier(),
            final(self).spec_fragment() == old(self).spec_fragment(),
    {
        self.pad_length = pad_length;
        self.flags = self.flags | FLAG_PADDED;
    }

    pub fn set_promised_stream_identifier(&mut self, promised_stream_identifier: u32)
        ensures
            final(self).spec_flags() == old(self).spec_flags(),
            final(self).spec_pad_length() == old(self).spec_pad_length(),
            final(self).spec_promised_stream_identifier() == promised_stream_identifier,
            final(self).spec_fragment() == old(self).spec_fragment(),
    {
        self.promised_stream_identifier = promised_stream_identifier;
    }

    pub fn set_header_block_fragment(&mut self, header_block_fragment: Vec<u8>)
        ensures
            final(self).spec_flags() == old(self).spec_flags(),
            final(self).spec_pad_length() == old(self).spec_pad_length(),
            final(self).spec_promised_stream_identifier() == old(
                self,
            ).spec_promised_stream_identifier(),
            final(self).spec_fragment() == header_block_fragment@,
    {
        self.header_block_fragment = header_block_fragment;
    }

    /// The payload length: the promised stream identifier, the fragment, and
    /// the pad length octet and padding when padded.
    pub open spec fn full_length(&self) -> int {
        4 + self.spec_fragment().len() + if has_flag(self.spec_flags(), FLAG_PADDED) {
            1 + self.spec_pad_length()
        } else {
            0int
        }
    }
}

impl CompressibleHttpFrame for PushPromiseFrameCompressModel {
    closed spec fn spec_length(&self) -> i32 {
        self.full_length() as i32
    }

    closed spec fn spec_frame_type(&self) -> FrameType {
        FrameType::PushPromise
    }

    closed spec fn spec_flags(&self) -> u8 {
        self.flags
    }

    closed spec fn spec_payload(&self) -> Seq<u8> {
        (if has_flag(self.flags, FLAG_PADDED) {
            seq![self.pad_length]
        } else {
            Seq::<u8>::empty()
        }) + octets::u32_octets(self.promised_stream_identifier) + self.header_block_fragment@
            + Seq::new(self.pad_length as nat, |i: int| 0u8)
    }

    /// The promised stream identifier is 31 bits: its reserved bit is clear.
    closed spec fn payload_ok(&self) -> bool {
        self.promised_stream_identifier < 0x8000_0000
    }

    fn get_length(&self) -> (r: i32) {
        let len: u64 = self.header_block_fragment.len() as u64;
        let low: u64 = len % 0x1_0000_0000;
        let mut extra: u64 = 4;
        if self.flags & FLAG_PADDED == FLAG_PADDED {
            extra = extra + 1 + self.pad_length as u64;
        }
        assert(((low + extra) as i32) == ((len + extra) as i32)) by (bit_vector)
            requires
                low == len % 0x1_0000_0000,
                extra < 300,
        ;
        (low + extra) as i32
    }

    fn get_frame_type(&self) -> (r: FrameType) {
        FrameType::PushPromise
    }

    fn get_flags(&self) -> (r: u8) {
        self.flags
    }

    fn get_payload(self) -> (r: Vec<u8>) {
        let mut result: Vec<u8> = Vec::new();
        if self.flags & FLAG_PADDED == FLAG_PADDED {
            result.push(self.pad_length);
        }
        let o = octets::u32_to_octets(self.promised_stream_identifier);
        octets::extend_from(&mut result, &o);
        octets::extend_from(&mut result, self.header_block_fragment.as_slice());
        octets::push_zeros(&mut result, self.pad_length);
        result
    }
}

/// A received PUSH_PROMISE frame.
pub struct PushPromiseFrame {
    promised_stream_identifier: u32,
    header_block_fragment: Vec<u8>,
    end_headers: bool,
}

/// Where the promised stream identifier starts.
pub open spec fn promised_offset(flags: u8) -> int {
    if has_flag(flags, FLAG_PADDED) { 1 } else { 0 }
}

/// The number of padding octets.
pub open spec fn promise_pad(flags: u8, payload: Seq<u8>) -> int {
    if has_flag(flags, FLAG_PADDED) { payload[0] as int } else { 0 }
}

/// What a PUSH_PROMISE frame needs to be read: the payload is there, the
/// fields and padding fit in it, and the reserved bit of the promised
/// stream identifier is clear.
pub open spec fn push_promise_readable(frame_header: FrameHeader, payload: Seq<u8>) -> bool {
    let o = promised_offset(frame_header.flags);
    &&& frame_header.length <= payload.len()
    &&& o + 4 <= frame_header.length
    &&& o + 4 + promise_pad(frame_header.flags, payload) <= frame_header.length
    &&& payload[o] < 0x80
}

/// The promised stream identifier in a PUSH_PROMISE payload.
pub open spec fn spec_promised_id(flags: u8, payload: Seq<u8>) -> u32 {
    let o = promised_offset(flags);
    octets::be32(payload[o], payload[o + 1], payload[o + 2], payload[o + 3])
}

/// The header block fragment in a PUSH_PROMISE payload.
pub open spec fn spec_promise_fragment(frame_header: FrameHeader, payload: Seq<u8>) -> Seq<u8> {
    payload.subrange(
        promised_offset(frame_header.flags) + 4,
        frame_header.length - promise_pad(frame_header.flags, payload),
    )
}

impl PushPromiseFrame {
    pub closed spec fn spec_promised_stream_identifier(&self) -> u32 {
        self.promised_stream_identifier
    }

    pub closed spec fn spec_fragment(&self) -> Seq<u8> {
        self.header_block_fragment@
    }

    pub closed spec fn spec_end_headers(&self) -> bool {
        self.end_headers
    }

    /// Reads a PUSH_PROMISE frame.
    pub fn new(frame_header: &FrameHeader, payload: &[u8]) -> (r: Self)
        requires
            push_promise_readable(*frame_header, payload@),
        ensures
            r.spec_promised_stream_identifier() == spec_promised_id(frame_header.flags, payload@),
            r.spec_fragment() == spec_promise_fragment(*frame_header, payload@),
            r.spec_end_headers() == has_flag(frame_header.flags, FLAG_END_HEADERS),
    {
        let flags = frame_header.flags;
        let mut o: usize = 0;
        let pad_length: u8 = if flags & FLAG_PADDED == FLAG_PADDED {
            o = 1;
            payload[0]
        } else {
            0
        };
        let promised_stream_identifier = octets::octets_to_u32(
            payload[o],
            payload[o + 1],
            payload[o + 2],
            payload[o + 3],
        );
        let end = frame_header.length as usize - pad_length as usize;
        let header_block_fragment = octets::copy_range(payload, o + 4, end);
        PushPromiseFrame {
            promised_stream_identifier,
            header_block_fragment,
            end_headers: flags & FLAG_END_HEADERS == FLAG_END_HEADERS,
        }
    }

    pub fn get_prromised_stream_identifier(&self) -> (r: u32)
        ensures
            r == self.spec_promised_stream_identifier(),
    {
        self.promised_stream_identifier
    }

    pub fn get_header_block_fragment(&self) -> (r: &[u8])
        ensures
            r@ == self.spec_fragment(),
    {
        self.header_block_fragment.as_slice()
    }

    pub fn is_end_headers(&self) -> (r: bool)
        ensures
            r == self.spec_end_headers(),
    {
        self.end_headers
    }
}

/// A written PUSH_PROMISE frame reads back as its promised stream identifier
/// and fragment.
pub proof fn lemma_push_promise_frame_round_trip(
    model: PushPromiseFrameCompressModel,
    stream_id: u32,
)
    requires
        model.full_length() < 0x1000000,
        has_flag(model.spec_flags(), FLAG_PADDED) || model.spec_pad_length() == 0,
        model.spec_promised_stream_identifier() < 0x8000_0000,
    ensures
        ({
            let frame = frame_octets(model, stream_id);
            let header = spec_frame_header(frame);
            let p = frame.skip(9);
            &&& header.frame_type == Some(FrameType::PushPromise)
            &&& header.flags == model.spec_flags()
            &&& header.stream_id == stream_id % 0x8000_0000
            &&& push_promise_readable(header, p)
            &&& spec_promised_id(header.flags, p) == model.spec_promised_stream_identifier()
            &&& spec_promise_fragment(header, p) == model.spec_fragment()
        }),
{
    let flags = model.spec_flags();
    let p = model.spec_payload();
    super::lemma_frame_round_trip(model.full_length() as u32, FrameType::PushPromise, flags, stream_id, p);
    let frame = frame_octets(model, stream_id);
    let header = spec_frame_header(frame);
    assert(frame.skip(9) == p);
    assert(header.length == model.full_length());
    let id = model.spec_promised_stream_identifier();
    octets::lemma_be32_u32_octets(id);
    let o = promised_offset(flags);
    if has_flag(flags, FLAG_PADDED) {
        assert(p[0] == model.spec_pad_length());
    }
    assert(p.subrange(o, o + 4) =~= octets::u32_octets(id));
    assert(p[o] == octets::u32_octets(id)[0]);
    assert(p.subrange(o + 4, header.length - promise_pad(flags, p)) =~= model.spec_fragment());
}


/// How a PUSH_PROMISE frame is written: its type, its flags, and its
/// length; one whose payload fits in 24 bits and whose promised stream
/// identifier fits in 31 bits can be written.
pub proof fn lemma_push_promise_frame_written(m: PushPromiseFrameCompressModel)
    ensures
        frame_type_of(m) == FrameType::PushPromise,
        flags_of(m) == m.spec_flags(),
        m.full_length() < 0x1000000 ==> length_of(m) == m.full_length(),
        (m.full_length() < 0x1000000 && m.spec_promised_stream_identifier() < 0x8000_0000)
            ==> writable(m),
        (!has_flag(m.spec_flags(), FLAG_PADDED) && m.spec_pad_length() == 0) ==> payload_of(m)
            == octets::u32_octets(m.spec_promised_stream_identifier()) + m.spec_fragment(),
{
    if !has_flag(m.spec_flags(), FLAG_PADDED) && m.spec_pad_length() == 0 {
        assert(payload_of(m) =~= octets::u32_octets(m.spec_promised_stream_identifier())
            + m.spec_fragment());
    }
}

} // verus!
