//! DATA frames (RFC 7540, section 6.1).

use vstd::prelude::*;
use vstd::utf8::{encode_utf8, valid_utf8};
use super::{
    CompressibleHttpFrame,
    FrameHeader,
    FrameType,
    flags_of,
    frame_octets,
    frame_type_of,
    length_of,
    payload_of,
    spec_frame_header,
    writable,
};
use crate::octets;

verus! {

pub const FLAG_END_STREAM: u8 = 0x1;
pub const FLAG_PADDED: u8 = 0x8;

/// A DATA frame to be written.
pub struct DataFrameCompressModel {
    flags: u8,
    pad_length: u8,
    payload: Vec<u8>,
}

impl DataFrameCompressModel {
    pub closed spec fn spec_flags(&self) -> u8 {
        self.flags
    }

    pub closed spec fn spec_pad_length(&self) -> u8 {
        self.pad_length
    }

    pub closed spec fn spec_data(&self) -> Seq<u8> {
        self.payload@
    }

    /// Whether the frame carries padding.
    pub open spec fn is_padded(&self) -> bool {
        self.spec_flags() & FLAG_PADDED == FLAG_PADDED
    }

    pub fn new(end_stream: bool) -> (r: Self)
        ensures
            r.spec_flags() == if end_stream { FLAG_END_STREAM } else { 0 },
            r.spec_pad_length() == 0,
            r.spec_data() == Seq::<u8>::empty(),
    {
        DataFrameCompressModel {
            flags: if end_stream { FLAG_END_STREAM } else { 0 },
            pad_length: 0,
            payload: Vec::new(),
        }
    }

    /// Sets the padding length, and the PADDED flag. A padding length of 0
    /// is valid: the frame then carries only the pad length octet.
    pub fn set_pad_length(&mut self, pad_length: u8)
        ensures
            final(self).spec_pad_length() == pad_length,
            final(self).spec_flags() == old(self).spec_flags() | FLAG_PADDED,
            final(self).spec_data() == old(self).spec_data(),
    {
        self.pad_length = pad_length;
        self.flags = self.flags | FLAG_PADDED;
    }

    pub fn set_end_stream(&mut self)
        ensures
            final(self).spec_flags() == old(self).spec_flags() | FLAG_END_STREAM,
            final(self).spec_pad_length() == old(self).spec_pad_length(),
            final(self).spec_data() == old(self).spec_data(),
    {
        self.flags = self.flags | FLAG_END_STREAM;
    }

    pub fn set_payload(&mut self, payload: Vec<u8>)
        ensures
            final(self).spec_data() == payload@,
            final(self).spec_flags() == old(self).spec_flags(),
            final(self).spec_pad_length() == old(self).spec_pad_length(),
    {
        self.payload = payload;
    }
}

/// The length of a DATA frame's payload: the data, and the pad length octet
/// and the padding when the frame is padded.
pub open spec fn data_frame_length(padded: bool, pad_length: u8, data_len: nat) -> int {
    if padded {
        data_len + 1 + pad_length
    } else {
        data_len as int
    }
}

/// The payload octets of a DATA frame. Padding octets are zero.
pub open spec fn data_frame_payload(padded: bool, pad_length: u8, data: Seq<u8>) -> Seq<u8> {
    (if padded { seq![pad_length] } else { Seq::<u8>::empty() }) + data + Seq::new(
        pad_length as nat,
        |i: int| 0u8,
    )
}

impl CompressibleHttpFrame for DataFrameCompressModel {
    closed spec fn spec_length(&self) -> i32 {
        data_frame_length(self.is_padded(), self.pad_length, self.payload@.len()) as i32
    }

    closed spec fn spec_frame_type(&self) -> FrameType {
        FrameType::Data
    }

    closed spec fn spec_flags(&self) -> u8 {
        self.flags
    }

    closed spec fn spec_payload(&self) -> Seq<u8> {
        data_frame_payload(self.is_padded(), self.pad_length, self.payload@)
    }

    closed spec fn payload_ok(&self) -> bool {
        true
    }

    fn get_length(&self) -> (r: i32) {
        let len: u64 = self.payload.len() as u64;
        let low: u64 = len % 0x1_0000_0000;
        let pad: u64 = self.pad_length as u64;
        if self.flags & FLAG_PADDED == FLAG_PADDED {
            assert(((low + 1 + pad) as i32) == ((len + 1 + pad) as i32)) by (bit_vector)
                requires
                    low == len % 0x1_0000_0000,
                    pad < 256,
            ;
            (low + 1 + pad) as i32
        } else {
            assert((low as i32) == (len as i32)) by (bit_vector)
                requires
                    low == len % 0x1_0000_0000,
            ;
            low as i32
        }
    }

    fn get_frame_type(&self) -> (r: FrameType) {
        FrameType::Data
    }

    fn get_flags(&self) -> (r: u8) {
        self.flags
    }

    fn get_payload(self) -> (r: Vec<u8>) {
        let mut result: Vec<u8> = Vec::new();
        if self.flags & FLAG_PADDED == FLAG_PADDED {
            result.push(self.pad_length);
        }
        octets::extend_from(&mut result, self.payload.as_slice());
        octets::push_zeros(&mut result, self.pad_length);
        result
    }
}

/// A received DATA frame.
pub struct DataFrame {
    payload: String,
    end_stream: bool,
}

/// The data a DATA frame carries: after the pad length octet and before
/// the padding when the frame is padded.
pub open spec fn data_frame_data(frame_header: FrameHeader, payload: Seq<u8>) -> Seq<u8> {
    if frame_header.flags & FLAG_PADDED == FLAG_PADDED {
        payload.subrange(1, frame_header.length - payload[0])
    } else {
        payload.take(frame_header.length as int)
    }
}

/// What a DATA frame needs to be read: its payload is all there, and when
/// padded, the pad length octet and the padding fit in it; the data is UTF-8.
pub open spec fn data_frame_readable(frame_header: FrameHeader, payload: Seq<u8>) -> bool {
    &&& frame_header.length <= payload.len()
    &&& frame_header.flags & FLAG_PADDED == FLAG_PADDED ==> (1 <= frame_header.length && payload[0]
        + 1 <= frame_header.length)
    &&& valid_utf8(data_frame_data(frame_header, payload))
}

impl DataFrame {
    pub closed spec fn spec_payload(&self) -> Seq<char> {
        self.payload@
    }

    pub closed spec fn spec_end_stream(&self) -> bool {
        self.end_stream
    }

    /// Reads a DATA frame from its header and payload octets.
    pub fn new(frame_header: &FrameHeader, payload: &[u8]) -> (r: DataFrame)
        requires
            data_frame_readable(*frame_header, payload@),
        ensures
            encode_utf8(r.spec_payload()) == data_frame_data(*frame_header, payload@),
            r.spec_end_stream() == (frame_header.flags & FLAG_END_STREAM == FLAG_END_STREAM),
    {
        let length = frame_header.length as usize;
        let data = if frame_header.flags & FLAG_PADDED == FLAG_PADDED {
            let pad_length = payload[0] as usize;
            octets::copy_range(payload, 1, length - pad_length)
        } else {
            octets::copy_range(payload, 0, length)
        };
        assert(data@ =~= data_frame_data(*frame_header, payload@));
        let payload = match octets::string_from_utf8(data) {
            Some(s) => s,
            None => {
                assert(false);
                String::new()
            },
        };
        DataFrame {
            payload,
            end_stream: frame_header.flags & FLAG_END_STREAM == FLAG_END_STREAM,
        }
    }

    pub fn get_payload(&self) -> (r: &str)
        ensures
            r@ == self.spec_payload(),
    {
        self.payload.as_str()
    }

    pub fn is_end_stream(&self) -> (r: bool)
        ensures
            r == self.spec_end_stream(),
    {
        self.end_stream
    }
}

/// A written DATA frame reads back as the data it was given, with its flags,
/// for any stream.
pub proof fn lemma_data_frame_round_trip(model: DataFrameCompressModel, stream_id: u32)
    requires
        data_frame_length(model.is_padded(), model.spec_pad_length(), model.spec_data().len())
            < 0x1000000,
        valid_utf8(model.spec_data()),
    ensures
        ({
            let frame = frame_octets(model, stream_id);
            let header = spec_frame_header(frame);
            let payload = frame.skip(9);
            &&& header.frame_type == Some(FrameType::Data)
            &&& header.flags == model.spec_flags()
            &&& header.length == model.spec_length()
            &&& header.stream_id == stream_id % 0x8000_0000
            &&& data_frame_readable(header, payload)
            &&& data_frame_data(header, payload) == model.spec_data()
        }),
{
    let p = model.spec_payload();
    super::lemma_frame_round_trip(
        model.spec_length() as u32,
        FrameType::Data,
        model.spec_flags(),
        stream_id,
        p,
    );
    let frame = frame_octets(model, stream_id);
    let header = spec_frame_header(frame);
    assert(frame.skip(9) == p);
    assert(header.length == data_frame_length(model.is_padded(), model.spec_pad_length(), model.spec_data().len()));
    if model.is_padded() {
        assert(p[0] == model.spec_pad_length());
        assert(p.subrange(1, header.length - p[0]) =~= model.spec_data());
    } else {
        assert(p.take(header.length as int) =~= model.spec_data());
    }
}


/// How a DATA frame is written: its type, its flags, its length and its
/// payload (a padded one: the pad length octet, the data, then that many
/// zero octets); one whose payload fits in 24 bits can be written.
pub proof fn lemma_data_frame_written(m: DataFrameCompressModel)
    ensures
        frame_type_of(m) == FrameType::Data,
        flags_of(m) == m.spec_flags(),
        data_frame_length(m.is_padded(), m.spec_pad_length(), m.spec_data().len()) < 0x1000000 ==> {
            &&& length_of(m) == data_frame_length(m.is_padded(), m.spec_pad_length(), m.spec_data().len())
            &&& writable(m)
        },
        payload_of(m) == data_frame_payload(m.is_padded(), m.spec_pad_length(), m.spec_data()),
        (!m.is_padded() && m.spec_pad_length() == 0) ==> payload_of(m) == m.spec_data(),
{
    if !m.is_padded() && m.spec_pad_length() == 0 {
        assert(payload_of(m) =~= m.spec_data());
    }
}

} // verus!
