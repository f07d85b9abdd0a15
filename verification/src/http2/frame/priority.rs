//! PRIORITY frames (RFC 7540, section 6.3), and the stream dependency
//! fields they share with HEADERS frames.

use vstd::prelude::*;
use super::{
    CompressibleHttpFrame,
    FrameHeader,
    FrameType,
    flags_of,
    frame_octets,
    frame_type_of,
    length_of,
    payload_of,
    spec_frame_header,
    writable,
};
use crate::octets;

verus! {

pub const STREAM_DEPENDENCY_EXCLUSIVE_BIT_MASK: u8 = 0x80;

/// The five octets of a stream dependency and weight: the exclusive bit
/// and the 31-bit dependency, then the weight.
pub open spec fn dependency_octets(stream_dependency: u32, exclusive: bool, weight: u8) -> Seq<u8> {
    seq![
        ((stream_dependency / 0x1000000) + if exclusive { 0x80int } else { 0int }) as u8,
        ((stream_dependency / 0x10000) % 0x100) as u8,
        ((stream_dependency / 0x100) % 0x100) as u8,
        (stream_dependency % 0x100) as u8,
        weight,
    ]
}

/// Whether a dependency can be written: 31 bits, and a weight of at least 1.
pub open spec fn dependency_ok(stream_dependency: u32, weight: u8) -> bool {
    stream_dependency < 0x8000_0000 && 1 <= weight
}

/// Appends the dependency octets to `result`.
pub fn push_dependency(result: &mut Vec<u8>, stream_dependency: u32, exclusive: bool, weight: u8)
    requires
        dependency_ok(stream_dependency, weight),
    ensures
        final(result)@ == old(result)@ + dependency_octets(stream_dependency, exclusive, weight),
{
    let mut first: u8 = (stream_dependency / 0x1000000) as u8;
    if exclusive {
        first = first + 0x80;
    }
    let ghost r0 = result@;
    result.push(first);
    result.push(((stream_dependency / 0x10000) % 0x100) as u8);
    result.push(((stream_dependency / 0x100) % 0x100) as u8);
    result.push((stream_dependency % 0x100) as u8);
    result.push(weight);
    assert(result@ =~= r0 + dependency_octets(stream_dependency, exclusive, weight));
}

/// Whether the exclusive bit is set in the first dependency octet.
pub open spec fn spec_exclusive(first: u8) -> bool {
    first & STREAM_DEPENDENCY_EXCLUSIVE_BIT_MASK == STREAM_DEPENDENCY_EXCLUSIVE_BIT_MASK
}

/// The 31-bit stream dependency in four octets, without the exclusive bit.
pub open spec fn spec_dependency(p: Seq<u8>) -> u32 {
    octets::be32(p[0] % 0x80, p[1], p[2], p[3])
}

/// Reading the dependency octets back gives the dependency, the exclusive
/// flag and the weight.
pub proof fn lemma_dependency_round_trip(stream_dependency: u32, exclusive: bool, weight: u8)
    requires
        dependency_ok(stream_dependency, weight),
    ensures
        ({
            let p = dependency_octets(stream_dependency, exclusive, weight);
            &&& spec_exclusive(p[0]) == exclusive
            &&& spec_dependency(p) == stream_dependency
            &&& p[4] == weight
        }),
{
    let p = dependency_octets(stream_dependency, exclusive, weight);
    let d = (stream_dependency / 0x1000000) as u8;
    assert(d < 0x80);
    if exclusive {
        assert(p[0] == d + 0x80);
        assert(d < 0x80 ==> ((d + 0x80) as u8) & 0x80 == 0x80 && ((d + 0x80) as u8) % 0x80 == d)
            by (bit_vector);
    } else {
        assert(p[0] == d);
        assert(d < 0x80 ==> d & 0x80 == 0 && d % 0x80 == d) by (bit_vector);
    }
    octets::lemma_be32_split_31(stream_dependency);
}

/// A PRIORITY frame to be written.
pub struct PriorityFrameCompressModel {
    stream_dependency: u32,
    stream_dependency_exclusive: bool,
    weight: u8,
}

impl PriorityFrameCompressModel {
    pub closed spec fn spec_stream_dependency(&self) -> u32 {
        self.stream_dependency
    }

    pub closed spec fn spec_exclusive(&self) -> bool {
        self.stream_dependency_exclusive
    }

    pub closed spec fn spec_weight(&self) -> u8 {
        self.weight
    }

    pub fn new(stream_dependency: u32, weight: u8, exclusive: bool) -> (r: Self)
        ensures
            r.spec_stream_dependency() == stream_dependency,
            r.spec_weight() == weight,
            r.spec_exclusive() == exclusive,
    {
        PriorityFrameCompressModel {
            stream_dependency,
            stream_dependency_exclusive: exclusive,
            weight,
        }
    }
}

impl CompressibleHttpFrame for PriorityFrameCompressModel {
    closed spec fn spec_length(&self) -> i32 {
        5
    }

    closed spec fn spec_frame_type(&self) -> FrameType {
        FrameType::Priority
    }

    closed spec fn spec_flags(&self) -> u8 {
        0
    }

    closed spec fn spec_payload(&self) -> Seq<u8> {
        dependency_octets(self.stream_dependency, self.stream_dependency_exclusive, self.weight)
    }

    closed spec fn payload_ok(&self) -> bool {
        dependency_ok(self.stream_dependency, self.weight)
    }

    fn get_length(&self) -> (r: i32) {
        5
    }

    fn get_frame_type(&self) -> (r: FrameType) {
        FrameType::Priority
    }

    fn get_flags(&self) -> (r: u8) {
        0
    }

    fn get_payload(self) -> (r: Vec<u8>) {
        let mut result: Vec<u8> = Vec::new();
        push_dependency(&mut result, self.stream_dependency, self.stream_dependency_exclusive, self.weight);
        assert(result@ =~= dependency_octets(
            self.stream_dependency,
            self.stream_dependency_exclusive,
            self.weight,
        ));
        result
    }
}

/// A received PRIORITY frame.
pub struct PriorityFrame {
    exclusive: bool,
    stream_dependency: u32,
    weight: u8,
}

impl PriorityFrame {
    pub closed spec fn spec_exclusive(&self) -> bool {
        self.exclusive
    }

    pub closed spec fn spec_stream_dependency(&self) -> u32 {
        self.stream_dependency
    }

    pub closed spec fn spec_weight(&self) -> u8 {
        self.weight
    }

    /// Reads a PRIORITY frame, whose payload is always five octets.
    pub fn new(frame_header: &FrameHeader, payload: &[u8]) -> (r: Self)
        requires
            frame_header.length == 5,
            payload@.len() >= 5,
        ensures
            r.spec_exclusive() == spec_exclusive(payload@[0]),
            r.spec_stream_dependency() == spec_dependency(payload@),
            r.spec_weight() == payload@[4],
    {
        let first = payload[0];
        PriorityFrame {
            exclusive: first & STREAM_DEPENDENCY_EXCLUSIVE_BIT_MASK
                == STREAM_DEPENDENCY_EXCLUSIVE_BIT_MASK,
            stream_dependency: octets::octets_to_u32(first % 0x80, payload[1], payload[2], payload[3]),
            weight: payload[4],
        }
    }

    pub fn get_stream_dependency(&self) -> (r: u32)
        ensures
            r == self.spec_stream_dependency(),
    {
        self.stream_dependency
    }

    pub fn get_weight(&self) -> (r: u8)
        ensures
            r == self.spec_weight(),
    {
        self.weight
    }

    pub fn is_exclusive(&self) -> (r: bool)
        ensures
            r == self.spec_exclusive(),
    {
        self.exclusive
    }
}

/// A written PRIORITY frame reads back as its dependency, exclusive flag and
/// weight.
pub proof fn lemma_priority_frame_round_trip(model: PriorityFrameCompressModel, stream_id: u32)
    requires
        dependency_ok(model.spec_stream_dependency(), model.spec_weight()),
    ensures
        ({
            let frame = frame_octets(model, stream_id);
            let header = spec_frame_header(frame);
            let p = frame.skip(9);
            &&& header.frame_type == Some(FrameType::Priority)
            &&& header.length == 5
            &&& header.stream_id == stream_id % 0x8000_0000
            &&& p.len() >= 5
            &&& spec_exclusive(p[0]) == model.spec_exclusive()
            &&& spec_dependency(p) == model.spec_stream_dependency()
            &&& p[4] == model.spec_weight()
        }),
{
    super::lemma_frame_round_trip(5, FrameType::Priority, 0, stream_id, model.spec_payload());
    lemma_dependency_round_trip(
        model.spec_stream_dependency(),
        model.spec_exclusive(),
        model.spec_weight(),
    );
}

/// How a PRIORITY frame is written: with no flags, a length of 5, and the
/// dependency octets as its payload; one whose dependency fits in 31 bits
/// and whose weight is at least 1 can be written.
pub proof fn lemma_priority_frame_written(m: PriorityFrameCompressModel)
    ensures
        frame_type_of(m) == FrameType::Priority,
        flags_of(m) == 0,
        length_of(m) == 5,
        payload_of(m) == dependency_octets(m.spec_stream_dependency(), m.spec_exclusive(), m.spec_weight()),
        dependency_ok(m.spec_stream_dependency(), m.spec_weight()) ==> writable(m),
{
}

} // verus!
