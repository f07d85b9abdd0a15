//! SETTINGS frames (RFC 7540, section 6.5).

use vstd::prelude::*;
use super::{CompressibleHttpFrame, FrameHeader, FrameType, frame_octets, spec_frame_header, flags_of, frame_type_of, payload_of, writable, length_of};
use crate::octets;
use crate::http2::error::{ErrorCode, ErrorName, HttpError};
use crate::http2::settings::{
    SettingName,
    setting_name_value,
    spec_to_setting_name,
    to_setting_name,
    lemma_setting_name_round_trip,
};

verus! {

pub const FLAG_ACK: u8 = 0x1;

/// A setting and its value as carried in a SETTINGS frame.
#[derive(Debug, Clone, Copy, PartialEq, Eq, Structural)]
pub struct SettingsParameter {
    pub name: SettingName,
    pub value: u32,
}

impl SettingsParameter {
    pub fn get_name(&self) -> (r: &SettingName)
        ensures
            *r == self.name,
    {
        &self.name
    }

    pub fn get_value(&self) -> (r: u32)
        ensures
            r == self.value,
    {
        self.value
    }
}

/// A SETTINGS frame to be written.
pub struct SettingsFrameCompressModel {
    flags: u8,
    parameters: Vec<SettingsParameter>,
}

/// The six octets of a parameter: its 16-bit identifier and 32-bit value.
pub open spec fn parameter_octets(p: SettingsParameter) -> Seq<u8> {
    octets::u16_octets(setting_name_value(p.name)) + octets::u32_octets(p.value)
}

/// The payload of a SETTINGS frame: the parameters' octets in order.
pub open spec fn parameters_octets(ps: Seq<SettingsParameter>) -> Seq<u8>
    decreases ps.len(),
{
    if ps.len() == 0 {
        Seq::<u8>::empty()
    } else {
        parameters_octets(ps.drop_last()) + parameter_octets(ps.last())
    }
}

proof fn lemma_parameters_octets_len(ps: Seq<SettingsParameter>)
    ensures
        parameters_octets(ps).len() == 6 * ps.len(),
    decreases ps.len(),
{
    if ps.len() > 0 {
        lemma_parameters_octets_len(ps.drop_last());
    }
}

impl SettingsFrameCompressModel {
    pub closed spec fn spec_flags(&self) -> u8 {
        self.flags
    }

    pub closed spec fn spec_parameters(&self) -> Seq<SettingsParameter> {
        self.parameters@
    }

    pub fn new() -> (r: Self)
        ensures
            r.spec_flags() == 0,
            r.spec_parameters() == Seq::<SettingsParameter>::empty(),
    {
        SettingsFrameCompressModel { flags: 0, parameters: Vec::new() }
    }

    pub fn set_acknowledge(&mut self)
        ensures
            final(self).spec_flags() == old(self).spec_flags() | FLAG_ACK,
            final(self).spec_parameters() == old(self).spec_parameters(),
    {
        self.flags = self.flags | FLAG_ACK;
    }

    pub fn add_parameter(&mut self, name: SettingName, value: u32)
        ensures
            final(self).spec_flags() == old(self).spec_flags(),
            final(self).spec_parameters() == old(self).spec_parameters().push(
                SettingsParameter { name, value },
            ),
    {
        self.parameters.push(SettingsParameter { name, value });
    }
}

impl CompressibleHttpFrame for SettingsFrameCompressModel {
    closed spec fn spec_length(&self) -> i32 {
        (6 * self.parameters@.len()) as i32
    }

    closed spec fn spec_frame_type(&self) -> FrameType {
        FrameType::Settings
    }

    closed spec fn spec_flags(&self) -> u8 {
        self.flags
    }

    closed spec fn spec_payload(&self) -> Seq<u8> {
        parameters_octets(self.parameters@)
    }

    closed spec fn payload_ok(&self) -> bool {
        true
    }

    fn get_length(&self) -> (r: i32) {
        let len: u64 = self.parameters.len() as u64;
        let low: u64 = len % 0x1_0000_0000;
        assert(((6 * low) as i32) == ((6 * len) as i32)) by (bit_vector)
            requires
                low == len % 0x1_0000_0000,
        ;
        (6 * low) as i32
    }

    fn get_frame_type(&self) -> (r: FrameType) {
        FrameType::Settings
    }

    fn get_flags(&self) -> (r: u8) {
        self.flags
    }

    fn get_payload(self) -> (r: Vec<u8>) {
        let mut result: Vec<u8> = Vec::new();
        let mut k: usize = 0;
        while k < self.parameters.len()
            invariant
                k <= self.parameters.len(),
                result@ == parameters_octets(self.parameters@.take(k as int)),
            decreases self.parameters.len() - k,
        {
            let p = self.parameters[k];
            let name: u16 = u16::from(p.name);
            result.push((name / 0x100) as u8);
            result.push((name % 0x100) as u8);
            let v = octets::u32_to_octets(p.value);
            let ghost before = result@;
            octets::extend_from(&mut result, &v);
            proof {
                let t = self.parameters@.take(k + 1);
                assert(t.drop_last() =~= self.parameters@.take(k as int));
                assert(t.last() == p);
            }
            k = k + 1;
        }
        assert(self.parameters@.take(k as int) =~= self.parameters@);
        result
    }
}

/// A received SETTINGS frame.
#[derive(Debug)]
pub struct SettingsFrame {
    acknowledge: bool,
    parameters: Vec<SettingsParameter>,
}

/// The parameters read from the first `n` six-octet entries of a payload;
/// entries with an identifier RFC 7540 does not define are skipped.
pub open spec fn parse_parameters(payload: Seq<u8>, n: nat) -> Seq<SettingsParameter>
    decreases n,
{
    if n == 0 {
        Seq::<SettingsParameter>::empty()
    } else {
        let prev = parse_parameters(payload, (n - 1) as nat);
        let i = 6 * (n - 1);
        match spec_to_setting_name(octets::be16(payload[i], payload[i + 1])) {
            Some(name) => prev.push(
                SettingsParameter {
                    name,
                    value: octets::be32(payload[i + 2], payload[i + 3], payload[i + 4], payload[i + 5]),
                },
            ),
            None => prev,
        }
    }
}

/// The outcome of reading a SETTINGS frame: an acknowledgement, which must
/// be empty; or parameters, which come in six-octet entries.
pub open spec fn spec_settings_frame(frame_header: FrameHeader, payload: Seq<u8>) -> Result<
    (bool, Seq<SettingsParameter>),
    HttpError,
> {
    if frame_header.flags & FLAG_ACK == FLAG_ACK {
        if frame_header.length != 0 {
            Err(
                HttpError::ConnectionError(
                    ErrorCode::FrameSizeError,
                    ErrorName::SettingsAcknowledgementWithNonZeroPayloadLength,
                ),
            )
        } else {
            Ok((true, Seq::<SettingsParameter>::empty()))
        }
    } else if frame_header.length % 6 != 0 {
        Err(
            HttpError::ConnectionError(
                ErrorCode::FrameSizeError,
                ErrorName::SettingsFramePayloadSizeNotAMultipleOfSix,
            ),
        )
    } else {
        Ok((false, parse_parameters(payload, (frame_header.length / 6) as nat)))
    }
}

impl SettingsFrame {
    pub closed spec fn spec_acknowledge(&self) -> bool {
        self.acknowledge
    }

    pub closed spec fn spec_parameters(&self) -> Seq<SettingsParameter> {
        self.parameters@
    }

    /// A SETTINGS frame that is no acknowledgement and carries no parameters.
    pub fn new_noop() -> (r: Self)
        ensures
            !r.spec_acknowledge(),
            r.spec_parameters() == Seq::<SettingsParameter>::empty(),
    {
        SettingsFrame { acknowledge: false, parameters: Vec::new() }
    }

    /// Reads a SETTINGS frame.
    pub fn new(frame_header: &FrameHeader, payload: &[u8]) -> (r: Result<Self, HttpError>)
        requires
            frame_header.length <= payload@.len(),
        ensures
            r is Ok <==> spec_settings_frame(*frame_header, payload@) is Ok,
            r matches Ok(f) ==> spec_settings_frame(*frame_header, payload@) == Ok::<
                (bool, Seq<SettingsParameter>),
                HttpError,
            >((f.spec_acknowledge(), f.spec_parameters())),
            r matches Err(e) ==> spec_settings_frame(*frame_header, payload@) == Err::<
                (bool, Seq<SettingsParameter>),
                HttpError,
            >(e),
    {
        if frame_header.flags & FLAG_ACK == FLAG_ACK {
            if frame_header.length != 0 {
                return Err(
                    HttpError::ConnectionError(
                        ErrorCode::FrameSizeError,
                        ErrorName::SettingsAcknowledgementWithNonZeroPayloadLength,
                    ),
                );
            }
            return Ok(SettingsFrame { acknowledge: true, parameters: Vec::new() });
        }
        if frame_header.length % 6 != 0 {
            return Err(
                HttpError::ConnectionError(
                    ErrorCode::FrameSizeError,
                    ErrorName::SettingsFramePayloadSizeNotAMultipleOfSix,
                ),
            );
        }
        let n: u32 = frame_header.length / 6;
        let mut parameters: Vec<SettingsParameter> = Vec::new();
        let mut k: u32 = 0;
        while k < n
            invariant
                k <= n,
                n == frame_header.length / 6,
                frame_header.length <= payload@.len(),
                parameters@ == parse_parameters(payload@, k as nat),
            decreases n - k,
        {
            let i: usize = 6 * k as usize;
            let raw_name: u16 = (payload[i] as u16) * 0x100 + (payload[i + 1] as u16);
            match to_setting_name(raw_name) {
                Some(name) => {
                    let value = octets::octets_to_u32(
                        payload[i + 2],
                        payload[i + 3],
                        payload[i + 4],
                        payload[i + 5],
                    );
                    parameters.push(SettingsParameter { name, value });
                },
                None => {},
            }
            k = k + 1;
        }
        Ok(SettingsFrame { acknowledge: false, parameters })
    }

    pub fn is_acknowledge(&self) -> (r: bool)
        ensures
            r == self.spec_acknowledge(),
    {
        self.acknowledge
    }

    pub fn get_parameters(&self) -> (r: &[SettingsParameter])
        ensures
            r@ == self.spec_parameters(),
    {
        self.parameters.as_slice()
    }
}

proof fn lemma_parse_parameters_of_octets(ps: Seq<SettingsParameter>, tail: Seq<u8>)
    ensures
        parse_parameters(parameters_octets(ps) + tail, ps.len()) == ps,
    decreases ps.len(),
{
    if ps.len() > 0 {
        let init = ps.drop_last();
        let last = ps.last();
        let rest = parameter_octets(last) + tail;
        assert(parameters_octets(ps) + tail =~= parameters_octets(init) + rest);
        lemma_parse_parameters_of_octets(init, rest);
        lemma_parameters_octets_len(init);
        let full = parameters_octets(ps) + tail;
        let i = 6 * (ps.len() - 1);
        assert(full[i] == rest[0] && full[i + 1] == rest[1] && full[i + 2] == rest[2] && full[i
            + 3] == rest[3] && full[i + 4] == rest[4] && full[i + 5] == rest[5]);
        octets::lemma_be16_u16_octets(setting_name_value(last.name));
        octets::lemma_be32_u32_octets(last.value);
        lemma_setting_name_round_trip(last.name);
        assert(init.push(last) =~= ps);
    }
}

/// A written SETTINGS frame without the ACK flag reads back as its
/// parameters, in order.
#[verifier::spinoff_prover]
#[verifier::rlimit(40)]
pub proof fn lemma_settings_frame_round_trip(model: SettingsFrameCompressModel, stream_id: u32)
    requires
        6 * model.spec_parameters().len() < 0x1000000,
        model.spec_flags() & FLAG_ACK != FLAG_ACK,
    ensures
        ({
            let frame = frame_octets(model, stream_id);
            let header = spec_frame_header(frame);
            let p = frame.skip(9);
            &&& header.frame_type == Some(FrameType::Settings)
            &&& header.length <= p.len()
            &&& spec_settings_frame(header, p) == Ok::<(bool, Seq<SettingsParameter>), HttpError>(
                (false, model.spec_parameters()),
            )
        }),
{
    let ps = model.spec_parameters();
    let p = model.spec_payload();
    lemma_parameters_octets_len(ps);
    super::lemma_frame_round_trip((6 * ps.len()) as u32, FrameType::Settings, model.spec_flags(), stream_id, p);
    lemma_parse_parameters_of_octets(ps, Seq::<u8>::empty());
    assert(p + Seq::<u8>::empty() =~= p);
}


/// How a SETTINGS frame is written: its flags and its parameters' octets;
/// one with fewer than 2^21 parameters can be written.
pub proof fn lemma_settings_frame_written(m: SettingsFrameCompressModel)
    ensures
        frame_type_of(m) == FrameType::Settings,
        flags_of(m) == m.spec_flags(),
        payload_of(m) == parameters_octets(m.spec_parameters()),
        m.spec_parameters().len() < 0x200000 ==> writable(m),
        m.spec_parameters().len() < 0x200000 ==> length_of(m) == 6 * m.spec_parameters().len(),
{
}

} // verus!
