//! HTTP/2 connection settings (RFC 7540, section 6.5.2).

use vstd::prelude::*;
use super::error::{ErrorCode, ErrorName, HttpError};

verus! {

pub const INITIAL_MAX_FRAME_SIZE: u32 = 0x4000;
pub const MAXIMUM_MAX_FRAME_SIZE: u32 = 0xFFFFFF;

pub const INITIAL_FLOW_CONTROL_WINDOW_SIZE: u32 = 0xFFFF;
pub const MAXIMUM_FLOW_CONTROL_WINDOW_SIZE: u32 = 0x7FFFFFFF;

/// The settings parameters defined by RFC 7540.
#[derive(Debug, Clone, Copy, PartialEq, Eq, Structural)]
pub enum SettingName {
    SettingsHeaderTableSize,
    SettingsEnablePush,
    SettingsMaxConcurrentStreams,
    SettingsInitialWindowSize,
    SettingsMaxFrameSize,
    SettingsMaxHeaderListSize,
}

/// A setting and the value a peer sent for it.
#[derive(Debug, Clone, Copy)]
pub struct SettingsParameter {
    pub name: SettingName,
    pub value: u32,
}

/// The settings in force for one side of a connection.
#[derive(Debug, Clone, Copy, PartialEq, Eq, Structural)]
pub struct Settings {
    pub header_table_size: u32,
    pub enable_push: bool,
    pub max_concurrent_streams: Option<u32>,
    pub initial_window_size: u32,
    pub max_frame_size: u32,
    pub max_header_list_size: Option<u32>,
}

impl SettingsParameter {
    pub fn new(name: SettingName, value: u32) -> (r: Self)
        ensures
            r.name == name && r.value == value,
    {
        SettingsParameter { name, value }
    }

    pub fn get_name(&self) -> (r: SettingName)
        ensures
            r == self.name,
    {
        self.name
    }

    pub fn get_value(&self) -> (r: u32)
        ensures
            r == self.value,
    {
        self.value
    }
}

/// The initial values of all settings (RFC 7540, section 6.5.2).
pub open spec fn default_settings() -> Settings {
    Settings {
        header_table_size: 4096,
        enable_push: true,
        max_concurrent_streams: None,
        initial_window_size: INITIAL_FLOW_CONTROL_WINDOW_SIZE,
        max_frame_size: INITIAL_MAX_FRAME_SIZE,
        max_header_list_size: None,
    }
}

/// The settings after one parameter is applied, or the error that the
/// parameter's value is.
pub open spec fn apply_parameter(s: Settings, p: SettingsParameter) -> Result<Settings, HttpError> {
    match p.name {
        SettingName::SettingsHeaderTableSize => Ok(Settings { header_table_size: p.value, ..s }),
        SettingName::SettingsEnablePush => if p.value == 0 {
            Ok(Settings { enable_push: false, ..s })
        } else if p.value == 1 {
            Ok(Settings { enable_push: true, ..s })
        } else {
            Err(
                HttpError::ConnectionError(
                    ErrorCode::ProtocolError,
                    ErrorName::EnablePushSettingInvalidValue,
                ),
            )
        },
        SettingName::SettingsMaxConcurrentStreams => Ok(
            Settings { max_concurrent_streams: Some(p.value), ..s },
        ),
        SettingName::SettingsInitialWindowSize => if p.value <= MAXIMUM_FLOW_CONTROL_WINDOW_SIZE {
            Ok(Settings { initial_window_size: p.value, ..s })
        } else {
            Err(
                HttpError::ConnectionError(
                    ErrorCode::FlowControlError,
                    ErrorName::InvalidInitialWindowSize,
                ),
            )
        },
        SettingName::SettingsMaxFrameSize => if INITIAL_MAX_FRAME_SIZE <= p.value
            <= MAXIMUM_MAX_FRAME_SIZE {
            Ok(Settings { max_frame_size: p.value, ..s })
        } else {
            Err(
                HttpError::ConnectionError(ErrorCode::ProtocolError, ErrorName::InvalidMaxFrameSize),
            )
        },
        SettingName::SettingsMaxHeaderListSize => Ok(
            Settings { max_header_list_size: Some(p.value), ..s },
        ),
    }
}

/// The index of the first parameter in `changes` that is refused, if any.
pub open spec fn first_refused(s: Settings, changes: Seq<SettingsParameter>) -> Option<int>
    decreases changes.len(),
{
    if changes.len() == 0 {
        None
    } else {
        match apply_parameter(s, changes[0]) {
            Err(_) => Some(0),
            Ok(s2) => match first_refused(s2, changes.drop_first()) {
                Some(i) => Some(i + 1),
                None => None,
            },
        }
    }
}

/// The settings after the parameters are applied in order, up to the first
/// refused one.
pub open spec fn applied_settings(s: Settings, changes: Seq<SettingsParameter>) -> Settings
    decreases changes.len(),
{
    if changes.len() == 0 {
        s
    } else {
        match apply_parameter(s, changes[0]) {
            Err(_) => s,
            Ok(s2) => applied_settings(s2, changes.drop_first()),
        }
    }
}

/// The error of the first refused parameter.
pub open spec fn refusal(s: Settings, changes: Seq<SettingsParameter>) -> HttpError
    decreases changes.len(),
{
    if changes.len() == 0 {
        arbitrary()
    } else {
        match apply_parameter(s, changes[0]) {
            Err(e) => e,
            Ok(s2) => refusal(s2, changes.drop_first()),
        }
    }
}

impl Settings {
    /// The initial settings of RFC 7540.
    pub fn spec_default() -> (r: Self)
        ensures
            r == default_settings(),
    {
        Settings {
            header_table_size: 4096,
            enable_push: true,
            max_concurrent_streams: None,
            initial_window_size: INITIAL_FLOW_CONTROL_WINDOW_SIZE,
            max_frame_size: INITIAL_MAX_FRAME_SIZE,
            max_header_list_size: None,
        }
    }

    /// Applies the parameters of a SETTINGS frame in order. On success the
    /// names of the applied settings are returned, in order. A refused value
    /// stops the processing with an error; the parameters before it stay
    /// applied.
    pub fn apply_changes(&mut self, changes: &[SettingsParameter]) -> (r: Result<
        Vec<SettingName>,
        HttpError,
    >)
        ensures
            *final(self) == applied_settings(*old(self), changes@),
            r is Ok <==> first_refused(*old(self), changes@) is None,
            r matches Ok(names) ==> names@ == changes@.map_values(
                |p: SettingsParameter| p.name,
            ),
            r matches Err(e) ==> e == refusal(*old(self), changes@),
    {
        let ghost s0 = *self;
        let mut changes_applied: Vec<SettingName> = Vec::new();
        let mut k: usize = 0;
        assert(changes@.skip(0) =~= changes@);
        while k < changes.len()
            invariant
                k <= changes.len(),
                s0 == *old(self),
                applied_settings(s0, changes@) == applied_settings(*self, changes@.skip(k as int)),
                first_refused(s0, changes@) is None <==> first_refused(
                    *self,
                    changes@.skip(k as int),
                ) is None,
                refusal(s0, changes@) == refusal(*self, changes@.skip(k as int)),
                changes_applied@ == changes@.take(k as int).map_values(
                    |p: SettingsParameter| p.name,
                ),
            decreases changes.len() - k,
        {
            let ghost before = *self;
            let setting = changes[k];
            proof {
                lemma_skip_step(before, changes@, k as int);
                let rest = changes@.skip(k as int);
                assert(rest.len() > 0);
                assert(applied_settings(before, rest) == match apply_parameter(before, rest[0]) {
                    Err(_) => before,
                    Ok(s2) => applied_settings(s2, rest.drop_first()),
                });
                assert(first_refused(before, rest) is None <==> match apply_parameter(before, rest[0]) {
                    Err(_) => false,
                    Ok(s2) => first_refused(s2, rest.drop_first()) is None,
                });
                assert(refusal(before, rest) == match apply_parameter(before, rest[0]) {
                    Err(e) => e,
                    Ok(s2) => refusal(s2, rest.drop_first()),
                });
            }
            match setting.get_name() {
                SettingName::SettingsHeaderTableSize => {
                    self.header_table_size = setting.get_value();
                },
                SettingName::SettingsEnablePush => {
                    let v = setting.get_value();
                    if v == 0 {
                        self.enable_push = false;
                    } else if v == 1 {
                        self.enable_push = true;
                    } else {
                        assert(apply_parameter(before, setting) is Err);
                        return Err(
                            HttpError::ConnectionError(
                                ErrorCode::ProtocolError,
                                ErrorName::EnablePushSettingInvalidValue,
                            ),
                        );
                    }
                },
                SettingName::SettingsMaxConcurrentStreams => {
                    self.max_concurrent_streams = Some(setting.get_value());
                },
                SettingName::SettingsInitialWindowSize => {
                    let val = setting.get_value();
                    if val <= MAXIMUM_FLOW_CONTROL_WINDOW_SIZE {
                        self.initial_window_size = val;
                    } else {
                        return Err(
                            HttpError::ConnectionError(
                                ErrorCode::FlowControlError,
                                ErrorName::InvalidInitialWindowSize,
                            ),
                        );
                    }
                },
                SettingName::SettingsMaxFrameSize => {
                    let val = setting.get_value();
                    if INITIAL_MAX_FRAME_SIZE <= val && val <= MAXIMUM_MAX_FRAME_SIZE {
                        self.max_frame_size = val;
                    } else {
                        return Err(
                            HttpError::ConnectionError(
                                ErrorCode::ProtocolError,
                                ErrorName::InvalidMaxFrameSize,
                            ),
                        );
                    }
                },
                SettingName::SettingsMaxHeaderListSize => {
                    self.max_header_list_size = Some(setting.get_value());
                },
            }
            changes_applied.push(setting.get_name());
            proof {
                assert(apply_parameter(before, changes@[k as int]) == Ok::<Settings, HttpError>(*self));
                assert(changes@.take(k + 1).map_values(|p: SettingsParameter| p.name)
                    =~= changes@.take(k as int).map_values(|p: SettingsParameter| p.name).push(
                    changes@[k as int].name,
                ));
            }
            k = k + 1;
        }
        proof {
            assert(changes@.take(k as int) =~= changes@);
            assert(changes@.skip(k as int) =~= Seq::<SettingsParameter>::empty());
        }
        Ok(changes_applied)
    }
}

/// Applying the parameters from position `k` on is applying parameter `k`,
/// then the rest.
proof fn lemma_skip_step(s: Settings, changes: Seq<SettingsParameter>, k: int)
    requires
        0 <= k < changes.len(),
    ensures
        ({
            let rest = changes.skip(k);
            &&& rest[0] == changes[k]
            &&& rest.drop_first() =~= changes.skip(k + 1)
        }),
{
}

/// The wire identifier of a setting.
pub open spec fn setting_name_value(name: SettingName) -> u16 {
    match name {
        SettingName::SettingsHeaderTableSize => 0x1,
        SettingName::SettingsEnablePush => 0x2,
        SettingName::SettingsMaxConcurrentStreams => 0x3,
        SettingName::SettingsInitialWindowSize => 0x4,
        SettingName::SettingsMaxFrameSize => 0x5,
        SettingName::SettingsMaxHeaderListSize => 0x6,
    }
}

/// The setting with a wire identifier, if RFC 7540 defines one.
pub open spec fn spec_to_setting_name(name: u16) -> Option<SettingName> {
    match name {
        0x1 => Some(SettingName::SettingsHeaderTableSize),
        0x2 => Some(SettingName::SettingsEnablePush),
        0x3 => Some(SettingName::SettingsMaxConcurrentStreams),
        0x4 => Some(SettingName::SettingsInitialWindowSize),
        0x5 => Some(SettingName::SettingsMaxFrameSize),
        0x6 => Some(SettingName::SettingsMaxHeaderListSize),
        _ => None,
    }
}

impl From<SettingName> for u16 {
    fn from(name: SettingName) -> (r: u16) {
        match name {
            SettingName::SettingsHeaderTableSize => 0x1,
            SettingName::SettingsEnablePush => 0x2,
            SettingName::SettingsMaxConcurrentStreams => 0x3,
            SettingName::SettingsInitialWindowSize => 0x4,
            SettingName::SettingsMaxFrameSize => 0x5,
            SettingName::SettingsMaxHeaderListSize => 0x6,
        }
    }
}

impl vstd::std_specs::convert::FromSpecImpl<SettingName> for u16 {
    open spec fn obeys_from_spec() -> bool {
        true
    }

    open spec fn from_spec(v: SettingName) -> u16 {
        setting_name_value(v)
    }
}

/// The setting with a wire identifier; `None` for identifiers RFC 7540
/// does not define.
pub fn to_setting_name(name: u16) -> (r: Option<SettingName>)
    ensures
        r == spec_to_setting_name(name),
        r is Some <==> 1 <= name <= 6,
        r matches Some(n) ==> setting_name_value(n) == name,
{
    match name {
        0x1 => Some(SettingName::SettingsHeaderTableSize),
        0x2 => Some(SettingName::SettingsEnablePush),
        0x3 => Some(SettingName::SettingsMaxConcurrentStreams),
        0x4 => Some(SettingName::SettingsInitialWindowSize),
        0x5 => Some(SettingName::SettingsMaxFrameSize),
        0x6 => Some(SettingName::SettingsMaxHeaderListSize),
        _ => None,
    }
}

/// Every setting survives the trip to its wire identifier and back.
pub proof fn lemma_setting_name_round_trip(name: SettingName)
    ensures
        spec_to_setting_name(setting_name_value(name)) == Some(name),
{
}

/// What one SETTINGS parameter does (RFC 7540, section 6.5.2), on any
/// settings: SETTINGS_ENABLE_PUSH 0 turns server push off and 1 turns it on,
/// any other value is a PROTOCOL_ERROR; SETTINGS_INITIAL_WINDOW_SIZE above
/// 2^31 - 1 is a FLOW_CONTROL_ERROR; SETTINGS_MAX_FRAME_SIZE outside 2^14 to
/// 2^24 - 1 is a PROTOCOL_ERROR; otherwise the setting named takes the value
/// and every other setting stays as it was.
pub proof fn lemma_one_parameter_applied(s: Settings, p: SettingsParameter)
    ensures
        ({
            let changes = seq![p];
            let after = applied_settings(s, changes);
            let refused = first_refused(s, changes) is Some;
            match p.name {
                SettingName::SettingsHeaderTableSize => !refused && after == Settings {
                    header_table_size: p.value,
                    ..s
                },
                SettingName::SettingsEnablePush => if p.value <= 1 {
                    &&& !refused
                    &&& after.enable_push == (p.value == 1)
                    &&& after == Settings { enable_push: p.value == 1, ..s }
                } else {
                    refused && after == s && refusal(s, changes) == HttpError::ConnectionError(
                        ErrorCode::ProtocolError,
                        ErrorName::EnablePushSettingInvalidValue,
                    )
                },
                SettingName::SettingsMaxConcurrentStreams => !refused && after == Settings {
                    max_concurrent_streams: Some(p.value),
                    ..s
                },
                SettingName::SettingsInitialWindowSize => if p.value <= 0x7fff_ffff {
                    !refused && after == Settings { initial_window_size: p.value, ..s }
                } else {
                    refused && after == s && refusal(s, changes) == HttpError::ConnectionError(
                        ErrorCode::FlowControlError,
                        ErrorName::InvalidInitialWindowSize,
                    )
                },
                SettingName::SettingsMaxFrameSize => if 0x4000 <= p.value <= 0xff_ffff {
                    !refused && after == Settings { max_frame_size: p.value, ..s }
                } else {
                    refused && after == s && refusal(s, changes) == HttpError::ConnectionError(
                        ErrorCode::ProtocolError,
                        ErrorName::InvalidMaxFrameSize,
                    )
                },
                SettingName::SettingsMaxHeaderListSize => !refused && after == Settings {
                    max_header_list_size: Some(p.value),
                    ..s
                },
            }
        }),
{
    let changes = seq![p];
    let none = Seq::<SettingsParameter>::empty();
    assert(changes.drop_first() =~= none);
    assert(changes[0] == p);
    match apply_parameter(s, p) {
        Ok(s2) => {
            assert(applied_settings(s2, none) == s2);
            assert(first_refused(s2, none) is None);
            assert(applied_settings(s, changes) == s2);
            assert(first_refused(s, changes) is None);
        },
        Err(e) => {
            assert(applied_settings(s, changes) == s);
            assert(first_refused(s, changes) == Some(0int));
            assert(refusal(s, changes) == e);
        },
    }
}

} // verus!
