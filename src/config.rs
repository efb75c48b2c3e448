use vstd::prelude::*;
use crate::itm_parser::NUM_ITM_PORTS;
use crate::value::ITMPortConvType;

verus! {

/// Decode type chosen for a port.
#[derive(Clone, Copy, Debug, PartialEq, Eq, Structural)]
pub enum ITMChannelConfig {
    CHAR,
    U32,
    I32,
    F32,
    I16F16,
}

/// Configuration of one traced port: a display name and its decode type.
#[derive(Clone, Debug, PartialEq)]
pub struct PortConfiguration {
    pub name: String,
    pub typ: ITMChannelConfig,
}

/// Configuration of every port; `None` leaves a port disabled.
#[derive(Clone, Debug, PartialEq)]
pub struct AppConfig {
    pub port_conf: [Option<PortConfiguration>; NUM_ITM_PORTS],
}

/// The decode-type selector of a channel configuration: the zero value of
/// the matching variant.
pub open spec fn selector_of(c: ITMChannelConfig) -> ITMPortConvType {
    match c {
        ITMChannelConfig::CHAR => ITMPortConvType::CHAR(0),
        ITMChannelConfig::U32 => ITMPortConvType::U32(0),
        ITMChannelConfig::I32 => ITMPortConvType::I32(0),
        ITMChannelConfig::F32 => ITMPortConvType::F32(0),
        ITMChannelConfig::I16F16 => ITMPortConvType::I16F16(0),
    }
}

impl From<PortConfiguration> for ITMPortConvType {
    fn from(conf: PortConfiguration) -> (r: ITMPortConvType)
        ensures
            r == selector_of(conf.typ),
    {
        selector_of_channel(conf.typ)
    }
}

impl vstd::std_specs::convert::FromSpecImpl<PortConfiguration> for ITMPortConvType {
    open spec fn obeys_from_spec() -> bool {
        true
    }

    open spec fn from_spec(v: PortConfiguration) -> ITMPortConvType {
        selector_of(v.typ)
    }
}

impl Default for AppConfig {
    /// A configuration with every port disabled.
    fn default() -> (r: AppConfig)
        ensures
            forall|i: int| 0 <= i < NUM_ITM_PORTS ==> r.port_conf@[i] is None,
    {
        AppConfig {
            port_conf: [
                None, None, None, None, None, None, None, None, None, None, None, None, None,
                None, None, None, None, None, None, None, None, None, None, None, None, None,
                None, None, None, None, None, None,
            ],
        }
    }
}

/// The decode-type selector of a channel configuration.
fn selector_of_channel(c: ITMChannelConfig) -> (r: ITMPortConvType)
    ensures
        r == selector_of(c),
{
    match c {
        ITMChannelConfig::CHAR => ITMPortConvType::CHAR(0),
        ITMChannelConfig::U32 => ITMPortConvType::U32(0),
        ITMChannelConfig::I32 => ITMPortConvType::I32(0),
        ITMChannelConfig::F32 => ITMPortConvType::F32(0),
        ITMChannelConfig::I16F16 => ITMPortConvType::I16F16(0),
    }
}

} // verus!
