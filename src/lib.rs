pub mod config;
pub mod itm_parser;
pub mod trace_type;
pub mod value;
pub mod value_list;

pub use config::{AppConfig, ITMChannelConfig, PortConfiguration};
pub use itm_parser::{ITMConvValue, ITMParseError, ITMParser, NUM_ITM_PORTS};
pub use trace_type::TraceType;
pub use value::ITMPortConvType;
pub use value_list::{ValueList, MAX_MSG_PER_PCKT};
