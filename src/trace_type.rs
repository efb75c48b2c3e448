use vstd::prelude::*;
use crate::value::ITMPortConvType;

verus! {

/// What a port is traced as, including "off".
#[derive(Clone, Copy, Debug, PartialEq, Eq, Structural)]
pub enum TraceType {
    NONE,
    CHAR,
    U32,
    I32,
    F32,
    I16F16,
}

/// The trace type of a port's decode selector; `NONE` for a disabled port.
pub open spec fn trace_type_of(v: Option<ITMPortConvType>) -> TraceType {
    match v {
        None => TraceType::NONE,
        Some(ITMPortConvType::CHAR(_)) => TraceType::CHAR,
        Some(ITMPortConvType::U32(_)) => TraceType::U32,
        Some(ITMPortConvType::I32(_)) => TraceType::I32,
        Some(ITMPortConvType::F32(_)) => TraceType::F32,
        Some(ITMPortConvType::I16F16(_)) => TraceType::I16F16,
    }
}

/// The decode selector of a trace type: the zero value of the matching
/// variant, or `None` for `NONE`.
pub open spec fn selector_of_trace(t: TraceType) -> Option<ITMPortConvType> {
    match t {
        TraceType::NONE => None,
        TraceType::CHAR => Some(ITMPortConvType::CHAR(0)),
        TraceType::U32 => Some(ITMPortConvType::U32(0)),
        TraceType::I32 => Some(ITMPortConvType::I32(0)),
        TraceType::F32 => Some(ITMPortConvType::F32(0)),
        TraceType::I16F16 => Some(ITMPortConvType::I16F16(0)),
    }
}

/// The name a trace type is shown under.
pub open spec fn label_of(t: TraceType) -> Seq<char> {
    match t {
        TraceType::NONE => seq!['O', 'f', 'f'],
        TraceType::CHAR => seq!['c', 'h', 'a', 'r'],
        TraceType::U32 => seq!['u', '3', '2'],
        TraceType::I32 => seq!['i', '3', '2'],
        TraceType::F32 => seq!['f', '3', '2'],
        TraceType::I16F16 => seq!['I', '1', '6', 'F', '1', '6'],
    }
}

impl Default for TraceType {
    fn default() -> (r: TraceType)
        ensures
            r == TraceType::NONE,
    {
        TraceType::NONE
    }
}

impl From<Option<ITMPortConvType>> for TraceType {
    fn from(val: Option<ITMPortConvType>) -> (r: TraceType)
        ensures
            r == trace_type_of(val),
    {
        match val {
            None => TraceType::NONE,
            Some(ITMPortConvType::CHAR(_)) => TraceType::CHAR,
            Some(ITMPortConvType::U32(_)) => TraceType::U32,
            Some(ITMPortConvType::I32(_)) => TraceType::I32,
            Some(ITMPortConvType::F32(_)) => TraceType::F32,
            Some(ITMPortConvType::I16F16(_)) => TraceType::I16F16,
        }
    }
}

impl vstd::std_specs::convert::FromSpecImpl<Option<ITMPortConvType>> for TraceType {
    open spec fn obeys_from_spec() -> bool {
        true
    }

    open spec fn from_spec(v: Option<ITMPortConvType>) -> TraceType {
        trace_type_of(v)
    }
}

impl From<TraceType> for Option<ITMPortConvType> {
    fn from(val: TraceType) -> (r: Option<ITMPortConvType>)
        ensures
            r == selector_of_trace(val),
    {
        match val {
            TraceType::NONE => None,
            TraceType::CHAR => Some(ITMPortConvType::CHAR(0)),
            TraceType::U32 => Some(ITMPortConvType::U32(0)),
            TraceType::I32 => Some(ITMPortConvType::I32(0)),
            TraceType::F32 => Some(ITMPortConvType::F32(0)),
            TraceType::I16F16 => Some(ITMPortConvType::I16F16(0)),
        }
    }
}

impl vstd::std_specs::convert::FromSpecImpl<TraceType> for Option<ITMPortConvType> {
    open spec fn obeys_from_spec() -> bool {
        true
    }

    open spec fn from_spec(v: TraceType) -> Option<ITMPortConvType> {
        selector_of_trace(v)
    }
}

impl TraceType {
    /// Every trace type, in the order a selection list shows them.
    pub const ALL: [TraceType; 6] = [
        TraceType::NONE,
        TraceType::CHAR,
        TraceType::U32,
        TraceType::I32,
        TraceType::F32,
        TraceType::I16F16,
    ];

    /// The name this trace type is shown under.
    pub fn label(&self) -> (r: &'static str)
        ensures
            r@ == label_of(*self),
    {
        match self {
            TraceType::NONE => {
                proof {
                    reveal_strlit("Off");
                }
                "Off"
            },
            TraceType::CHAR => {
                proof {
                    reveal_strlit("char");
                }
                "char"
            },
            TraceType::U32 => {
                proof {
                    reveal_strlit("u32");
                }
                "u32"
            },
            TraceType::I32 => {
                proof {
                    reveal_strlit("i32");
                }
                "i32"
            },
            TraceType::F32 => {
                proof {
                    reveal_strlit("f32");
                }
                "f32"
            },
            TraceType::I16F16 => {
                proof {
                    reveal_strlit("I16F16");
                }
                "I16F16"
            },
        }
    }
}

} // verus!
