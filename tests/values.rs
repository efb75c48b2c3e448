use itm_swo::{AppConfig, ITMChannelConfig, ITMPortConvType, PortConfiguration, TraceType};

fn round_trip(v: ITMPortConvType) -> ITMPortConvType {
    let bytes: Vec<u8> = match v {
        ITMPortConvType::CHAR(c) => vec![c],
        ITMPortConvType::U32(u) => u.to_le_bytes().to_vec(),
        ITMPortConvType::I32(i) => i.to_le_bytes().to_vec(),
        ITMPortConvType::F32(bits) => f32::from_bits(bits).to_le_bytes().to_vec(),
        ITMPortConvType::I16F16(bits) => fixed::types::I16F16::from_bits(bits).to_le_bytes().to_vec(),
    };
    assert_eq!(bytes.len(), v.size());
    v.with_data(&bytes)
}

#[test]
fn round_trip_boundary_values() {
    let samples = [
        ITMPortConvType::CHAR(0),
        ITMPortConvType::CHAR(u8::MAX),
        ITMPortConvType::U32(0),
        ITMPortConvType::U32(u32::MAX),
        ITMPortConvType::I32(0),
        ITMPortConvType::I32(i32::MAX),
        ITMPortConvType::I32(i32::MIN),
        ITMPortConvType::F32(0.0f32.to_bits()),
        ITMPortConvType::F32(f32::MAX.to_bits()),
        ITMPortConvType::F32(f32::MIN.to_bits()),
        ITMPortConvType::I16F16(0),
        ITMPortConvType::I16F16(i32::MAX),
        ITMPortConvType::I16F16(i32::MIN),
        ITMPortConvType::I16F16(fixed::types::I16F16::DELTA.to_bits()),
        ITMPortConvType::I16F16((-fixed::types::I16F16::DELTA).to_bits()),
    ];
    for v in samples {
        assert_eq!(round_trip(v), v);
    }
}

#[test]
fn with_data_reads_little_endian() {
    assert_eq!(ITMPortConvType::U32(0).with_data(&[0x78, 0x56, 0x34, 0x12]), ITMPortConvType::U32(0x1234_5678));
    assert_eq!(ITMPortConvType::I32(0).with_data(&[0xFF, 0xFF, 0xFF, 0xFF]), ITMPortConvType::I32(-1));
    assert_eq!(ITMPortConvType::CHAR(7).with_data(&[b'k']), ITMPortConvType::CHAR(b'k'));
    let f = ITMPortConvType::F32(0).with_data(&1.5f32.to_le_bytes());
    assert_eq!(f, ITMPortConvType::F32(1.5f32.to_bits()));
    let q = ITMPortConvType::I16F16(0).with_data(&[0x00, 0x80, 0xFE, 0xFF]);
    assert_eq!(q, ITMPortConvType::I16F16(fixed::types::I16F16::from_num(-1.5).to_bits()));
}

#[test]
fn widths() {
    assert_eq!(ITMPortConvType::CHAR(0).size(), 1);
    assert_eq!(ITMPortConvType::U32(0).size(), 4);
    assert_eq!(ITMPortConvType::I32(0).size(), 4);
    assert_eq!(ITMPortConvType::F32(0).size(), 4);
    assert_eq!(ITMPortConvType::I16F16(0).size(), 4);
}

#[test]
fn text_of_values() {
    assert_eq!(ITMPortConvType::CHAR(b'A').to_string(), "A");
    assert_eq!(ITMPortConvType::U32(0).to_string(), "0");
    assert_eq!(ITMPortConvType::U32(42).to_string(), "42");
    assert_eq!(ITMPortConvType::U32(u32::MAX).to_string(), "4294967295");
    assert_eq!(ITMPortConvType::I32(-7).to_string(), "-7");
    assert_eq!(ITMPortConvType::I32(i32::MIN).to_string(), "-2147483648");
    assert_eq!(ITMPortConvType::I32(1000).to_string(), "1000");
}

#[test]
fn text_of_fixed_point_is_scaled() {
    assert_eq!(ITMPortConvType::I16F16(0x0001_0000).to_string(), "1");
    assert_eq!(ITMPortConvType::I16F16(-0x8000).to_string(), "-0.5");
    assert_eq!(ITMPortConvType::I16F16(0x0002_4000).to_string(), "2.25");
    assert_eq!(ITMPortConvType::I16F16(0).to_string(), "0");
}

#[test]
fn char_byte() {
    assert_eq!(ITMPortConvType::CHAR(b'x').to_u8(), b'x');
}

#[test]
fn channel_config_selects_variant() {
    let cases = [
        (ITMChannelConfig::CHAR, ITMPortConvType::CHAR(0)),
        (ITMChannelConfig::U32, ITMPortConvType::U32(0)),
        (ITMChannelConfig::I32, ITMPortConvType::I32(0)),
        (ITMChannelConfig::F32, ITMPortConvType::F32(0)),
        (ITMChannelConfig::I16F16, ITMPortConvType::I16F16(0)),
    ];
    for (typ, want) in cases {
        let conf = PortConfiguration { name: String::from("ch"), typ };
        assert_eq!(ITMPortConvType::from(conf), want);
    }
}

#[test]
fn app_config_default_disables_all() {
    let c = AppConfig::default();
    assert!(c.port_conf.iter().all(|p| p.is_none()));
}

#[test]
fn trace_type_conversions() {
    assert_eq!(TraceType::default(), TraceType::NONE);
    assert_eq!(TraceType::from(None), TraceType::NONE);
    assert_eq!(TraceType::from(Some(ITMPortConvType::U32(9))), TraceType::U32);
    assert_eq!(TraceType::from(Some(ITMPortConvType::I16F16(3))), TraceType::I16F16);
    assert_eq!(Option::<ITMPortConvType>::from(TraceType::NONE), None);
    assert_eq!(Option::<ITMPortConvType>::from(TraceType::CHAR), Some(ITMPortConvType::CHAR(0)));
    assert_eq!(Option::<ITMPortConvType>::from(TraceType::F32), Some(ITMPortConvType::F32(0)));
    for t in TraceType::ALL {
        assert_eq!(TraceType::from(Option::<ITMPortConvType>::from(t)), t);
    }
}

#[test]
fn trace_type_labels() {
    let labels: Vec<&str> = TraceType::ALL.iter().map(|t| t.label()).collect();
    assert_eq!(labels, vec!["Off", "char", "u32", "i32", "f32", "I16F16"]);
}
