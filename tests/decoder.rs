use itm_swo::{ITMParseError, ITMParser, ITMPortConvType, NUM_ITM_PORTS};

fn scenario_config() -> [Option<ITMPortConvType>; NUM_ITM_PORTS] {
    let mut conf = [None; NUM_ITM_PORTS];
    conf[0] = Some(ITMPortConvType::U32(0));
    conf[1] = Some(ITMPortConvType::I16F16(0));
    conf[2] = Some(ITMPortConvType::CHAR(0));
    conf
}

fn expect_err(r: Result<itm_swo::ITMConvValue, ITMParseError>) -> ITMParseError {
    match r {
        Ok(v) => panic!("expected an error, got a value on port {}", v.port),
        Err(e) => e,
    }
}

#[test]
fn mixed_port_scenario() {
    let mut p = ITMParser::new(scenario_config());

    for b in [0x03u8, 0x2A, 0x00, 0x00] {
        assert_eq!(expect_err(p.update(b)), ITMParseError::UnderfullPacket { addr: 0 });
    }
    let v = p.update(0x00).unwrap();
    assert_eq!(v.port, 0);
    assert_eq!(v.data.to_vec(), vec![ITMPortConvType::U32(42)]);

    assert_eq!(expect_err(p.update(0x0B)), ITMParseError::UnderfullPacket { addr: 1 });
    for b in [0x00u8, 0x00, 0x01] {
        assert_eq!(expect_err(p.update(b)), ITMParseError::UnderfullPacket { addr: 1 });
    }
    let v = p.update(0x00).unwrap();
    assert_eq!(v.port, 1);
    assert_eq!(v.data.to_vec(), vec![ITMPortConvType::I16F16(0x0001_0000)]);
    assert_eq!(v.data.get(0).unwrap().to_string(), "1");

    assert_eq!(expect_err(p.update(0x11)), ITMParseError::UnderfullPacket { addr: 2 });
    let v = p.update(0x41).unwrap();
    assert_eq!(v.port, 2);
    assert_eq!(v.data.to_vec(), vec![ITMPortConvType::CHAR(b'A')]);
    assert_eq!(v.data.get(0).unwrap().to_string(), "A");

    assert_eq!(expect_err(p.update(0x19)), ITMParseError::UnderfullPacket { addr: 3 });
    assert_eq!(expect_err(p.update(0x01)), ITMParseError::UnconfiguredPort { addr: 3 });
    assert_eq!(p.buffered_len(), 0);
}

#[test]
fn complete_packet_yields_one_value_per_width() {
    // Port 5, size code 11 (4 bytes), configured as characters: four values.
    let mut conf = [None; NUM_ITM_PORTS];
    conf[5] = Some(ITMPortConvType::CHAR(0));
    let mut p = ITMParser::new(conf);
    let header = (5u8 << 3) | 0x03;
    let mut decoded = 0;
    let mut last = None;
    for b in [header, b'w', b'x', b'y', b'z'] {
        if let Ok(v) = p.update(b) {
            decoded += 1;
            last = Some(v);
        }
    }
    assert_eq!(decoded, 1);
    let v = last.unwrap();
    assert_eq!(v.port, ((header >> 3) & 0x1F) as usize);
    assert_eq!(v.data.len(), 4);
    assert_eq!(
        v.data.to_vec(),
        vec![
            ITMPortConvType::CHAR(b'w'),
            ITMPortConvType::CHAR(b'x'),
            ITMPortConvType::CHAR(b'y'),
            ITMPortConvType::CHAR(b'z'),
        ]
    );
    assert_eq!(v.data.get(4), None);
    assert_eq!(p.buffered_len(), 0);
}

#[test]
fn two_byte_packet_of_characters() {
    let mut conf = [None; NUM_ITM_PORTS];
    conf[31] = Some(ITMPortConvType::CHAR(0));
    let mut p = ITMParser::new(conf);
    let header = (31u8 << 3) | 0x02;
    assert_eq!(expect_err(p.update(header)), ITMParseError::UnderfullPacket { addr: 31 });
    assert_eq!(expect_err(p.update(b'h')), ITMParseError::UnderfullPacket { addr: 31 });
    let v = p.update(b'i').unwrap();
    assert_eq!(v.port, 31);
    assert_eq!(v.data.to_vec(), vec![ITMPortConvType::CHAR(b'h'), ITMPortConvType::CHAR(b'i')]);
}

#[test]
fn drip_feed_matches_whole_packet() {
    let mut conf = [None; NUM_ITM_PORTS];
    conf[4] = Some(ITMPortConvType::I32(0));
    let bytes = (-123456i32).to_le_bytes();
    let header = (4u8 << 3) | 0x03;

    let mut p = ITMParser::new(conf);
    assert_eq!(expect_err(p.update(header)), ITMParseError::UnderfullPacket { addr: 4 });
    for b in &bytes[..3] {
        assert_eq!(expect_err(p.update(*b)), ITMParseError::UnderfullPacket { addr: 4 });
        assert!(p.buffered_len() <= 4);
    }
    let v = p.update(bytes[3]).unwrap();
    assert_eq!(v.port, 4);
    assert_eq!(v.data.to_vec(), vec![ITMPortConvType::I32(-123456)]);
    assert_eq!(v.data.get(0).unwrap().to_string(), "-123456");
}

#[test]
fn overflow_marker_empties_buffer() {
    let mut p = ITMParser::new(scenario_config());
    assert_eq!(expect_err(p.update(0x70)), ITMParseError::ITMOverflow);
    assert_eq!(p.buffered_len(), 0);
    // A new header is framed right after it.
    assert_eq!(expect_err(p.update(0x11)), ITMParseError::UnderfullPacket { addr: 2 });
    let v = p.update(b'Z').unwrap();
    assert_eq!(v.data.to_vec(), vec![ITMPortConvType::CHAR(b'Z')]);
}

#[test]
fn invalid_size_code_drops_header() {
    let mut p = ITMParser::new(scenario_config());
    // Port 2, size code 00.
    assert_eq!(expect_err(p.update(0x10)), ITMParseError::InvalidTracePacketSize { addr: 2 });
    assert_eq!(p.buffered_len(), 0);
    assert_eq!(expect_err(p.update(0x00)), ITMParseError::InvalidTracePacketSize { addr: 0 });
    assert_eq!(p.buffered_len(), 0);
}

#[test]
fn size_mismatch_is_reported() {
    // Port 0 is U32 (width 4) but the header declares 2 bytes.
    let mut p = ITMParser::new(scenario_config());
    assert_eq!(expect_err(p.update(0x02)), ITMParseError::UnderfullPacket { addr: 0 });
    assert_eq!(expect_err(p.update(0xAA)), ITMParseError::UnderfullPacket { addr: 0 });
    assert_eq!(expect_err(p.update(0xBB)), ITMParseError::TracePacketSizeMismatch { addr: 0 });
    assert_eq!(p.buffered_len(), 0);
}

#[test]
fn hardware_header_stalls_until_overrun() {
    let mut p = ITMParser::new(scenario_config());
    // Bit 2 set: a hardware-source header.
    for b in [0x05u8, 1, 2, 3, 4, 5] {
        assert_eq!(expect_err(p.update(b)), ITMParseError::UnsupportedHardwarePacket);
    }
    assert_eq!(p.buffered_len(), 6);
    assert_eq!(expect_err(p.update(0x11)), ITMParseError::ParseBufFull);
    assert_eq!(p.buffered_len(), 1);
    // The new byte is the header of the next packet.
    let v = p.update(b'q').unwrap();
    assert_eq!(v.port, 2);
    assert_eq!(v.data.to_vec(), vec![ITMPortConvType::CHAR(b'q')]);
    assert_eq!(p.buffered_len(), 0);
}

#[test]
fn port_lookup() {
    let p = ITMParser::new(scenario_config());
    assert_eq!(p.port_type(0), Some(ITMPortConvType::U32(0)));
    assert_eq!(p.port_type(2), Some(ITMPortConvType::CHAR(0)));
    assert_eq!(p.port_type(3), None);
    assert_eq!(p.port_type(32), None);
    assert_eq!(p.buffered_len(), 0);
}
