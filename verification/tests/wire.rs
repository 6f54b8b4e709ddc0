use mndp_rs::{
    decode, decode_packet, read_record, read_u16_be, read_u32_le, DecodeError, Device, MndpPacket,
    MndpPart, MndpTlvType, MndpValue, TimeSpan,
};

fn record(code: u16, value: &[u8]) -> Vec<u8> {
    let mut out = code.to_be_bytes().to_vec();
    out.extend_from_slice(&(value.len() as u16).to_be_bytes());
    out.extend_from_slice(value);
    out
}

fn packet(seq: u32, records: &[Vec<u8>]) -> Vec<u8> {
    let mut out = seq.to_le_bytes().to_vec();
    for r in records {
        out.extend_from_slice(r);
    }
    out
}

fn sample() -> Vec<u8> {
    let mut ipv6 = [0u8; 16];
    ipv6[0] = 0xfe;
    ipv6[1] = 0x80;
    ipv6[15] = 1;
    packet(
        7,
        &[
            record(1, &[0x4c, 0x5e, 0x0c, 0x11, 0x22, 0x33]),
            record(5, b"MikroTik"),
            record(7, b"6.49.7 (stable)"),
            record(8, b"MikroTik"),
            record(10, &3600u32.to_le_bytes()),
            record(11, b"ABCD-1234"),
            record(12, b"RB951G-2HnD"),
            record(14, &[1]),
            record(15, &ipv6),
            record(16, b"ether1"),
            record(17, &[192, 168, 88, 1]),
        ],
    )
}

#[test]
fn read_u16_be_reads_high_byte_first() {
    let buf = [0x12, 0x34, 0x56];
    let mut pos = 0;
    assert_eq!(read_u16_be(&buf, &mut pos), Ok(0x1234));
    assert_eq!(pos, 2);
    assert_eq!(read_u16_be(&buf, &mut pos), Err(DecodeError::UnexpectedEof));
    assert_eq!(pos, 3);
}

#[test]
fn read_u32_le_reads_low_byte_first() {
    let buf = [0x78, 0x56, 0x34, 0x12, 0xff];
    let mut pos = 0;
    assert_eq!(read_u32_le(&buf, &mut pos), Ok(0x1234_5678));
    assert_eq!(pos, 4);
    assert_eq!(read_u32_le(&buf, &mut pos), Err(DecodeError::UnexpectedEof));
    assert_eq!(pos, 5);
}

#[test]
fn read_record_reads_one_record() {
    let buf = record(5, b"abc");
    let (part, next) = read_record(&buf, 0).unwrap();
    assert_eq!(part, MndpPart { ty: MndpTlvType::Identity, value: MndpValue::String("abc".to_string()) });
    assert_eq!(next, 7);
    assert_eq!(read_record(&buf[..6], 0), Err(DecodeError::UnexpectedEof));
}

#[test]
fn decode_packet_reads_every_record() {
    let p = decode_packet(&sample()).unwrap();
    assert_eq!(p.seq_no, 7);
    assert_eq!(p.parts.len(), 11);
    assert_eq!(p.parts[0], MndpPart { ty: MndpTlvType::MacAddress, value: MndpValue::Mac([0x4c, 0x5e, 0x0c, 0x11, 0x22, 0x33]) });
    assert_eq!(p.parts[1].value, MndpValue::String("MikroTik".to_string()));
    assert_eq!(p.parts[4], MndpPart { ty: MndpTlvType::Uptime, value: MndpValue::Uptime(TimeSpan::from_secs(3600)) });
    assert_eq!(p.parts[7], MndpPart { ty: MndpTlvType::Unpack, value: MndpValue::Bytes(vec![1]) });
    assert_eq!(p.parts[10], MndpPart { ty: MndpTlvType::IPv4Address, value: MndpValue::Ipv4([192, 168, 88, 1]) });
}

#[test]
fn decode_fills_the_device() {
    let d = decode(&sample()).unwrap();
    assert_eq!(d.mac_address, [0x4c, 0x5e, 0x0c, 0x11, 0x22, 0x33]);
    assert_eq!(d.identity, "MikroTik");
    assert_eq!(d.version, "6.49.7 (stable)");
    assert_eq!(d.platform, "MikroTik");
    assert_eq!(d.uptime, TimeSpan::from_secs(3600));
    assert_eq!(d.software_id, "ABCD-1234");
    assert_eq!(d.board, "RB951G-2HnD");
    assert!(d.unpack.is_empty());
    assert_eq!(d.ipv6_address[..2], [0xfe, 0x80]);
    assert_eq!(d.interface_name, "ether1");
    assert_eq!(d.ipv4_address, [192, 168, 88, 1]);
}

#[test]
fn decode_keeps_the_last_record_of_a_kind() {
    let buf = packet(1, &[record(5, b"first"), record(5, b"second")]);
    assert_eq!(decode(&buf).unwrap().identity, "second");
}

#[test]
fn decode_agrees_with_decode_packet() {
    let buf = sample();
    let p = decode_packet(&buf).unwrap();
    let mut d = Device::new();
    for part in p.parts {
        match (part.ty, part.value) {
            (MndpTlvType::MacAddress, MndpValue::Mac(m)) => d.mac_address = m,
            (MndpTlvType::Identity, MndpValue::String(s)) => d.identity = s,
            (MndpTlvType::Version, MndpValue::String(s)) => d.version = s,
            (MndpTlvType::Platform, MndpValue::String(s)) => d.platform = s,
            (MndpTlvType::SoftwareId, MndpValue::String(s)) => d.software_id = s,
            (MndpTlvType::Board, MndpValue::String(s)) => d.board = s,
            (MndpTlvType::InterfaceName, MndpValue::String(s)) => d.interface_name = s,
            (MndpTlvType::Uptime, MndpValue::Uptime(t)) => d.uptime = t,
            (MndpTlvType::IPv4Address, MndpValue::Ipv4(a)) => d.ipv4_address = a,
            (MndpTlvType::IPv6Address, MndpValue::Ipv6(a)) => d.ipv6_address = a,
            _ => {}
        }
    }
    assert_eq!(decode(&buf).unwrap(), d);
}

#[test]
fn records_concatenate() {
    let a = [record(5, b"x"), record(17, &[10, 0, 0, 1])];
    let b = [record(99, &[1, 2, 3])];
    let pa = decode_packet(&packet(0, &a)).unwrap().parts;
    let pb = decode_packet(&packet(0, &b)).unwrap().parts;
    let both = decode_packet(&packet(0, &[a[0].clone(), a[1].clone(), b[0].clone()])).unwrap().parts;
    let mut expected = pa.clone();
    expected.extend(pb);
    assert_eq!(both, expected);
}

#[test]
fn empty_buffer() {
    assert_eq!(decode(&[]), Err(DecodeError::EmptyBuffer));
    assert_eq!(decode_packet(&[]), Err(DecodeError::UnexpectedEof));
}

#[test]
fn short_header() {
    assert_eq!(decode(&[1, 2, 3]), Err(DecodeError::UnexpectedEof));
    assert_eq!(decode_packet(&[1, 2, 3]), Err(DecodeError::UnexpectedEof));
}

#[test]
fn header_only_packet() {
    assert_eq!(decode_packet(&[9, 0, 0, 0]), Ok(MndpPacket { seq_no: 9, parts: vec![] }));
    assert_eq!(decode(&[9, 0, 0, 0]), Ok(Device::new()));
}

#[test]
fn truncated_record() {
    let mut buf = sample();
    buf.pop();
    assert_eq!(decode(&buf), Err(DecodeError::UnexpectedEof));
    assert_eq!(decode_packet(&buf), Err(DecodeError::UnexpectedEof));
    let partial_header = packet(0, &[vec![0, 5, 0]]);
    assert_eq!(decode_packet(&partial_header), Err(DecodeError::UnexpectedEof));
}

#[test]
fn fixed_size_records_ignore_their_length_field() {
    // A MAC record whose length field says 2 still takes six bytes.
    let mut buf = packet(0, &[]);
    buf.extend_from_slice(&[0, 1, 0, 2, 1, 2, 3, 4, 5, 6]);
    let p = decode_packet(&buf).unwrap();
    assert_eq!(p.parts, vec![MndpPart { ty: MndpTlvType::MacAddress, value: MndpValue::Mac([1, 2, 3, 4, 5, 6]) }]);
}

#[test]
fn unknown_records_are_kept_as_bytes() {
    let buf = packet(3, &[record(200, &[9, 8])]);
    let p = decode_packet(&buf).unwrap();
    assert_eq!(p.parts, vec![MndpPart { ty: MndpTlvType::Unknown(200), value: MndpValue::Bytes(vec![9, 8]) }]);
    assert_eq!(decode(&buf).unwrap(), Device::new());
}

#[test]
fn invalid_utf8_is_replaced() {
    let buf = packet(0, &[record(5, &[b'a', 0xff, b'b'])]);
    assert_eq!(decode(&buf).unwrap().identity, "a\u{FFFD}b");
}

#[test]
fn device_defaults() {
    let d = Device::new();
    assert_eq!(d.identity, "");
    assert_eq!(d.mac_address, [0; 6]);
    assert_eq!(d.uptime, TimeSpan::from_secs(0));
    assert_eq!(d.ipv4_address, [0; 4]);
    let mut ipv6 = [0u8; 16];
    ipv6[1] = 6;
    assert_eq!(d.ipv6_address, ipv6);
    assert_eq!(Device::default(), d);
}

#[test]
fn device_from_packet_is_the_default_device() {
    let p = decode_packet(&sample()).unwrap();
    assert_eq!(Device::from(p), Device::new());
}
