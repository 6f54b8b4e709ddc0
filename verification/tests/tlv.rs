use mndp_rs::MndpTlvType;

#[test]
fn type_codes_name_their_kinds() {
    assert_eq!(MndpTlvType::from(1), MndpTlvType::MacAddress);
    assert_eq!(MndpTlvType::from(5), MndpTlvType::Identity);
    assert_eq!(MndpTlvType::from(7), MndpTlvType::Version);
    assert_eq!(MndpTlvType::from(8), MndpTlvType::Platform);
    assert_eq!(MndpTlvType::from(10), MndpTlvType::Uptime);
    assert_eq!(MndpTlvType::from(11), MndpTlvType::SoftwareId);
    assert_eq!(MndpTlvType::from(12), MndpTlvType::Board);
    assert_eq!(MndpTlvType::from(14), MndpTlvType::Unpack);
    assert_eq!(MndpTlvType::from(15), MndpTlvType::IPv6Address);
    assert_eq!(MndpTlvType::from(16), MndpTlvType::InterfaceName);
    assert_eq!(MndpTlvType::from(17), MndpTlvType::IPv4Address);
}

#[test]
fn other_type_codes_are_unknown() {
    for code in [0u16, 2, 3, 4, 6, 9, 13, 18, 0xffff] {
        assert_eq!(MndpTlvType::from(code), MndpTlvType::Unknown(code));
    }
}
