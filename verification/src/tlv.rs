use vstd::prelude::*;

verus! {

/// The kind of an MNDP type-length-value record, named after its type code.
#[derive(Debug, Clone, Copy, PartialEq, Eq, Structural)]
pub enum MndpTlvType {
    MacAddress,
    Identity,
    Version,
    Platform,
    Uptime,
    SoftwareId,
    Board,
    Unpack,
    IPv6Address,
    InterfaceName,
    IPv4Address,
    Unknown(u16),
}

/// The record kind that a type code on the wire stands for.
pub open spec fn spec_tlv_type(code: u16) -> MndpTlvType {
    if code == 1 {
        MndpTlvType::MacAddress
    } else if code == 5 {
        MndpTlvType::Identity
    } else if code == 7 {
        MndpTlvType::Version
    } else if code == 8 {
        MndpTlvType::Platform
    } else if code == 10 {
        MndpTlvType::Uptime
    } else if code == 11 {
        MndpTlvType::SoftwareId
    } else if code == 12 {
        MndpTlvType::Board
    } else if code == 14 {
        MndpTlvType::Unpack
    } else if code == 15 {
        MndpTlvType::IPv6Address
    } else if code == 16 {
        MndpTlvType::InterfaceName
    } else if code == 17 {
        MndpTlvType::IPv4Address
    } else {
        MndpTlvType::Unknown(code)
    }
}

/// The type code that a record kind is written with.
pub open spec fn spec_tlv_code(ty: MndpTlvType) -> u16 {
    match ty {
        MndpTlvType::MacAddress => 1,
        MndpTlvType::Identity => 5,
        MndpTlvType::Version => 7,
        MndpTlvType::Platform => 8,
        MndpTlvType::Uptime => 10,
        MndpTlvType::SoftwareId => 11,
        MndpTlvType::Board => 12,
        MndpTlvType::Unpack => 14,
        MndpTlvType::IPv6Address => 15,
        MndpTlvType::InterfaceName => 16,
        MndpTlvType::IPv4Address => 17,
        MndpTlvType::Unknown(v) => v,
    }
}

impl From<u16> for MndpTlvType {
    fn from(v: u16) -> (ty: Self) {
        match v {
            1 => Self::MacAddress,
            5 => Self::Identity,
            7 => Self::Version,
            8 => Self::Platform,
            10 => Self::Uptime,
            11 => Self::SoftwareId,
            12 => Self::Board,
            14 => Self::Unpack,
            15 => Self::IPv6Address,
            16 => Self::InterfaceName,
            17 => Self::IPv4Address,
            _ => Self::Unknown(v),
        }
    }
}

impl vstd::std_specs::convert::FromSpecImpl<u16> for MndpTlvType {
    open spec fn obeys_from_spec() -> bool {
        true
    }

    open spec fn from_spec(v: u16) -> Self {
        spec_tlv_type(v)
    }
}

/// Every type code is read back from its kind: decoding a code and taking the
/// kind's code again gives the code that was read.
pub proof fn lemma_tlv_code_roundtrip(code: u16)
    ensures
        spec_tlv_code(spec_tlv_type(code)) == code,
{
}

/// Two different type codes never decode to the same record kind.
pub proof fn lemma_tlv_type_injective(a: u16, b: u16)
    requires
        spec_tlv_type(a) == spec_tlv_type(b),
    ensures
        a == b,
{
    lemma_tlv_code_roundtrip(a);
    lemma_tlv_code_roundtrip(b);
}

} // verus!
