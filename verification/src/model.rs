use vstd::prelude::*;

use crate::time::TimeSpan;
use crate::tlv::MndpTlvType;

verus! {

/// The value carried by one MNDP record.
#[derive(Debug, Clone, PartialEq, Eq)]
pub enum MndpValue {
    Mac([u8; 6]),
    String(String),
    Uptime(TimeSpan),
    Ipv4([u8; 4]),
    Ipv6([u8; 16]),
    Bytes(Vec<u8>),
}

/// One decoded record: its kind and its value.
#[derive(Debug, Clone, PartialEq, Eq)]
pub struct MndpPart {
    pub ty: MndpTlvType,
    pub value: MndpValue,
}

/// A decoded MNDP datagram: its sequence number and its records in order.
#[derive(Debug, Clone, PartialEq, Eq)]
pub struct MndpPacket {
    pub seq_no: u32,
    pub parts: Vec<MndpPart>,
}

/// What one announcing device says about itself.
#[derive(Debug, Clone, PartialEq, Eq)]
pub struct Device {
    pub identity: String,
    pub mac_address: [u8; 6],
    pub version: String,
    pub platform: String,
    pub uptime: TimeSpan,
    pub software_id: String,
    pub board: String,
    pub unpack: Vec<u8>,
    pub ipv6_address: [u8; 16],
    pub interface_name: String,
    pub ipv4_address: [u8; 4],
}

/// The mathematical value of an [`MndpValue`].
pub enum MndpValueView {
    Mac(Seq<u8>),
    String(Seq<char>),
    Uptime(TimeSpan),
    Ipv4(Seq<u8>),
    Ipv6(Seq<u8>),
    Bytes(Seq<u8>),
}

/// The mathematical value of an [`MndpPart`].
pub struct MndpPartView {
    pub ty: MndpTlvType,
    pub value: MndpValueView,
}

/// The mathematical value of an [`MndpPacket`].
pub struct MndpPacketView {
    pub seq_no: u32,
    pub parts: Seq<MndpPartView>,
}

/// The mathematical value of a [`Device`].
pub struct DeviceView {
    pub identity: Seq<char>,
    pub mac_address: Seq<u8>,
    pub version: Seq<char>,
    pub platform: Seq<char>,
    pub uptime: TimeSpan,
    pub software_id: Seq<char>,
    pub board: Seq<char>,
    pub unpack: Seq<u8>,
    pub ipv6_address: Seq<u8>,
    pub interface_name: Seq<char>,
    pub ipv4_address: Seq<u8>,
}

impl View for MndpValue {
    type V = MndpValueView;

    open spec fn view(&self) -> MndpValueView {
        match self {
            MndpValue::Mac(m) => MndpValueView::Mac(m@),
            MndpValue::String(s) => MndpValueView::String(s@),
            MndpValue::Uptime(t) => MndpValueView::Uptime(*t),
            MndpValue::Ipv4(a) => MndpValueView::Ipv4(a@),
            MndpValue::Ipv6(a) => MndpValueView::Ipv6(a@),
            MndpValue::Bytes(b) => MndpValueView::Bytes(b@),
        }
    }
}

impl View for MndpPart {
    type V = MndpPartView;

    open spec fn view(&self) -> MndpPartView {
        MndpPartView { ty: self.ty, value: self.value@ }
    }
}

impl View for MndpPacket {
    type V = MndpPacketView;

    open spec fn view(&self) -> MndpPacketView {
        MndpPacketView { seq_no: self.seq_no, parts: self.parts@.map_values(|p: MndpPart| p@) }
    }
}

impl View for Device {
    type V = DeviceView;

    open spec fn view(&self) -> DeviceView {
        DeviceView {
            identity: self.identity@,
            mac_address: self.mac_address@,
            version: self.version@,
            platform: self.platform@,
            uptime: self.uptime,
            software_id: self.software_id@,
            board: self.board@,
            unpack: self.unpack@,
            ipv6_address: self.ipv6_address@,
            interface_name: self.interface_name@,
            ipv4_address: self.ipv4_address@,
        }
    }
}

/// The device that nothing has been learned about yet. Its IPv6 address is
/// `6::` (first 16-bit group 6, all others 0); every other field is empty or zero.
pub open spec fn default_device() -> DeviceView {
    DeviceView {
        identity: Seq::empty(),
        mac_address: seq![0u8, 0u8, 0u8, 0u8, 0u8, 0u8],
        version: Seq::empty(),
        platform: Seq::empty(),
        uptime: TimeSpan { secs: 0, nanos: 0 },
        software_id: Seq::empty(),
        board: Seq::empty(),
        unpack: Seq::empty(),
        ipv6_address: seq![0u8, 6u8, 0u8, 0u8, 0u8, 0u8, 0u8, 0u8, 0u8, 0u8, 0u8, 0u8, 0u8, 0u8, 0u8, 0u8],
        interface_name: Seq::empty(),
        ipv4_address: seq![0u8, 0u8, 0u8, 0u8],
    }
}

impl Device {
    /// The device that nothing has been learned about yet.
    pub fn new() -> (d: Self)
        ensures
            d@ == default_device(),
            d.uptime.wf(),
    {
        let d = Device {
            identity: String::new(),
            mac_address: [0u8, 0u8, 0u8, 0u8, 0u8, 0u8],
            version: String::new(),
            platform: String::new(),
            uptime: TimeSpan { secs: 0, nanos: 0 },
            software_id: String::new(),
            board: String::new(),
            unpack: Vec::new(),
            ipv6_address: [0u8, 6u8, 0u8, 0u8, 0u8, 0u8, 0u8, 0u8, 0u8, 0u8, 0u8, 0u8, 0u8, 0u8, 0u8, 0u8],
            interface_name: String::new(),
            ipv4_address: [0u8, 0u8, 0u8, 0u8],
        };
        assert(d.mac_address@ =~= seq![0u8, 0u8, 0u8, 0u8, 0u8, 0u8]);
        assert(d.ipv4_address@ =~= seq![0u8, 0u8, 0u8, 0u8]);
        assert(d.ipv6_address@ =~= seq![0u8, 6u8, 0u8, 0u8, 0u8, 0u8, 0u8, 0u8, 0u8, 0u8, 0u8, 0u8, 0u8, 0u8, 0u8, 0u8]);
        d
    }
}

impl Default for Device {
    fn default() -> (d: Self)
        ensures
            d@ == default_device(),
    {
        Self::new()
    }
}

impl From<MndpPacket> for Device {
    /// Converts a decoded packet into a device. No field of the packet is
    /// kept: the result is always the device that nothing is known about.
    fn from(packet: MndpPacket) -> (d: Self)
        ensures
            d@ == default_device(),
    {
        Device::new()
    }
}

// The conversion's result is pinned down by the `ensures` of `from` above, over
// the device's view; the trait's own form (equality with one exact value) is
// not used for it.
impl vstd::std_specs::convert::FromSpecImpl<MndpPacket> for Device {
    open spec fn obeys_from_spec() -> bool {
        false
    }

    open spec fn from_spec(v: MndpPacket) -> Self {
        vstd::pervasive::arbitrary()
    }
}

} // verus!
