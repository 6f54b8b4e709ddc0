//! Decoding and collection logic for the MikroTik Neighbor Discovery
//! Protocol (MNDP): the wire format of announcements, the devices they
//! describe, the filter that finds them among captured Ethernet frames, the
//! bookkeeping of a listening round, and the command line of the `mndp` tool.

pub mod cli;
pub mod frame;
pub mod listener;
pub mod model;
pub mod time;
pub mod tlv;
pub mod wire;

pub use cli::{check_args, parse_args, parse_str_time, parse_u64, ArgsCheck};
pub use frame::{get_ipv4_packet, get_udp_packet, mndp_payload, EthernetFrame, Ipv4Datagram, UdpDatagram, MNDP_PORT};
pub use listener::{Collector, ListenMode, ListenRound, Listener, MndpConfig, Receipt};
pub use model::{Device, MndpPacket, MndpPart, MndpValue};
pub use time::TimeSpan;
pub use tlv::MndpTlvType;
pub use wire::{decode, decode_packet, read_record, read_u16_be, read_u32_le, DecodeError};
