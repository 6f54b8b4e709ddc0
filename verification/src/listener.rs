use vstd::prelude::*;

use crate::frame::{mndp_payload, spec_mndp_payload};
use crate::model::{Device, DeviceView};
use crate::time::TimeSpan;
use crate::wire::{decode, spec_decode};

verus! {

/// How long discovery listens when nothing else is asked for, in seconds.
pub const DEFAULT_TIMEOUT_SECS: u64 = 20;

/// How long one round of a discovery stream listens, in milliseconds.
pub const STREAM_ROUND_MILLIS: u64 = 100;

/// Where and how long to listen for announcements.
#[derive(Debug, PartialEq, Clone)]
pub struct MndpConfig {
    /// The interface whose raw frames are captured; `None` listens on the
    /// UDP port of every interface.
    pub interface: Option<String>,
    pub timeout: TimeSpan,
    /// Set when raw frames of an interface were asked for.
    pub raw_socket: bool,
}

impl MndpConfig {
    /// Listens on the UDP port of every interface for 20 seconds.
    pub fn new() -> (c: Self)
        ensures
            c.interface is None,
            c.timeout == (TimeSpan { secs: DEFAULT_TIMEOUT_SECS, nanos: 0 }),
            !c.raw_socket,
    {
        MndpConfig { interface: None, timeout: TimeSpan::from_secs(DEFAULT_TIMEOUT_SECS), raw_socket: false }
    }
}

impl Default for MndpConfig {
    fn default() -> (c: Self)
        ensures
            c.interface is None,
            c.timeout == (TimeSpan { secs: DEFAULT_TIMEOUT_SECS, nanos: 0 }),
            !c.raw_socket,
    {
        Self::new()
    }
}

/// Listens for MNDP announcements as its configuration says.
#[derive(Debug)]
pub struct Listener {
    pub config: MndpConfig,
}

/// The source that one round of listening reads from.
#[derive(Debug, PartialEq, Clone)]
pub enum ListenMode {
    /// Raw Ethernet frames captured on the named interface.
    RawSocket(String),
    /// UDP datagrams on the MNDP port of every interface.
    Udp,
}

/// One round of listening: where to listen and for how long.
#[derive(Debug, PartialEq, Clone)]
pub struct ListenRound {
    pub mode: ListenMode,
    pub timeout: TimeSpan,
}

/// The source that a configuration asks for.
pub open spec fn spec_mode(config: MndpConfig) -> ListenMode {
    match config.interface {
        Some(name) => ListenMode::RawSocket(name),
        None => ListenMode::Udp,
    }
}

/// Whether a discovery stream configured by `config` still listens once
/// `elapsed` has passed since it started.
pub open spec fn stream_continues(config: MndpConfig, elapsed: TimeSpan) -> bool {
    elapsed.total_nanos() < config.timeout.total_nanos()
}

/// A discovery stream that has stopped stays stopped: once no round is left
/// at some moment, none is left at any later moment.
pub proof fn lemma_stream_stops_for_good(config: MndpConfig, earlier: TimeSpan, later: TimeSpan)
    requires
        earlier.total_nanos() <= later.total_nanos(),
        !stream_continues(config, earlier),
    ensures
        !stream_continues(config, later),
{
}

impl Listener {
    pub fn new(config: MndpConfig) -> (l: Self)
        ensures
            l.config == config,
    {
        Self { config }
    }

    fn mode(&self) -> (m: ListenMode)
        ensures
            m == spec_mode(self.config),
    {
        match &self.config.interface {
            Some(name) => ListenMode::RawSocket(name.clone()),
            None => ListenMode::Udp,
        }
    }

    /// The single round that `discover` listens for: the configured source,
    /// for the whole configured timeout.
    pub fn discovery_round(&self) -> (r: ListenRound)
        ensures
            r.mode == spec_mode(self.config),
            r.timeout == self.config.timeout,
    {
        ListenRound { mode: self.mode(), timeout: self.config.timeout }
    }

    /// The next round of a discovery stream that started `elapsed` ago:
    /// `None` once the configured timeout has run out, else a short round on
    /// the configured source.
    pub fn stream_round(&self, elapsed: TimeSpan) -> (r: Option<ListenRound>)
        ensures
            !stream_continues(self.config, elapsed) ==> r is None,
            stream_continues(self.config, elapsed) ==> {
                &&& r is Some
                &&& r->0.mode == spec_mode(self.config)
                &&& r->0.timeout.total_nanos() == STREAM_ROUND_MILLIS * 1_000_000
                &&& r->0.timeout.wf()
            },
    {
        if elapsed.at_least(&self.config.timeout) {
            None
        } else {
            Some(ListenRound { mode: self.mode(), timeout: TimeSpan::from_millis(STREAM_ROUND_MILLIS) })
        }
    }
}

/// What one attempt to receive gave.
#[derive(Debug, PartialEq, Clone)]
pub enum Receipt {
    /// The payload of a UDP datagram received on the MNDP port.
    Datagram(Vec<u8>),
    /// A raw Ethernet frame captured on an interface.
    Frame(Vec<u8>),
    /// Nothing arrived and the socket would block.
    WouldBlock,
    /// Nothing arrived within the read timeout.
    TimedOut,
    /// Receiving failed for another reason.
    OtherError,
}

/// The devices announced so far during one round of listening.
pub struct Collector {
    devices: Vec<Device>,
}

/// The views of a sequence of devices.
pub open spec fn devices_view(devices: Seq<Device>) -> Seq<DeviceView> {
    devices.map_values(|d: Device| d@)
}

/// The devices after one more MNDP datagram: the device it describes is
/// added where it decodes, and nothing changes where it does not.
pub open spec fn after_datagram(devices: Seq<DeviceView>, payload: Seq<u8>) -> Seq<DeviceView> {
    match spec_decode(payload) {
        Ok(d) => devices.push(d),
        Err(_) => devices,
    }
}

/// The devices after one more captured frame: only frames that carry an
/// MNDP datagram count.
pub open spec fn after_frame(devices: Seq<DeviceView>, frame: Seq<u8>) -> Seq<DeviceView> {
    match spec_mndp_payload(frame) {
        Some(payload) => after_datagram(devices, payload),
        None => devices,
    }
}

/// Every announcement that decodes is kept, whatever was heard before it:
/// the list grows by exactly one, what was there stays as it was, and the new
/// last device is the decoded one. Two announcements that both decode are
/// both kept, in arrival order, even when they describe equal devices.
pub proof fn lemma_datagram_appends(devices: Seq<DeviceView>, payload: Seq<u8>, d: DeviceView)
    requires
        spec_decode(payload) == Ok::<DeviceView, crate::wire::DecodeError>(d),
    ensures
        after_datagram(devices, payload).len() == devices.len() + 1,
        after_datagram(devices, payload).last() == d,
        forall|i: int| 0 <= i < devices.len() ==> after_datagram(devices, payload)[i] == devices[i],
{
}

/// An announcement that does not decode leaves the list as it was.
pub proof fn lemma_bad_datagram_ignored(devices: Seq<DeviceView>, payload: Seq<u8>)
    requires
        spec_decode(payload) is Err,
    ensures
        after_datagram(devices, payload) == devices,
{
}

/// A round that hears two announcements that both decode, one after the
/// other, ends with both devices after what it held before, in arrival order.
pub proof fn lemma_two_datagrams_kept(
    devices: Seq<DeviceView>,
    p1: Seq<u8>,
    d1: DeviceView,
    p2: Seq<u8>,
    d2: DeviceView,
)
    requires
        spec_decode(p1) == Ok::<DeviceView, crate::wire::DecodeError>(d1),
        spec_decode(p2) == Ok::<DeviceView, crate::wire::DecodeError>(d2),
    ensures
        after_datagram(after_datagram(devices, p1), p2).len() == devices.len() + 2,
        after_datagram(after_datagram(devices, p1), p2)[devices.len() as int] == d1,
        after_datagram(after_datagram(devices, p1), p2)[devices.len() as int + 1] == d2,
{
    lemma_datagram_appends(devices, p1, d1);
    lemma_datagram_appends(after_datagram(devices, p1), p2, d2);
}

impl View for Collector {
    type V = Seq<DeviceView>;

    closed spec fn view(&self) -> Seq<DeviceView> {
        devices_view(self.devices@)
    }
}

impl Collector {
    pub fn new() -> (c: Self)
        ensures
            c@ == Seq::<DeviceView>::empty(),
    {
        let c = Collector { devices: Vec::new() };
        assert(c@ =~= Seq::<DeviceView>::empty());
        c
    }

    /// The number of devices collected so far.
    pub fn len(&self) -> (n: usize)
        ensures
            n == self@.len(),
    {
        self.devices.len()
    }

    /// The devices collected so far, in the order they arrived.
    pub fn devices(&self) -> (v: &Vec<Device>)
        ensures
            devices_view(v@) == self@,
    {
        &self.devices
    }

    /// Takes in one MNDP datagram.
    pub fn on_datagram(&mut self, payload: &[u8])
        ensures
            final(self)@ == after_datagram(old(self)@, payload@),
    {
        match decode(payload) {
            Ok(device) => {
                let ghost before = self.devices@;
                self.devices.push(device);
                assert(devices_view(self.devices@) =~= devices_view(before).push(device@));
            },
            Err(_) => {},
        }
    }

    /// Takes in one captured Ethernet frame.
    pub fn on_frame(&mut self, frame: &[u8])
        ensures
            final(self)@ == after_frame(old(self)@, frame@),
    {
        match mndp_payload(frame) {
            Some(payload) => self.on_datagram(payload.as_slice()),
            None => {},
        }
    }

    /// Takes in what one attempt to receive gave, and says whether the round
    /// is over: it is when nothing more arrived in time; other failures are
    /// passed over.
    pub fn step(&mut self, receipt: Receipt) -> (done: bool)
        ensures
            done == (receipt is WouldBlock || receipt is TimedOut),
            final(self)@ == match receipt {
                Receipt::Datagram(p) => after_datagram(old(self)@, p@),
                Receipt::Frame(f) => after_frame(old(self)@, f@),
                _ => old(self)@,
            },
    {
        match receipt {
            Receipt::Datagram(p) => {
                self.on_datagram(p.as_slice());
                false
            },
            Receipt::Frame(f) => {
                self.on_frame(f.as_slice());
                false
            },
            Receipt::WouldBlock | Receipt::TimedOut => true,
            Receipt::OtherError => false,
        }
    }

    /// Ends the round: `None` when no device was heard, else every device in
    /// the order it arrived.
    pub fn finish(self) -> (r: Option<Vec<Device>>)
        ensures
            self@.len() == 0 ==> r is None,
            self@.len() > 0 ==> r is Some && devices_view(r->0@) == self@,
    {
        if self.devices.len() == 0 {
            None
        } else {
            Some(self.devices)
        }
    }
}

} // verus!
