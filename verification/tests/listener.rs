use mndp_rs::{Collector, ListenMode, ListenRound, Listener, MndpConfig, Receipt, TimeSpan};

fn datagram(identity: &[u8]) -> Vec<u8> {
    let mut out = vec![1, 0, 0, 0, 0, 5, 0, identity.len() as u8];
    out.extend_from_slice(identity);
    out
}

fn frame(payload: &[u8]) -> Vec<u8> {
    let mut udp = vec![0x16, 0x2e, 0x16, 0x2e];
    udp.extend_from_slice(&((8 + payload.len()) as u16).to_be_bytes());
    udp.extend_from_slice(&[0, 0]);
    udp.extend_from_slice(payload);
    let mut ip = vec![0x45, 0];
    ip.extend_from_slice(&((20 + udp.len()) as u16).to_be_bytes());
    ip.extend_from_slice(&[0, 0, 0, 0, 64, 17, 0, 0, 10, 0, 0, 1, 255, 255, 255, 255]);
    ip.extend_from_slice(&udp);
    let mut out = vec![0xff; 12];
    out.extend_from_slice(&[0x08, 0x00]);
    out.extend_from_slice(&ip);
    out
}

#[test]
fn config_defaults() {
    let c = MndpConfig::new();
    assert_eq!(c.interface, None);
    assert_eq!(c.timeout, TimeSpan::from_secs(20));
    assert!(!c.raw_socket);
    assert_eq!(MndpConfig::default(), c);
}

#[test]
fn listener_keeps_its_config() {
    let mut c = MndpConfig::new();
    c.timeout = TimeSpan::from_secs(10);
    let l = Listener::new(c.clone());
    assert_eq!(l.config, c);
}

#[test]
fn discovery_round_follows_the_config() {
    let mut c = MndpConfig::new();
    c.timeout = TimeSpan::from_secs(10);
    assert_eq!(Listener::new(c.clone()).discovery_round(), ListenRound { mode: ListenMode::Udp, timeout: TimeSpan::from_secs(10) });
    c.interface = Some("eth0".to_string());
    assert_eq!(Listener::new(c).discovery_round().mode, ListenMode::RawSocket("eth0".to_string()));
}

#[test]
fn stream_rounds_stop_at_the_timeout() {
    let mut c = MndpConfig::new();
    c.timeout = TimeSpan::from_secs(2);
    let l = Listener::new(c);
    let round = l.stream_round(TimeSpan { secs: 1, nanos: 999_999_999 }).unwrap();
    assert_eq!(round, ListenRound { mode: ListenMode::Udp, timeout: TimeSpan { secs: 0, nanos: 100_000_000 } });
    assert_eq!(l.stream_round(TimeSpan::from_secs(2)), None);
    assert_eq!(l.stream_round(TimeSpan { secs: 5, nanos: 1 }), None);
}

#[test]
fn time_span_arithmetic() {
    assert_eq!(TimeSpan::from_millis(1500), TimeSpan { secs: 1, nanos: 500_000_000 });
    assert!(TimeSpan::from_secs(1).at_least(&TimeSpan::from_millis(1000)));
    assert!(!TimeSpan::from_millis(999).at_least(&TimeSpan::from_secs(1)));
    assert!(TimeSpan { secs: 2, nanos: 0 }.at_least(&TimeSpan { secs: 1, nanos: 999_999_999 }));
}

#[test]
fn collector_keeps_decoded_devices_in_order() {
    let mut c = Collector::new();
    assert!(!c.step(Receipt::Datagram(datagram(b"one"))));
    assert!(!c.step(Receipt::Datagram(vec![1, 2])));
    assert!(!c.step(Receipt::OtherError));
    assert!(!c.step(Receipt::Frame(frame(&datagram(b"two")))));
    assert!(!c.step(Receipt::Frame(vec![0; 20])));
    assert_eq!(c.len(), 2);
    assert_eq!(c.devices()[1].identity, "two");
    assert!(c.step(Receipt::TimedOut));
    let devices = c.finish().unwrap();
    assert_eq!(devices.len(), 2);
    assert_eq!(devices[0].identity, "one");
    assert_eq!(devices[1].identity, "two");
}

#[test]
fn empty_round_finishes_with_none() {
    let mut c = Collector::new();
    assert!(c.step(Receipt::WouldBlock));
    assert_eq!(c.finish(), None);
}
