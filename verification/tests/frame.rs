use mndp_rs::{get_ipv4_packet, get_udp_packet, mndp_payload, EthernetFrame, MNDP_PORT};

fn udp(src_port: u16, dst_port: u16, payload: &[u8]) -> Vec<u8> {
    let mut out = src_port.to_be_bytes().to_vec();
    out.extend_from_slice(&dst_port.to_be_bytes());
    out.extend_from_slice(&((8 + payload.len()) as u16).to_be_bytes());
    out.extend_from_slice(&[0, 0]);
    out.extend_from_slice(payload);
    out
}

fn ipv4(protocol: u8, body: &[u8]) -> Vec<u8> {
    let total = (20 + body.len()) as u16;
    let mut out = vec![0x45, 0];
    out.extend_from_slice(&total.to_be_bytes());
    out.extend_from_slice(&[0, 0, 0, 0, 64, protocol, 0, 0]);
    out.extend_from_slice(&[192, 168, 88, 1]);
    out.extend_from_slice(&[255, 255, 255, 255]);
    out.extend_from_slice(body);
    out
}

fn ethernet(ethertype: u16, body: &[u8]) -> Vec<u8> {
    let mut out = vec![0xff; 6];
    out.extend_from_slice(&[0x4c, 0x5e, 0x0c, 0x11, 0x22, 0x33]);
    out.extend_from_slice(&ethertype.to_be_bytes());
    out.extend_from_slice(body);
    out
}

#[test]
fn picks_the_mndp_datagram() {
    let payload = [1, 0, 0, 0, 0, 5, 0, 1, b'x'];
    let frame = ethernet(0x0800, &ipv4(17, &udp(5678, MNDP_PORT, &payload)));
    assert_eq!(mndp_payload(&frame), Some(payload.to_vec()));
}

#[test]
fn other_traffic_is_passed_over() {
    let payload = [1, 2, 3];
    assert_eq!(mndp_payload(&ethernet(0x86dd, &ipv4(17, &udp(1, MNDP_PORT, &payload)))), None);
    assert_eq!(mndp_payload(&ethernet(0x0800, &ipv4(6, &udp(1, MNDP_PORT, &payload)))), None);
    assert_eq!(mndp_payload(&ethernet(0x0800, &ipv4(17, &udp(1, 53, &payload)))), None);
    assert_eq!(mndp_payload(&[0u8; 13]), None);
    assert_eq!(mndp_payload(&ethernet(0x0800, &[0x45; 19])), None);
    assert_eq!(mndp_payload(&ethernet(0x0800, &ipv4(17, &[0, 1, 0x16]))), None);
}

#[test]
fn ethernet_header_fields() {
    let frame = ethernet(0x0806, &[7, 8, 9]);
    let e = EthernetFrame::new(&frame).unwrap();
    assert_eq!(e.ethertype, 0x0806);
    assert_eq!(e.payload, vec![7, 8, 9]);
    assert!(EthernetFrame::new(&frame[..13]).is_none());
    assert_eq!(EthernetFrame::new(&frame[..14]).unwrap().payload, Vec::<u8>::new());
}

#[test]
fn ipv4_packet_of_a_frame() {
    let frame = ethernet(0x0800, &ipv4(17, &udp(5678, 5678, &[4, 2])));
    let e = EthernetFrame::new(&frame).unwrap();
    let ip = get_ipv4_packet(&e).unwrap();
    assert_eq!(ip.next_level_protocol, 17);
    assert_eq!(ip.source, [192, 168, 88, 1]);
    assert_eq!(ip.destination, [255, 255, 255, 255]);
    assert_eq!(ip.payload, udp(5678, 5678, &[4, 2]));
    let udp_packet = get_udp_packet(&ip).unwrap();
    assert_eq!(udp_packet.source, 5678);
    assert_eq!(udp_packet.destination, 5678);
    assert_eq!(udp_packet.payload, vec![4, 2]);
}

#[test]
fn ipv4_payload_is_bounded_by_total_length() {
    let mut packet = ipv4(17, &[1, 2, 3, 4, 5, 6, 7, 8, 9, 10]);
    packet[3] = 24; // total length: header and four bytes
    let e = EthernetFrame::new(&ethernet(0x0800, &packet)).unwrap();
    let ip = get_ipv4_packet(&e).unwrap();
    assert_eq!(ip.payload, vec![1, 2, 3, 4]);
}

#[test]
fn ipv4_payload_skips_options() {
    let mut packet = ipv4(17, &[0, 0, 0, 0, 9, 9]);
    packet[0] = 0x46; // a header of six words: four option bytes
    let e = EthernetFrame::new(&ethernet(0x0800, &packet)).unwrap();
    let ip = get_ipv4_packet(&e).unwrap();
    assert_eq!(ip.payload, vec![9, 9]);
}

#[test]
fn not_ipv4_or_not_udp_is_an_error() {
    let e = EthernetFrame::new(&ethernet(0x0806, &ipv4(17, &[]))).unwrap();
    assert_eq!(get_ipv4_packet(&e), Err(()));
    let e = EthernetFrame::new(&ethernet(0x0800, &ipv4(1, &udp(1, 2, &[])))).unwrap();
    let ip = get_ipv4_packet(&e).unwrap();
    assert_eq!(get_udp_packet(&ip), Err(()));
}
