use buzzkill::pipeline::{process_hci_packet, process_hci_packet_at, process_wifi_frame_at};
use buzzkill::remoteid::decode::DroneIdMessage;
use buzzkill::tracker::Tracker;

fn odid_ad(counter: u8, msg0: u8, msg1: u8) -> Vec<u8> {
    let mut s = vec![30, 0x16, 0xFA, 0xFF, 0x0D, counter];
    let mut msg = [0u8; 25];
    msg[0] = msg0;
    msg[1] = msg1;
    msg[2..6].copy_from_slice(b"DRN1");
    s.extend_from_slice(&msg);
    s
}

fn hci_packet(addr: [u8; 6], data: &[u8], rssi: i8) -> Vec<u8> {
    let mut p = vec![0x04, 0x3E, 0x00, 0x02, 0x01, 0x00, 0x01];
    p.extend_from_slice(&addr);
    p.push(data.len() as u8);
    p.extend_from_slice(data);
    p.push(rssi as u8);
    p[2] = (p.len() - 3) as u8;
    p
}

#[test]
fn hci_packet_reaches_the_tracker() {
    let mut t = Tracker::new(60);
    let mut data = vec![0x02, 0x01, 0x06];
    data.extend(odid_ad(5, 0x02, 0x12));
    let pkt = hci_packet([9, 8, 7, 6, 5, 4], &data, -55);
    let out = process_hci_packet_at(&mut t, 1234, &pkt);
    assert_eq!(out.len(), 1);
    assert!(out[0].is_new);
    assert_eq!(out[0].transport, "ble");
    assert_eq!(out[0].mac, [9, 8, 7, 6, 5, 4]);
    assert_eq!(out[0].rssi, -55);
    assert_eq!(out[0].addr_type, Some(1));
    assert_eq!(out[0].counter, 5);
    match &out[0].message {
        DroneIdMessage::BasicId(b) => assert_eq!(b.ua_id, "DRN1"),
        other => panic!("Expected BasicId, got {:?}", other),
    }
    assert_eq!(t.get(&[9, 8, 7, 6, 5, 4]).unwrap().last_seen_ns, 1234);
    // the same packet again: a known drone, and its repeated counter is dropped
    let again = process_hci_packet_at(&mut t, 2000, &pkt);
    assert_eq!(again.len(), 1);
    assert!(!again[0].is_new);
    assert_eq!(t.get(&[9, 8, 7, 6, 5, 4]).unwrap().msg_count, 1);
    // without the packet indicator the event parses the same
    let out = process_hci_packet_at(&mut t, 3000, &pkt[1..]);
    assert_eq!(out.len(), 1);
}

#[test]
fn short_and_unrelated_packets_yield_nothing() {
    let mut t = Tracker::new(60);
    assert!(process_hci_packet(&mut t, &[0x04]).is_empty());
    assert!(process_hci_packet(&mut t, &[0x04, 0x0E, 0x01, 0x00]).is_empty());
    let pkt = hci_packet([1; 6], &[0x02, 0x01, 0x06], -40);
    assert!(process_hci_packet(&mut t, &pkt).is_empty());
    assert!(t.drones().is_empty());
}

#[test]
fn wifi_frame_reaches_the_tracker() {
    let mut t = Tracker::new(60);
    let mut f = vec![0u8, 0, 9, 0, 0x20, 0, 0, 0, (-61i8) as u8];
    let mut hdr = [0u8; 24];
    hdr[0] = 0x80;
    hdr[10..16].copy_from_slice(&[0xA, 0xB, 0xC, 0xD, 0xE, 0xF]);
    f.extend_from_slice(&hdr);
    f.extend_from_slice(&[0u8; 12]);
    let mut ie = vec![0xDD, 30, 0xFA, 0x0B, 0xBC, 0x0D, 3];
    let mut msg = [0u8; 25];
    msg[0] = 0x12;
    ie.extend_from_slice(&msg);
    f.extend(ie);
    let out = process_wifi_frame_at(&mut t, 77, &f);
    assert_eq!(out.len(), 1);
    assert_eq!(out[0].transport, "wifi");
    assert_eq!(out[0].addr_type, None);
    assert_eq!(out[0].rssi, -61);
    assert!(out[0].is_new);
    assert!(matches!(out[0].message, DroneIdMessage::Location(_)));
    assert_eq!(t.get(&[0xA, 0xB, 0xC, 0xD, 0xE, 0xF]).unwrap().transport, "wifi");
    assert!(process_wifi_frame_at(&mut t, 78, &f[..30]).is_empty());
}
