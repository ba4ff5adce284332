use buzzkill::remoteid::decode::{decode_message, DroneIdMessage};
use buzzkill::tracker::{expiry_due, Tracker};

fn basic_id(serial: &[u8]) -> DroneIdMessage {
    let mut msg = [0u8; 25];
    msg[0] = 0x02;
    msg[1] = 0x12;
    msg[2..2 + serial.len()].copy_from_slice(serial);
    decode_message(&msg)
}

fn location(lat_e7: i32) -> DroneIdMessage {
    let mut msg = [0u8; 25];
    msg[0] = 0x12;
    msg[5..9].copy_from_slice(&lat_e7.to_le_bytes());
    decode_message(&msg)
}

const A: [u8; 6] = [1, 1, 1, 1, 1, 1];
const B: [u8; 6] = [2, 2, 2, 2, 2, 2];

#[test]
fn first_message_announces_a_new_drone() {
    let mut t = Tracker::new(60);
    assert!(t.update_at(1000, &A, -50, 1, &basic_id(b"S1"), "ble"));
    assert!(!t.update_at(2000, &A, -40, 2, &location(10), "ble"));
    assert!(t.update_at(2500, &B, -60, 1, &location(20), "wifi"));
    let a = t.get(&A).unwrap();
    assert_eq!(a.first_seen_ns, 1000);
    assert_eq!(a.last_seen_ns, 2000);
    assert_eq!(a.rssi, -40);
    assert_eq!(a.msg_count, 2);
    assert_eq!(a.last_counter, Some(2));
    assert_eq!(a.transport, "ble");
    assert_eq!(a.basic_id.as_ref().unwrap().ua_id, "S1");
    assert_eq!(a.location.unwrap().latitude_e7, 10);
    let b = t.get(&B).unwrap();
    assert_eq!(b.transport, "wifi");
    assert_eq!(b.msg_count, 1);
    assert!(b.basic_id.is_none());
    assert_eq!(t.drones().len(), 2);
}

#[test]
fn repeated_counter_is_dropped() {
    let mut t = Tracker::new(60);
    t.update_at(1000, &A, -50, 7, &basic_id(b"S1"), "ble");
    assert!(!t.update_at(5000, &A, -10, 7, &location(99), "ble"));
    let a = t.get(&A).unwrap();
    assert_eq!(a.msg_count, 1);
    assert_eq!(a.last_seen_ns, 1000);
    assert_eq!(a.rssi, -50);
    assert!(a.location.is_none());
    // a different counter is accepted again
    t.update_at(6000, &A, -20, 8, &location(99), "ble");
    assert_eq!(t.get(&A).unwrap().msg_count, 2);
}

#[test]
fn expiry_removes_silent_drones_only() {
    let mut t = Tracker::new(60);
    t.update_at(0, &A, -50, 1, &basic_id(b"S1"), "ble");
    t.update_at(30_000_000_000, &B, -50, 1, &basic_id(b"S2"), "ble");
    // exactly 60 s (in nanoseconds) of silence is still within the window
    assert!(t.expire_at(60_000_000_000).is_empty());
    let lost = t.expire_at(60_000_000_001);
    assert_eq!(lost, vec![A]);
    assert!(t.get(&A).is_none());
    assert!(t.get(&B).is_some());
    // expiring again at the same time loses nothing more
    assert!(t.expire_at(60_000_000_001).is_empty());
    // a clock reading before the last message counts as no silence
    let mut t2 = Tracker::new(0);
    t2.update_at(500, &A, -50, 1, &basic_id(b"S1"), "ble");
    assert!(t2.expire_at(100).is_empty());
    assert_eq!(t2.expire_at(501).len(), 1);
}

#[test]
fn take_expired_hands_back_lost_states() {
    let mut t = Tracker::new(10);
    t.update_at(0, &A, -40, 1, &basic_id(b"S1"), "ble");
    t.update_at(5_000_000_000, &B, -60, 1, &basic_id(b"S2"), "wifi");
    let lost = t.take_expired_at(10_000_000_001);
    assert_eq!(lost.len(), 1);
    assert_eq!(lost[0].mac, A);
    assert_eq!(lost[0].rssi, -40);
    assert_eq!(lost[0].msg_count, 1);
    assert!(t.get(&A).is_none());
    assert!(t.get(&B).is_some());
    let mut t2 = Tracker::new(3600);
    t2.update(&A, -50, 1, &basic_id(b"S1"), "ble");
    assert!(t2.take_expired().is_empty());
    assert!(t2.get(&A).is_some());
}

#[test]
fn just_heard_drone_survives_expiry() {
    let mut t = Tracker::new(0);
    t.update_at(9000, &A, -50, 1, &basic_id(b"S1"), "ble");
    assert!(t.expire_at(9000).is_empty());
}

#[test]
fn recency_order_lists_most_recent_first() {
    let mut t = Tracker::new(60);
    t.update_at(100, &A, -50, 1, &basic_id(b"S1"), "ble");
    t.update_at(300, &B, -50, 1, &basic_id(b"S2"), "ble");
    let c = [3u8; 6];
    t.update_at(200, &c, -50, 1, &basic_id(b"S3"), "ble");
    let order = t.recency_order();
    let macs: Vec<[u8; 6]> = order.iter().map(|&i| t.drones()[i].mac).collect();
    assert_eq!(macs, vec![B, c, A]);
}

#[test]
fn clock_driven_update_and_expire() {
    let mut t = Tracker::new(3600);
    assert!(t.update(&A, -50, 1, &basic_id(b"S1"), "ble"));
    assert!(!t.update(&A, -50, 2, &basic_id(b"S1"), "ble"));
    assert!(t.expire().is_empty());
    assert_eq!(t.get(&A).unwrap().msg_count, 2);
    assert!(t.clock_ns() >= t.get(&A).unwrap().last_seen_ns);
}

#[test]
fn expiry_runs_every_five_seconds() {
    assert!(!expiry_due(0));
    assert!(!expiry_due(4));
    assert!(expiry_due(5));
    assert!(expiry_due(60));
}
