use buzzkill::output::message_line;
use buzzkill::remoteid::decode::decode_message;
use buzzkill::adapter::parse_adapter_index;
use buzzkill::email::DroneAlert;
use buzzkill::gps::{clock_label, compass_point};
use buzzkill::output::{format_mac, new_drone_line};

#[test]
fn mac_is_uppercase_hex_pairs() {
    assert_eq!(format_mac(&[0xAA, 0x0B, 0x00, 0x9f, 0x10, 0xFF]), "AA:0B:00:9F:10:FF");
    assert_eq!(format_mac(&[0; 6]), "00:00:00:00:00:00");
}

#[test]
fn new_drone_line_shows_address_kind() {
    let mac = [1, 2, 3, 4, 5, 6];
    assert_eq!(
        new_drone_line("ble", &mac, -64, Some(1)),
        "[+] NEW DRONE  [ble] mac=01:02:03:04:05:06 (random) rssi=-64dBm"
    );
    assert_eq!(
        new_drone_line("ble", &mac, 5, Some(0)),
        "[+] NEW DRONE  [ble] mac=01:02:03:04:05:06 (public) rssi=5dBm"
    );
    assert_eq!(
        new_drone_line("ble", &mac, -128, Some(7)),
        "[+] NEW DRONE  [ble] mac=01:02:03:04:05:06 (addr_type:7) rssi=-128dBm"
    );
    assert_eq!(
        new_drone_line("wifi", &mac, 0, None),
        "[+] NEW DRONE  [wifi] mac=01:02:03:04:05:06 rssi=0dBm"
    );
    assert!(new_drone_line("ble", &mac, -1, Some(2)).contains(" (public identity) "));
    assert!(new_drone_line("ble", &mac, -1, Some(3)).contains(" (random identity) "));
}

#[test]
fn adapter_names() {
    assert_eq!(parse_adapter_index("hci0"), Some(0));
    assert_eq!(parse_adapter_index("hci12"), Some(12));
    assert_eq!(parse_adapter_index("hci+3"), Some(3));
    assert_eq!(parse_adapter_index("hci007"), Some(7));
    assert_eq!(parse_adapter_index("hci65535"), Some(65535));
    assert_eq!(parse_adapter_index("hci65536"), None);
    assert_eq!(parse_adapter_index("hci"), None);
    assert_eq!(parse_adapter_index("hci+"), None);
    assert_eq!(parse_adapter_index("hci-1"), None);
    assert_eq!(parse_adapter_index("hci1a"), None);
    assert_eq!(parse_adapter_index("wlan0"), None);
    assert_eq!(parse_adapter_index("HCI0"), None);
    for n in [0u16, 9, 10, 99, 100, 4321, 65535] {
        assert_eq!(parse_adapter_index(&format!("hci{}", n)), Some(n));
    }
}

#[test]
fn compass_and_clock_names() {
    let names: Vec<&str> = (0..8).map(compass_point).collect();
    assert_eq!(names, vec!["N", "NE", "E", "SE", "S", "SW", "W", "NW"]);
    assert_eq!(compass_point(8), "N");
    assert_eq!(compass_point(13), "SW");
    assert_eq!(clock_label(0), "12:00");
    assert_eq!(clock_label(3), "3:00");
    assert_eq!(clock_label(11), "11:00");
    assert_eq!(clock_label(12), "12:00");
    assert_eq!(clock_label(13), "1:00");
}

#[test]
fn alert_text() {
    let alert = DroneAlert { transport: "wifi", mac: [0xDE, 0xAD, 0xBE, 0xEF, 0, 1], rssi: -71 };
    assert_eq!(alert.subject(), "Buzzkill: drone detected [DE:AD:BE:EF:00:01]");
    assert_eq!(
        alert.body(),
        "A drone has been detected.\n\nTransport: wifi\nMAC: DE:AD:BE:EF:00:01\nRSSI: -71 dBm\n"
    );
}

#[test]
fn plain_message_lines() {
    let mac = [0xAA, 0xBB, 0xCC, 0xDD, 0xEE, 0xFF];
    let mut msg = [0u8; 25];
    msg[0] = 0x02;
    msg[1] = 0x12;
    msg[2..6].copy_from_slice(b"SN01");
    assert_eq!(
        message_line("ble", &mac, &decode_message(&msg)).unwrap(),
        "  [BasicID]    [ble] mac=AA:BB:CC:DD:EE:FF id_type=SerialNumber ua_type=HelicopterOrMultirotor ua_id=\"SN01\""
    );
    let mut msg = [0u8; 25];
    msg[0] = 0x52;
    msg[2..5].copy_from_slice(b"OP9");
    assert_eq!(
        message_line("wifi", &mac, &decode_message(&msg)).unwrap(),
        "  [OperatorID] [wifi] mac=AA:BB:CC:DD:EE:FF operator_id=\"OP9\""
    );
    let mut msg = [0u8; 25];
    msg[0] = 0x32;
    msg[2..4].copy_from_slice(b"hi");
    assert_eq!(
        message_line("ble", &mac, &decode_message(&msg)).unwrap(),
        "  [SelfID]     [ble] mac=AA:BB:CC:DD:EE:FF desc=\"hi\""
    );
    let mut msg = [0u8; 25];
    msg[0] = 0x22;
    msg[1] = 0x02;
    assert_eq!(
        message_line("ble", &mac, &decode_message(&msg)).unwrap(),
        "  [Auth]       [ble] mac=AA:BB:CC:DD:EE:FF page=2/0"
    );
    let mut msg = [0u8; 25];
    msg[0] = 0xB7;
    assert_eq!(
        message_line("ble", &mac, &decode_message(&msg)).unwrap(),
        "  [Unknown]    [ble] mac=AA:BB:CC:DD:EE:FF msg_type=0xB proto_version=7"
    );
    let mut msg = [0u8; 25];
    msg[0] = 0x12;
    assert!(message_line("ble", &mac, &decode_message(&msg)).is_none());
    msg[0] = 0x42;
    assert!(message_line("ble", &mac, &decode_message(&msg)).is_none());
}
