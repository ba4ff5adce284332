use buzzkill::remoteid::decode::{
    decode_all, decode_message, extract_ascii_string, DroneIdMessage, IdType, MessageType, UaType,
};

#[test]
fn test_decode_basic_id_serial() {
    let mut msg = [0u8; 25];
    msg[0] = 0x02; // type=0 (BasicID), version=2
    msg[1] = 0x12; // id_type=1 (serial), ua_type=2 (helicopter/multirotor)
    let serial = b"1234567890ABCDEFGHIJ";
    msg[2..22].copy_from_slice(serial);

    match decode_message(&msg) {
        DroneIdMessage::BasicId(bid) => {
            assert_eq!(bid.id_type, IdType::SerialNumber);
            assert_eq!(bid.ua_type, UaType::HelicopterOrMultirotor);
            assert_eq!(bid.ua_id, "1234567890ABCDEFGHIJ");
        }
        other => panic!("Expected BasicId, got {:?}", other),
    }
}

#[test]
fn test_decode_location() {
    let mut msg = [0u8; 25];
    msg[0] = 0x12; // type=1 (Location), version=2
    msg[1] = 0x20; // status=2 (airborne), height_type=0, ew=0, speed_mult=0

    // direction
    msg[2] = 90; // 90 degrees

    // horizontal speed: 40 * 0.25 = 10.0 m/s
    msg[3] = 40;

    // vertical speed: 4 * 0.5 = 2.0 m/s
    msg[4] = 4;

    // latitude: 47.3977 degrees => 473977000
    let lat: i32 = 473977000;
    msg[5..9].copy_from_slice(&lat.to_le_bytes());

    // longitude: 8.5456 degrees => 85456000
    let lon: i32 = 85456000;
    msg[9..13].copy_from_slice(&lon.to_le_bytes());

    // altitude_pressure: 500m => (500 + 1000) / 0.5 = 3000
    let alt: u16 = 3000;
    msg[13..15].copy_from_slice(&alt.to_le_bytes());

    // altitude_geodetic: same
    msg[15..17].copy_from_slice(&alt.to_le_bytes());

    // height: 100m => (100 + 1000) / 0.5 = 2200
    let height: u16 = 2200;
    msg[17..19].copy_from_slice(&height.to_le_bytes());

    // timestamp: 1234 * 0.1 = 123.4s
    let ts: u16 = 1234;
    msg[21..23].copy_from_slice(&ts.to_le_bytes());

    match decode_message(&msg) {
        DroneIdMessage::Location(loc) => {
            let latitude = loc.latitude_e7 as f64 * 1e-7;
            let longitude = loc.longitude_e7 as f64 * 1e-7;
            let altitude_pressure = loc.altitude_pressure_half_m as f64 * 0.5;
            let height_above_takeoff = loc.height_above_takeoff_half_m as f64 * 0.5;
            let speed_horizontal = loc.speed_horizontal_quarter_ms as f64 * 0.25;
            let speed_vertical = loc.speed_vertical_half_ms as f64 * 0.5;
            let direction = loc.direction_deg as f64;
            let timestamp = loc.timestamp_tenths as f64 * 0.1;
            assert!((latitude - 47.3977).abs() < 0.0001);
            assert!((longitude - 8.5456).abs() < 0.0001);
            assert!((altitude_pressure - 500.0).abs() < 0.1);
            assert!((height_above_takeoff - 100.0).abs() < 0.1);
            assert!((speed_horizontal - 10.0).abs() < 0.1);
            assert!((speed_vertical - 2.0).abs() < 0.1);
            assert_eq!(direction, 90.0);
            assert!((timestamp - 123.4).abs() < 0.1);
        }
        other => panic!("Expected Location, got {:?}", other),
    }
}

#[test]
fn test_decode_operator_id() {
    let mut msg = [0u8; 25];
    msg[0] = 0x52; // type=5 (OperatorID), version=2
    msg[1] = 0x00; // operator_id_type
    let op_id = b"FIN87astrdge12k8\0\0\0\0";
    msg[2..22].copy_from_slice(op_id);

    match decode_message(&msg) {
        DroneIdMessage::OperatorId(oid) => {
            assert_eq!(oid.operator_id, "FIN87astrdge12k8");
        }
        other => panic!("Expected OperatorId, got {:?}", other),
    }
}

#[test]
fn test_decode_system() {
    let mut msg = [0u8; 25];
    msg[0] = 0x42; // type=4 (System), version=2
    msg[1] = 0x10; // classification_type=1

    // operator lat: 47.0 degrees => 470000000
    let lat: i32 = 470000000;
    msg[2..6].copy_from_slice(&lat.to_le_bytes());

    // operator lon: 8.0 degrees => 80000000
    let lon: i32 = 80000000;
    msg[6..10].copy_from_slice(&lon.to_le_bytes());

    // area_count
    msg[10..12].copy_from_slice(&1u16.to_le_bytes());
    // area_radius: 5 * 10 = 50m
    msg[12] = 5;

    match decode_message(&msg) {
        DroneIdMessage::System(sys) => {
            let operator_latitude = sys.operator_latitude_e7 as f64 * 1e-7;
            let operator_longitude = sys.operator_longitude_e7 as f64 * 1e-7;
            assert!((operator_latitude - 47.0).abs() < 0.001);
            assert!((operator_longitude - 8.0).abs() < 0.001);
            assert_eq!(sys.area_count, 1);
            assert_eq!(sys.area_radius, 50);
            assert_eq!(sys.classification_type, 1);
        }
        other => panic!("Expected System, got {:?}", other),
    }
}

#[test]
fn test_decode_self_id() {
    let mut msg = [0u8; 25];
    msg[0] = 0x32; // type=3 (SelfID), version=2
    msg[1] = 0x00; // description_type
    let desc = b"Photography flight\0\0\0\0\0";
    msg[2..25].copy_from_slice(desc);

    match decode_message(&msg) {
        DroneIdMessage::SelfId(sid) => {
            assert_eq!(sid.description, "Photography flight");
        }
        other => panic!("Expected SelfId, got {:?}", other),
    }
}

#[test]
fn location_extended_speed_and_east_direction() {
    let mut msg = [0u8; 25];
    msg[0] = 0x12;
    msg[1] = 0x23; // status 2, east/west bit set, speed multiplier set
    msg[2] = 10; // 10 + 180 degrees
    msg[3] = 100; // 100 * 0.75 + 63.75 m/s = (3*100 + 255) quarters
    msg[4] = 0xFC; // -4 * 0.5 m/s
    msg[13..15].copy_from_slice(&0u16.to_le_bytes()); // -1000 m
    match decode_message(&msg) {
        DroneIdMessage::Location(loc) => {
            assert_eq!(loc.status, 2);
            assert_eq!(loc.direction_deg, 190);
            assert_eq!(loc.speed_horizontal_quarter_ms, 555);
            assert_eq!(loc.speed_horizontal_quarter_ms as f64 * 0.25, 100.0 * 0.75 + 255.0 * 0.25);
            assert_eq!(loc.speed_vertical_half_ms, -4);
            assert_eq!(loc.altitude_pressure_half_m, -2000);
            assert_eq!(loc.latitude_e7, 0);
        }
        other => panic!("Expected Location, got {:?}", other),
    }
}

#[test]
fn location_negative_coordinates() {
    let mut msg = [0u8; 25];
    msg[0] = 0x10;
    let lat: i32 = -338688000;
    msg[5..9].copy_from_slice(&lat.to_le_bytes());
    let lon: i32 = i32::MIN;
    msg[9..13].copy_from_slice(&lon.to_le_bytes());
    msg[21..23].copy_from_slice(&36000u16.to_le_bytes());
    match decode_message(&msg) {
        DroneIdMessage::Location(loc) => {
            assert_eq!(loc.latitude_e7, -338688000);
            assert_eq!(loc.longitude_e7, i32::MIN);
            assert_eq!(loc.timestamp_tenths, 36000);
        }
        other => panic!("Expected Location, got {:?}", other),
    }
}

#[test]
fn auth_first_page_and_later_page() {
    let mut msg = [0u8; 25];
    msg[0] = 0x22;
    msg[1] = 0x30; // auth type 3, page 0
    msg[2] = 4; // page count
    msg[3] = 60; // length
    msg[4..8].copy_from_slice(&0x01020304u32.to_le_bytes());
    for i in 8..25 {
        msg[i] = i as u8;
    }
    match decode_message(&msg) {
        DroneIdMessage::Auth(a) => {
            assert_eq!(a.auth_type, 3);
            assert_eq!(a.page_number, 0);
            assert_eq!(a.page_count, 4);
            assert_eq!(a.length, 60);
            assert_eq!(a.timestamp, 0x01020304);
            assert_eq!(a.data, (8u8..25).collect::<Vec<u8>>());
        }
        other => panic!("Expected Auth, got {:?}", other),
    }
    msg[1] = 0x32; // page 2
    match decode_message(&msg) {
        DroneIdMessage::Auth(a) => {
            assert_eq!(a.page_number, 2);
            assert_eq!(a.page_count, 0);
            assert_eq!(a.length, 0);
            assert_eq!(a.timestamp, 0);
            assert_eq!(a.data.len(), 23);
            assert_eq!(a.data[0], 4);
        }
        other => panic!("Expected Auth, got {:?}", other),
    }
}

#[test]
fn system_altitudes_and_large_area_count() {
    let mut msg = [0u8; 25];
    msg[0] = 0x40;
    msg[1] = 0x70;
    msg[10..12].copy_from_slice(&65535u16.to_le_bytes());
    msg[12] = 255;
    msg[13..15].copy_from_slice(&2400u16.to_le_bytes()); // 200 m
    msg[15..17].copy_from_slice(&1800u16.to_le_bytes()); // -100 m
    msg[21..23].copy_from_slice(&2001u16.to_le_bytes()); // 0.5 m
    match decode_message(&msg) {
        DroneIdMessage::System(sys) => {
            assert_eq!(sys.classification_type, 7);
            assert_eq!(sys.area_count, 65535);
            assert_eq!(sys.area_radius, 2550);
            assert_eq!(sys.area_ceiling_half_m, 400);
            assert_eq!(sys.area_floor_half_m, -200);
            assert_eq!(sys.operator_altitude_geo_half_m, 1);
        }
        other => panic!("Expected System, got {:?}", other),
    }
}

#[test]
fn unknown_and_message_pack_headers() {
    let mut msg = [0u8; 25];
    msg[0] = 0x73;
    match decode_message(&msg) {
        DroneIdMessage::Unknown { msg_type, proto_version } => {
            assert_eq!(msg_type, 7);
            assert_eq!(proto_version, 3);
        }
        other => panic!("Expected Unknown, got {:?}", other),
    }
    msg[0] = 0xF2;
    let all = decode_all(&msg);
    assert_eq!(all.len(), 1);
    match &all[0] {
        DroneIdMessage::Unknown { msg_type, proto_version } => {
            assert_eq!(*msg_type, 15);
            assert_eq!(*proto_version, 2);
        }
        other => panic!("Expected Unknown, got {:?}", other),
    }
    assert_eq!(all[0].msg_type(), MessageType::MessagePack);
    assert_eq!(decode_message(&msg).msg_type(), MessageType::MessagePack);
}

#[test]
fn decode_all_gives_the_single_message() {
    let mut msg = [0u8; 25];
    msg[0] = 0x52;
    msg[1] = 9;
    msg[2..6].copy_from_slice(b"ABCD");
    let all = decode_all(&msg);
    assert_eq!(all.len(), 1);
    match &all[0] {
        DroneIdMessage::OperatorId(o) => {
            assert_eq!(o.operator_id_type, 9);
            assert_eq!(o.operator_id, "ABCD");
        }
        other => panic!("Expected OperatorId, got {:?}", other),
    }
}

#[test]
fn message_type_follows_header() {
    for nibble in 0u8..16 {
        let mut msg = [0u8; 25];
        msg[0] = nibble << 4;
        assert_eq!(decode_message(&msg).msg_type(), MessageType::from_nibble(nibble));
    }
}

#[test]
fn type_names() {
    assert_eq!(MessageType::BasicId.to_string(), "BasicID");
    assert_eq!(MessageType::OperatorId.to_string(), "OperatorID");
    assert_eq!(MessageType::Unknown(0xA).to_string(), "Unknown(0xA)");
    assert_eq!(MessageType::Unknown(0xAB).to_string(), "Unknown(0xAB)");
    assert_eq!(IdType::CaaRegistration.to_string(), "CAARegistration");
    assert_eq!(IdType::Unspecified.to_string(), "None");
    assert_eq!(IdType::Unknown(12).to_string(), "Unknown(12)");
    assert_eq!(UaType::HelicopterOrMultirotor.to_string(), "HelicopterOrMultirotor");
    assert_eq!(UaType::Unspecified.to_string(), "None");
    assert_eq!(UaType::Unknown(200).to_string(), "Unknown(200)");
    assert_eq!(IdType::from_val(4), IdType::SpecificSession);
    assert_eq!(IdType::from_val(5), IdType::Unknown(5));
    assert_eq!(UaType::from_val(15), UaType::Other);
}

#[test]
fn text_fields_stop_at_nul_and_replace_invalid_bytes() {
    assert_eq!(extract_ascii_string(b"AB\0CD"), "AB");
    assert_eq!(extract_ascii_string(b"\0AB"), "");
    assert_eq!(extract_ascii_string(b"ABC"), "ABC");
    assert_eq!(extract_ascii_string(&[0x41, 0xFF, 0x42, 0]), "A\u{FFFD}B");
}

#[test]
fn ascii_fields_hold_no_nul() {
    assert!(!extract_ascii_string(b"DRONE\0\0X").contains('\0'));
    assert_eq!(extract_ascii_string(&[b'Z'; 20]).len(), 20);
    let overlong_nul = extract_ascii_string(&[0xC0, 0x80, 0x41]);
    assert_eq!(overlong_nul, "\u{FFFD}\u{FFFD}A");
    assert!(!overlong_nul.contains('\0'));
}
