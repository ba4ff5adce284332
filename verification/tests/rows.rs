use buzzkill::db::build_row;
use buzzkill::remoteid::decode::decode_message;

#[test]
fn basic_id_row() {
    let mut msg = [0u8; 25];
    msg[0] = 0x02;
    msg[1] = 0x12;
    msg[2..8].copy_from_slice(b"SERIAL");
    let row = build_row("ble", &[0xAA, 0xBB, 0xCC, 0xDD, 0xEE, 0xFF], -60, 9, &decode_message(&msg));
    assert_eq!(row.transport, "ble");
    assert_eq!(row.mac, "AA:BB:CC:DD:EE:FF");
    assert_eq!(row.rssi, -60);
    assert_eq!(row.counter, 9);
    assert_eq!(row.msg_type, "BasicID");
    assert_eq!(row.id_type.as_deref(), Some("SerialNumber"));
    assert_eq!(row.ua_type.as_deref(), Some("HelicopterOrMultirotor"));
    assert_eq!(row.ua_id.as_deref(), Some("SERIAL"));
    assert!(row.lat_e7.is_none() && row.op_id.is_none() && row.auth_data.is_none());
}

#[test]
fn location_and_system_rows() {
    let mut msg = [0u8; 25];
    msg[0] = 0x12;
    msg[1] = 0x20;
    msg[5..9].copy_from_slice(&473977000i32.to_le_bytes());
    msg[13..15].copy_from_slice(&3000u16.to_le_bytes());
    let row = build_row("wifi", &[0; 6], -1, 0, &decode_message(&msg));
    assert_eq!(row.msg_type, "Location");
    assert_eq!(row.status, Some(2));
    assert_eq!(row.lat_e7, Some(473977000));
    assert_eq!(row.alt_press_half_m, Some(1000));
    assert!(row.ua_id.is_none() && row.area_count.is_none());

    let mut msg = [0u8; 25];
    msg[0] = 0x42;
    msg[1] = 0x30;
    msg[10..12].copy_from_slice(&40000u16.to_le_bytes());
    msg[12] = 200;
    let row = build_row("ble", &[0; 6], -1, 0, &decode_message(&msg));
    assert_eq!(row.msg_type, "System");
    assert_eq!(row.area_count, Some(40000u16 as i16));
    assert_eq!(row.area_radius, Some(2000));
    assert_eq!(row.class_type, Some(3));
    assert!(row.lat_e7.is_none());
}

#[test]
fn auth_self_id_operator_unknown_rows() {
    let mut msg = [0u8; 25];
    msg[0] = 0x22;
    msg[1] = 0x10;
    msg[4..8].copy_from_slice(&0xF000_0000u32.to_le_bytes());
    let row = build_row("ble", &[0; 6], 0, 0, &decode_message(&msg));
    assert_eq!(row.msg_type, "Auth");
    assert_eq!(row.auth_type, Some(1));
    assert_eq!(row.auth_page, Some(0));
    assert_eq!(row.auth_ts, Some(0xF000_0000u32 as i32));
    assert_eq!(row.auth_data.as_ref().unwrap().len(), 17);

    let mut msg = [0u8; 25];
    msg[0] = 0x32;
    msg[1] = 2;
    msg[2..7].copy_from_slice(b"hello");
    let row = build_row("ble", &[0; 6], 0, 0, &decode_message(&msg));
    assert_eq!(row.msg_type, "SelfID");
    assert_eq!(row.desc_type, Some(2));
    assert_eq!(row.description.as_deref(), Some("hello"));

    let mut msg = [0u8; 25];
    msg[0] = 0x52;
    msg[1] = 1;
    msg[2..5].copy_from_slice(b"OP1");
    let row = build_row("ble", &[0; 6], 0, 0, &decode_message(&msg));
    assert_eq!(row.msg_type, "OperatorID");
    assert_eq!(row.op_id_type, Some(1));
    assert_eq!(row.op_id.as_deref(), Some("OP1"));

    let mut msg = [0u8; 25];
    msg[0] = 0xC1;
    let row = build_row("ble", &[0; 6], 0, 0, &decode_message(&msg));
    assert_eq!(row.msg_type, "Unknown(0xC)");
    assert!(row.id_type.is_none() && row.status.is_none() && row.op_lat_e7.is_none());
    assert!(row.op_id.is_none() && row.description.is_none() && row.auth_type.is_none());
}
