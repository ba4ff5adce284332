use buzzkill::remoteid::filter::{
    extract_remote_id, AD_TYPE_SERVICE_DATA_16, ODID_APP_CODE, ODID_UUID_HI, ODID_UUID_LO,
};

#[test]
fn test_extract_remote_id_basic() {
    // Build a fake AD structure with Remote ID payload
    let mut ad_data = Vec::new();

    // A non-matching AD structure first (flags)
    ad_data.push(0x02); // length
    ad_data.push(0x01); // AD Type: Flags
    ad_data.push(0x06); // flags value

    // Remote ID AD structure
    // length = 1(type) + 2(UUID) + 1(app_code) + 1(counter) + 25(message) = 30
    ad_data.push(30);
    ad_data.push(AD_TYPE_SERVICE_DATA_16);
    ad_data.push(ODID_UUID_LO);
    ad_data.push(ODID_UUID_HI);
    ad_data.push(ODID_APP_CODE);
    ad_data.push(0x42); // counter

    // 25-byte message: Basic ID, protocol version 2, ID type=serial, UA type=helicopter
    let mut msg = [0u8; 25];
    msg[0] = 0x02; // type=0 (Basic ID), proto version=2
    msg[1] = 0x10; // ID type=1 (serial number) << 4 | UA type=0 (none)
                   // serial number in bytes 2..22
    let serial = b"SERIAL123456789A\0\0\0\0";
    msg[2..22].copy_from_slice(serial);
    ad_data.extend_from_slice(&msg);

    let payloads = extract_remote_id(&ad_data);
    assert_eq!(payloads.len(), 1);
    assert_eq!(payloads[0].counter, 0x42);
    assert_eq!(payloads[0].message[0], 0x02);
}

#[test]
fn test_no_remote_id() {
    let ad_data = vec![0x02, 0x01, 0x06]; // just flags
    let payloads = extract_remote_id(&ad_data);
    assert!(payloads.is_empty());
}

fn odid_structure(counter: u8, first: u8) -> Vec<u8> {
    let mut s = vec![30, 0x16, 0xFA, 0xFF, 0x0D, counter];
    let mut msg = [0u8; 25];
    msg[0] = first;
    s.extend_from_slice(&msg);
    s
}

#[test]
fn two_payloads_in_order() {
    let mut ad = odid_structure(1, 0x02);
    ad.extend_from_slice(&[0x03, 0x09, b'x', b'y']);
    ad.extend(odid_structure(2, 0x12));
    let payloads = extract_remote_id(&ad);
    assert_eq!(payloads.len(), 2);
    assert_eq!(payloads[0].counter, 1);
    assert_eq!(payloads[0].message[0], 0x02);
    assert_eq!(payloads[1].counter, 2);
    assert_eq!(payloads[1].message[0], 0x12);
}

#[test]
fn walk_stops_at_zero_length_and_overrun() {
    let mut ad = vec![0x00];
    ad.extend(odid_structure(1, 0x02));
    assert!(extract_remote_id(&ad).is_empty());

    let truncated = odid_structure(7, 0x02);
    assert_eq!(extract_remote_id(&truncated[..30]).len(), 0);
    assert_eq!(extract_remote_id(&truncated).len(), 1);
}

#[test]
fn wrong_uuid_or_app_code_or_short_length() {
    let mut ad = odid_structure(1, 0x02);
    ad[2] = 0xFB;
    assert!(extract_remote_id(&ad).is_empty());
    let mut ad = odid_structure(1, 0x02);
    ad[4] = 0x0E;
    assert!(extract_remote_id(&ad).is_empty());
    let mut ad = odid_structure(1, 0x02);
    ad[0] = 29;
    assert!(extract_remote_id(&ad).is_empty());
    // a longer structure with extra trailing bytes still carries its message
    let mut ad = odid_structure(9, 0x42);
    ad[0] = 31;
    ad.push(0xEE);
    let payloads = extract_remote_id(&ad);
    assert_eq!(payloads.len(), 1);
    assert_eq!(payloads[0].counter, 9);
}

#[test]
fn payloads_of_concatenated_blocks() {
    let mut a = vec![0x02, 0x01, 0x06];
    a.extend(odid_structure(1, 0x02));
    let b = odid_structure(2, 0x32);
    let mut ab = a.clone();
    ab.extend_from_slice(&b);
    let whole = extract_remote_id(&ab);
    let first = extract_remote_id(&a);
    let second = extract_remote_id(&b);
    assert_eq!(whole.len(), first.len() + second.len());
    assert_eq!(whole[0].counter, first[0].counter);
    assert_eq!(whole[1].counter, second[0].counter);
    assert_eq!(whole[1].message, second[0].message);
}
