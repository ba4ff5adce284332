use buzzkill::wifi::frames::{
    extract_rssi, parse_remote_id_beacon, parse_remote_id_ie, IE_VENDOR_SPECIFIC, ODID_OUI_0,
    ODID_OUI_1, ODID_OUI_2, ODID_TYPE,
};

#[test]
fn test_parse_remote_id_ie() {
    // Build a vendor-specific IE with ODID payload
    let mut ie = Vec::new();
    // Some non-matching IE first
    ie.push(0x00); // SSID tag
    ie.push(0x04); // length
    ie.extend_from_slice(b"test");

    // ODID Vendor Specific IE
    ie.push(IE_VENDOR_SPECIFIC);
    ie.push(30); // length: OUI(3) + type(1) + counter(1) + message(25)
    ie.extend_from_slice(&[ODID_OUI_0, ODID_OUI_1, ODID_OUI_2]);
    ie.push(ODID_TYPE);
    ie.push(0x42); // counter

    // 25-byte message: BasicId
    let mut msg = [0u8; 25];
    msg[0] = 0x02; // type=0 (BasicID), version=2
    msg[1] = 0x12; // id_type=serial, ua_type=helicopter
    ie.extend_from_slice(&msg);

    let mac = [0xAA, 0xBB, 0xCC, 0xDD, 0xEE, 0xFF];
    let result = parse_remote_id_ie(&ie, mac, -50);
    assert!(result.is_some());
    let beacon = result.unwrap();
    assert_eq!(beacon.mac, mac);
    assert_eq!(beacon.rssi, -50);
    assert_eq!(beacon.counter, 0x42);
    assert_eq!(beacon.message[0], 0x02);
}

#[test]
fn test_no_odid_ie() {
    let ie = vec![0x00, 0x04, b't', b'e', b's', b't'];
    let mac = [0; 6];
    assert!(parse_remote_id_ie(&ie, mac, 0).is_none());
}

fn odid_ie(counter: u8) -> Vec<u8> {
    let mut ie = vec![0xDD, 30, 0xFA, 0x0B, 0xBC, 0x0D, counter];
    let mut msg = [0u8; 25];
    msg[0] = 0x12;
    ie.extend_from_slice(&msg);
    ie
}

fn beacon_frame(radiotap: &[u8], fc0: u8, ies: &[u8]) -> Vec<u8> {
    let mut f = radiotap.to_vec();
    let mut hdr = [0u8; 24];
    hdr[0] = fc0;
    hdr[10..16].copy_from_slice(&[1, 2, 3, 4, 5, 6]);
    f.extend_from_slice(&hdr);
    f.extend_from_slice(&[0u8; 12]);
    f.extend_from_slice(ies);
    f
}

#[test]
fn beacon_with_signal_field() {
    // radiotap: version, pad, len=9, present=bit5 (dBm signal), signal=-70
    let rt = [0u8, 0, 9, 0, 0x20, 0, 0, 0, (-70i8) as u8];
    let f = beacon_frame(&rt, 0x80, &odid_ie(7));
    let b = parse_remote_id_beacon(&f).unwrap();
    assert_eq!(b.mac, [1, 2, 3, 4, 5, 6]);
    assert_eq!(b.rssi, -70);
    assert_eq!(b.counter, 7);
    assert_eq!(b.message[0], 0x12);
}

#[test]
fn non_beacons_and_short_frames_are_ignored() {
    let rt = [0u8, 0, 8, 0, 0, 0, 0, 0];
    assert!(parse_remote_id_beacon(&beacon_frame(&rt, 0x40, &odid_ie(1))).is_none()); // probe request
    assert!(parse_remote_id_beacon(&beacon_frame(&rt, 0x88, &odid_ie(1))).is_none()); // data frame
    assert!(parse_remote_id_beacon(&[0, 0, 8]).is_none());
    let f = beacon_frame(&rt, 0x80, &odid_ie(1));
    assert!(parse_remote_id_beacon(&f[..40]).is_none());
    let b = parse_remote_id_beacon(&f).unwrap();
    assert_eq!(b.rssi, 0); // no signal field
}

#[test]
fn rssi_after_tsft_flags_rate_channel() {
    // present: TSFT(0) flags(1) rate(2) channel(3) signal(5)
    let mut rt = vec![0u8, 0, 0, 0, 0x2F, 0, 0, 0];
    rt.extend_from_slice(&[0u8; 8]); // TSFT at 8 (already aligned)
    rt.push(0x10); // flags at 16
    rt.push(0x02); // rate at 17
    rt.extend_from_slice(&[0x85, 0x09, 0xA0, 0x00]); // channel at 18 (aligned to 2)
    rt.push((-42i8) as u8); // signal at 22
    let len = rt.len() as u8;
    rt[2] = len;
    assert_eq!(extract_rssi(&rt, rt.len()), -42);
}

#[test]
fn rssi_with_extended_bitmap_and_alignment() {
    // present word 1: ext bit + flags + TSFT + signal; word 2: no extension
    let mut rt = vec![0u8, 0, 0, 0, 0x23, 0, 0, 0x80, 0, 0, 0, 0];
    // TSFT aligned from 12 to 16
    rt.extend_from_slice(&[0u8; 4]);
    rt.extend_from_slice(&[0u8; 8]);
    rt.push(0x00); // flags at 24
    rt.push((-33i8) as u8); // signal at 25
    let len = rt.len();
    rt[2] = len as u8;
    assert_eq!(extract_rssi(&rt, len), -33);
    // a header shorter than 8 bytes has no signal
    assert_eq!(extract_rssi(&rt, 7), 0);
    // an extension bitmap that runs off the end
    let cut = [0u8, 0, 8, 0, 0x20, 0, 0, 0x80, 0, 0];
    assert_eq!(extract_rssi(&cut, 8), 0);
}

#[test]
fn first_matching_element_wins() {
    let mut ies = vec![0x00, 0x00];
    ies.extend(odid_ie(3));
    ies.extend(odid_ie(4));
    let b = parse_remote_id_ie(&ies, [0; 6], 1).unwrap();
    assert_eq!(b.counter, 3);
    // an overrunning element stops the search
    let ies = vec![0xDD, 200, 0xFA];
    assert!(parse_remote_id_ie(&ies, [0; 6], 1).is_none());
}
