use buzzkill::hci::events::parse_hci_event;

#[test]
fn test_parse_single_advertising_report() {
    // LE Meta Event with 1 advertising report
    let mut buf = vec![
        0x3E, // event code: LE Meta Event
        0x00, // param_len (will fill)
        0x02, // subevent: LE Advertising Report
        0x01, // num_reports: 1
        0x00, // event_type: ADV_IND
        0x01, // addr_type: random
        0xAA,
        0xBB,
        0xCC,
        0xDD,
        0xEE,
        0xFF, // addr
        0x03, // data_length
        0x02,
        0x01,
        0x06,         // data (flags AD structure)
        0xC0u8 as u8, // RSSI: -64
    ];
    buf[1] = (buf.len() - 2) as u8;

    let reports = parse_hci_event(&buf).unwrap();
    assert_eq!(reports.len(), 1);
    assert_eq!(reports[0].addr, [0xAA, 0xBB, 0xCC, 0xDD, 0xEE, 0xFF]);
    assert_eq!(reports[0].data, vec![0x02, 0x01, 0x06]);
    assert_eq!(reports[0].rssi, -64);
}

#[test]
fn other_events_are_not_reports() {
    assert!(parse_hci_event(&[]).is_none());
    assert!(parse_hci_event(&[0x3E]).is_none());
    assert!(parse_hci_event(&[0x0E, 0x01, 0x02]).is_none()); // command complete
    assert!(parse_hci_event(&[0x3E, 0x00]).is_none()); // no parameters
    assert!(parse_hci_event(&[0x3E, 0x05, 0x02, 0x01]).is_none()); // too short
    assert!(parse_hci_event(&[0x3E, 0x02, 0x01, 0x01]).is_none()); // connection complete
    assert!(parse_hci_event(&[0x3E, 0x01, 0x02]).is_none()); // no report count
}

#[test]
fn truncated_reports_are_dropped() {
    // two reports announced, only the first complete
    let mut buf = vec![0x3E, 0x00, 0x02, 0x02, 0x00, 0x00, 1, 2, 3, 4, 5, 6, 0x00, 0xD0, 0x04, 0x01];
    buf[1] = (buf.len() - 2) as u8;
    let reports = parse_hci_event(&buf).unwrap();
    assert_eq!(reports.len(), 1);
    assert_eq!(reports[0].event_type, 0);
    assert!(reports[0].data.is_empty());
    assert_eq!(reports[0].rssi, -48);
    // the RSSI byte is missing: no report
    let mut buf = vec![0x3E, 0x00, 0x02, 0x01, 0x00, 0x00, 1, 2, 3, 4, 5, 6, 0x00];
    buf[1] = (buf.len() - 2) as u8;
    assert_eq!(parse_hci_event(&buf).unwrap().len(), 0);
    // bytes past the parameter length are ignored
    let mut buf = vec![0x3E, 0x00, 0x02, 0x00];
    buf[1] = 2;
    buf.extend_from_slice(&[9, 9, 9]);
    assert_eq!(parse_hci_event(&buf).unwrap().len(), 0);
}
