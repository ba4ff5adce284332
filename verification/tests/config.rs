use buzzkill::email::SmtpConfig;
use buzzkill::hci::commands::{command_packet, le_set_scan_enable_command, le_set_scan_parameters_command};
use buzzkill::hci::socket::{HciFilter, HCI_EVENT_PKT};
use buzzkill::hci::events::LE_META_EVENT;
use buzzkill::web::{asset_path, static_reply};

fn s(v: &str) -> Option<String> {
    Some(v.to_string())
}

#[test]
fn smtp_settings() {
    assert!(matches!(SmtpConfig::from_env(None, None, None, None, None), Ok(None)));
    let err = |r: Result<Option<SmtpConfig>, String>| match r {
        Err(e) => e,
        Ok(_) => panic!("expected an error"),
    };
    assert_eq!(
        err(SmtpConfig::from_env(s("smtp.example.com"), None, s("p"), s("a@b.c"), s("d@e.f"))),
        "SMTP_HOST is set but SMTP_USERNAME is missing"
    );
    assert_eq!(
        err(SmtpConfig::from_env(s("h"), s("u"), None, s("a@b.c"), s("d@e.f"))),
        "SMTP_HOST is set but SMTP_PASSWORD is missing"
    );
    assert_eq!(
        err(SmtpConfig::from_env(s("h"), s("u"), s("p"), None, s("d@e.f"))),
        "SMTP_HOST is set but ALERT_FROM is missing"
    );
    assert_eq!(
        err(SmtpConfig::from_env(s("h"), s("u"), s("p"), s("not-an-address"), s("d@e.f"))),
        "invalid ALERT_FROM address: Missing domain or user"
    );
    assert_eq!(
        err(SmtpConfig::from_env(s("h"), s("u"), s("p"), s("a@b.c"), None)),
        "SMTP_HOST is set but ALERT_TO is missing"
    );
    assert_eq!(
        err(SmtpConfig::from_env(s("h"), s("u"), s("p"), s("a@b.c"), s("x@"))),
        "invalid ALERT_TO address: Invalid email domain"
    );
    match SmtpConfig::from_env(s("smtp.example.com"), s("user"), s("pw"), s("alerts@example.com"), s("me@example.org")) {
        Ok(Some(c)) => {
            assert_eq!(c.host, "smtp.example.com");
            assert_eq!(c.username, "user");
            assert_eq!(c.password, "pw");
            assert_eq!(c.from, "alerts@example.com");
            assert_eq!(c.to, "me@example.org");
        }
        _ => panic!("expected a configuration"),
    }
}

#[test]
fn scan_commands() {
    assert_eq!(
        le_set_scan_parameters_command(),
        vec![0x01, 0x0B, 0x20, 0x07, 0x00, 0xA0, 0x00, 0xA0, 0x00, 0x00, 0x00]
    );
    assert_eq!(le_set_scan_enable_command(true), vec![0x01, 0x0C, 0x20, 0x02, 0x01, 0x00]);
    assert_eq!(le_set_scan_enable_command(false), vec![0x01, 0x0C, 0x20, 0x02, 0x00, 0x00]);
    // group and command bits are masked; the length is the low byte
    assert_eq!(command_packet(0xFF, 0xFFFF, &[]), vec![0x01, 0xFF, 0xFF, 0x00]);
    let long = vec![7u8; 300];
    let p = command_packet(0x08, 0x0001, &long);
    assert_eq!(p[3], 44);
    assert_eq!(p.len(), 304);
}

#[test]
fn socket_filter_bits() {
    let mut f = HciFilter::default();
    f.set_ptype(HCI_EVENT_PKT);
    f.set_event(LE_META_EVENT);
    assert_eq!(f.type_mask, 1 << 4);
    assert_eq!(f.event_mask, [0, 1 << 30]);
    f.set_event(0x05);
    assert_eq!(f.event_mask, [1 << 5, 1 << 30]);
    assert_eq!(f.opcode, 0);
}

#[test]
fn static_files() {
    assert_eq!(asset_path("/"), "");
    assert_eq!(asset_path("//_app/x.js"), "_app/x.js");
    assert_eq!(asset_path("favicon.png"), "favicon.png");

    let r = static_reply("", true, false).unwrap();
    assert_eq!((r.file.as_str(), r.content_type.as_str()), ("index.html", "text/html"));
    assert_eq!(r.cache_control, "public, max-age=0, must-revalidate");
    let r = static_reply("index.html", true, true).unwrap();
    assert_eq!(r.file, "index.html");
    let r = static_reply("_app/immutable/start.js", true, true).unwrap();
    assert_eq!(r.file, "_app/immutable/start.js");
    assert_eq!(r.content_type, "text/javascript");
    assert_eq!(r.cache_control, "public, max-age=31536000, immutable");
    let r = static_reply("assets/logo.svg", true, true).unwrap();
    assert_eq!(r.content_type, "image/svg+xml");
    assert_eq!(r.cache_control, "public, max-age=31536000, immutable");
    let r = static_reply("favicon.png", true, true).unwrap();
    assert_eq!(r.content_type, "image/png");
    assert_eq!(r.cache_control, "public, max-age=3600, must-revalidate");
    let r = static_reply("LICENSE", true, true).unwrap();
    assert_eq!(r.content_type, "application/octet-stream");
    // client-side routes get the entry page; missing files with a dot do not
    let r = static_reply("drones/42", true, false).unwrap();
    assert_eq!(r.file, "index.html");
    assert!(static_reply("missing.css", true, false).is_none());
    assert!(static_reply("drones", false, false).is_none());
    assert!(static_reply("", false, false).is_none());
}
