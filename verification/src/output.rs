//! Text shown to the operator about drones.

use vstd::prelude::*;
use crate::text::{decimal, hex, hex2, hex2_reads_back, hex_value, push_char, push_decimal, push_hex, push_hex2, push_signed_decimal, signed_decimal};
use crate::remoteid::decode::{DroneIdMessage, MessageModel};

verus! {

/// A MAC address as six colon-separated pairs of uppercase hex digits.
pub open spec fn mac_text(m: Seq<u8>) -> Seq<char> {
    hex2(m[0]) + seq![':'] + hex2(m[1]) + seq![':'] + hex2(m[2]) + seq![':'] + hex2(m[3])
        + seq![':'] + hex2(m[4]) + seq![':'] + hex2(m[5])
}

/// Format a MAC address as a colon-separated hex string.
pub fn format_mac(mac: &[u8; 6]) -> (s: String)
    ensures
        s@ == mac_text(mac@),
{
    let mut s = String::new();
    push_hex2(&mut s, mac[0]);
    let mut i: usize = 1;
    while i < 6
        invariant
            1 <= i <= 6,
            s@ == {
                let m = mac@;
                let parts = hex2(m[0]) + seq![':'] + hex2(m[1]) + seq![':'] + hex2(m[2]) + seq![':']
                    + hex2(m[3]) + seq![':'] + hex2(m[4]) + seq![':'] + hex2(m[5]);
                parts.take(3 * i - 1)
            },
        decreases 6 - i,
    {
        let ghost before = s@;
        push_char(&mut s, ':');
        push_hex2(&mut s, mac[i]);
        proof {
            let m = mac@;
            let parts = hex2(m[0]) + seq![':'] + hex2(m[1]) + seq![':'] + hex2(m[2]) + seq![':']
                + hex2(m[3]) + seq![':'] + hex2(m[4]) + seq![':'] + hex2(m[5]);
            assert(parts.len() == 17);
            assert(parts[3 * i - 1] == ':');
            assert(parts[3 * i] == hex2(m[i as int])[0]);
            assert(parts[3 * i + 1] == hex2(m[i as int])[1]);
            assert(s@ =~= parts.take(3 * (i + 1) - 1));
        }
        i = i + 1;
    }
    proof {
        let m = mac@;
        let parts = hex2(m[0]) + seq![':'] + hex2(m[1]) + seq![':'] + hex2(m[2]) + seq![':']
            + hex2(m[3]) + seq![':'] + hex2(m[4]) + seq![':'] + hex2(m[5]);
        assert(parts.take(17) =~= parts);
    }
    s
}

/// A MAC address is shown as 17 characters: the six bytes in order, each as
/// two hexadecimal digits that read back as the byte, separated by colons.
pub proof fn mac_text_reads_back(m: Seq<u8>)
    requires
        m.len() == 6,
    ensures
        mac_text(m).len() == 17,
        forall|i: int| 0 <= i < 6 ==> 16 * hex_value(#[trigger] mac_text(m)[3 * i]) + hex_value(
            mac_text(m)[3 * i + 1],
        ) == m[i],
        forall|i: int| 0 <= i < 5 ==> #[trigger] mac_text(m)[3 * i + 2] == ':',
{
    let t = mac_text(m);
    let h0 = hex2(m[0]);
    let h1 = hex2(m[1]);
    let h2 = hex2(m[2]);
    let h3 = hex2(m[3]);
    let h4 = hex2(m[4]);
    let h5 = hex2(m[5]);
    let flat = seq![
        h0[0], h0[1], ':', h1[0], h1[1], ':', h2[0], h2[1], ':', h3[0], h3[1], ':', h4[0], h4[1],
        ':', h5[0], h5[1],
    ];
    assert(t =~= flat);
    hex2_reads_back(m[0]);
    hex2_reads_back(m[1]);
    hex2_reads_back(m[2]);
    hex2_reads_back(m[3]);
    hex2_reads_back(m[4]);
    hex2_reads_back(m[5]);
    assert forall|i: int| 0 <= i < 6 implies 16 * hex_value(#[trigger] t[3 * i]) + hex_value(t[3 * i + 1]) == m[i] by {
        if i == 0 {
        } else if i == 1 {
        } else if i == 2 {
        } else if i == 3 {
        } else if i == 4 {
        } else {
        }
    }
}

/// How a Bluetooth address type is shown after the address: the kind of
/// address for types 0 to 3, the number otherwise, nothing when unknown.
pub open spec fn address_kind_text(addr_type: Option<u8>) -> Seq<char> {
    match addr_type {
        Some(0) => " (public)"@,
        Some(1) => " (random)"@,
        Some(2) => " (public identity)"@,
        Some(3) => " (random identity)"@,
        Some(t) => " (addr_type:"@ + decimal(t as nat) + ")"@,
        None => Seq::empty(),
    }
}

/// The announcement of a newly detected drone, before any position details:
/// `[+] NEW DRONE  [transport] mac=..<kind> rssi=..dBm`.
pub open spec fn new_drone_text(transport: Seq<char>, mac: Seq<u8>, rssi: i8, addr_type: Option<u8>) -> Seq<char> {
    "[+] NEW DRONE  ["@ + transport + "] mac="@ + mac_text(mac) + address_kind_text(addr_type)
        + " rssi="@ + signed_decimal(rssi as int) + "dBm"@
}

/// The line announcing a new drone; the caller appends the distance and
/// bearing details when it has them.
pub fn new_drone_line(transport: &str, mac: &[u8; 6], rssi: i8, addr_type: Option<u8>) -> (s: String)
    ensures
        s@ == new_drone_text(transport@, mac@, rssi, addr_type),
{
    let mut s = String::from_str("[+] NEW DRONE  [");
    s.append(transport);
    s.append("] mac=");
    let m = format_mac(mac);
    s.append(m.as_str());
    match addr_type {
        Some(0) => s.append(" (public)"),
        Some(1) => s.append(" (random)"),
        Some(2) => s.append(" (public identity)"),
        Some(3) => s.append(" (random identity)"),
        Some(t) => {
            s.append(" (addr_type:");
            push_decimal(&mut s, t as u64);
            s.append(")");
        },
        None => {},
    }
    s.append(" rssi=");
    push_signed_decimal(&mut s, rssi);
    s.append("dBm");
    proof {
        let k = address_kind_text(addr_type);
        assert(s@ =~= new_drone_text(transport@, mac@, rssi, addr_type));
    }
    s
}

/// The console line for a message whose fields are all whole numbers and
/// text: Basic ID, Operator ID, Self-ID, Auth and unknown messages. `None`
/// for Location and System messages, whose lines show converted quantities.
pub open spec fn message_text(transport: Seq<char>, mac: Seq<u8>, m: MessageModel) -> Option<Seq<char>> {
    let who = "["@ + transport + "] mac="@ + mac_text(mac);
    match m {
        MessageModel::BasicId(b) => Some(
            "  [BasicID]    "@ + who + " id_type="@ + b.id_type.name() + " ua_type="@ + b.ua_type.name()
                + " ua_id=\""@ + b.ua_id + "\""@,
        ),
        MessageModel::OperatorId(o) => Some(
            "  [OperatorID] "@ + who + " operator_id=\""@ + o.operator_id + "\""@,
        ),
        MessageModel::SelfId(d) => Some("  [SelfID]     "@ + who + " desc=\""@ + d.description + "\""@),
        MessageModel::Auth(a) => Some(
            "  [Auth]       "@ + who + " page="@ + decimal(a.page_number as nat) + "/"@ + decimal(
                a.page_count as nat,
            ),
        ),
        MessageModel::Unknown { msg_type, proto_version } => Some(
            "  [Unknown]    "@ + who + " msg_type=0x"@ + hex(msg_type as nat) + " proto_version="@
                + decimal(proto_version as nat),
        ),
        _ => None,
    }
}

/// The console line for a decoded message, for the kinds that need no unit
/// conversion (see `message_text`).
pub fn message_line(transport: &str, mac: &[u8; 6], msg: &DroneIdMessage) -> (line: Option<String>)
    ensures
        match (line, message_text(transport@, mac@, msg@)) {
            (None, None) => true,
            (Some(l), Some(t)) => l@ == t,
            _ => false,
        },
{
    let mut s = match msg {
        DroneIdMessage::BasicId(_) => String::from_str("  [BasicID]    "),
        DroneIdMessage::OperatorId(_) => String::from_str("  [OperatorID] "),
        DroneIdMessage::SelfId(_) => String::from_str("  [SelfID]     "),
        DroneIdMessage::Auth(_) => String::from_str("  [Auth]       "),
        DroneIdMessage::Unknown { .. } => String::from_str("  [Unknown]    "),
        _ => return None,
    };
    let ghost head = s@;
    s.append("[");
    s.append(transport);
    s.append("] mac=");
    let m = format_mac(mac);
    s.append(m.as_str());
    let ghost who = "["@ + transport@ + "] mac="@ + mac_text(mac@);
    assert(s@ =~= head + who);
    match msg {
        DroneIdMessage::BasicId(b) => {
            s.append(" id_type=");
            let t = b.id_type.to_string();
            s.append(t.as_str());
            s.append(" ua_type=");
            let u = b.ua_type.to_string();
            s.append(u.as_str());
            s.append(" ua_id=\"");
            s.append(b.ua_id.as_str());
            s.append("\"");
        },
        DroneIdMessage::OperatorId(o) => {
            s.append(" operator_id=\"");
            s.append(o.operator_id.as_str());
            s.append("\"");
        },
        DroneIdMessage::SelfId(d) => {
            s.append(" desc=\"");
            s.append(d.description.as_str());
            s.append("\"");
        },
        DroneIdMessage::Auth(a) => {
            s.append(" page=");
            push_decimal(&mut s, a.page_number as u64);
            s.append("/");
            push_decimal(&mut s, a.page_count as u64);
        },
        DroneIdMessage::Unknown { msg_type, proto_version } => {
            s.append(" msg_type=0x");
            push_hex(&mut s, *msg_type as u64);
            s.append(" proto_version=");
            push_decimal(&mut s, *proto_version as u64);
        },
        _ => {},
    }
    assert(s@ =~= message_text(transport@, mac@, msg@).unwrap());
    Some(s)
}

} // verus!
