//! From captured bytes to tracked drones: the decisions that the scanning
//! loops make for each HCI packet and each WiFi frame.

use vstd::prelude::*;
use crate::hci::events::{event_reports, parse_hci_event, single_report_event, single_report_event_parses, AdvertisingReport, ReportModel};
use crate::remoteid::decode::{decode_all, message_of, DroneIdMessage, MessageModel};
use crate::remoteid::filter::{ad_payloads, extract_remote_id, odid_structure, odid_structure_found, RemoteIdPayload};
use crate::tracker::{after_update, has_mac, DroneState, Tracker};
use crate::wifi::frames::{beacon_of, beacon_with_odid_element_found, is_beacon_frame_control, odid_element, parse_remote_id_beacon, radiotap_rssi};

verus! {

/// HCI packet type of an event.
pub const HCI_EVENT_INDICATOR: u8 = 0x04;

/// One decoded message as it was heard, and whether it announced a new drone.
#[derive(Debug)]
pub struct Sighting {
    pub transport: &'static str,
    pub mac: [u8; 6],
    pub rssi: i8,
    /// The Bluetooth address type; `None` for WiFi.
    pub addr_type: Option<u8>,
    pub counter: u8,
    pub message: DroneIdMessage,
    pub is_new: bool,
}

/// A message as heard: sender, signal, address type, counter and content.
pub struct Heard {
    pub mac: Seq<u8>,
    pub rssi: i8,
    pub addr_type: Option<u8>,
    pub counter: u8,
    pub message: MessageModel,
}

/// What a sighting records of the message it reports.
pub open spec fn heard_of(s: Sighting) -> Heard {
    Heard { mac: s.mac@, rssi: s.rssi, addr_type: s.addr_type, counter: s.counter, message: s.message@ }
}

/// The tracked drones after the sightings' messages, in order, all heard at `now`.
pub open spec fn after_sightings(s: Seq<DroneState>, now: u64, xs: Seq<Sighting>) -> Seq<DroneState>
    decreases xs.len(),
{
    if xs.len() == 0 {
        s
    } else {
        let x = xs.last();
        after_update(after_sightings(s, now, xs.drop_last()), now, x.mac, x.rssi, x.counter, x.message, x.transport)
    }
}

/// What the tracker says of each sighting: it was sent over `transport`, and
/// it is new exactly when no drone with its address was tracked before it.
pub open spec fn sightings_agree(s: Seq<DroneState>, now: u64, xs: Seq<Sighting>, transport: &'static str) -> bool {
    forall|i: int|
        0 <= i < xs.len() ==> (#[trigger] xs[i]).transport == transport && xs[i].is_new == !has_mac(
            after_sightings(s, now, xs.take(i)),
            xs[i].mac@,
        )
}

/// The messages that one advertising report carries, in order.
pub open spec fn report_heard(r: ReportModel) -> Seq<Heard> {
    ad_payloads(r.data).map_values(
        |p: (u8, Seq<u8>)|
            Heard { mac: r.addr, rssi: r.rssi, addr_type: Some(r.addr_type), counter: p.0, message: message_of(p.1) },
    )
}

/// The messages that a sequence of reports carries, in order.
pub open spec fn reports_heard(rs: Seq<ReportModel>) -> Seq<Heard>
    decreases rs.len(),
{
    if rs.len() == 0 {
        seq![]
    } else {
        reports_heard(rs.drop_last()) + report_heard(rs.last())
    }
}

/// The HCI event in a packet read from the socket: after the event packet
/// indicator when there is one.
pub open spec fn hci_event_body(packet: Seq<u8>) -> Seq<u8> {
    if packet[0] == HCI_EVENT_INDICATOR {
        packet.skip(1)
    } else {
        packet
    }
}

/// The messages that an HCI packet carries: those of its advertising
/// reports; none for a packet shorter than two bytes or any other event.
pub open spec fn packet_heard(packet: Seq<u8>) -> Seq<Heard> {
    if packet.len() < 2 {
        seq![]
    } else {
        match event_reports(hci_event_body(packet)) {
            Some(rs) => reports_heard(rs),
            None => seq![],
        }
    }
}

/// The message that a captured WiFi frame carries, if it is a Remote ID beacon.
pub open spec fn frame_heard(frame: Seq<u8>) -> Seq<Heard> {
    match beacon_of(frame) {
        Some(b) => seq![
            Heard { mac: b.mac, rssi: b.rssi, addr_type: None, counter: b.counter, message: message_of(b.message) },
        ],
        None => seq![],
    }
}

/// An HCI event packet with one advertising report whose data is one
/// OpenDroneID structure is heard as that message, from the report's address,
/// with its signal strength, address type and the structure's counter.
pub proof fn ble_report_heard(
    event_type: u8,
    addr_type: u8,
    addr: Seq<u8>,
    rssi: i8,
    counter: u8,
    message: Seq<u8>,
)
    requires
        addr.len() == 6,
        message.len() == 25,
    ensures
        ({
            let r = ReportModel { event_type, addr_type, addr, data: odid_structure(counter, message), rssi };
            packet_heard(seq![HCI_EVENT_INDICATOR] + single_report_event(r)) == seq![
                Heard { mac: addr, rssi, addr_type: Some(addr_type), counter, message: message_of(message) },
            ]
        }),
{
    let r = ReportModel { event_type, addr_type, addr, data: odid_structure(counter, message), rssi };
    let packet = seq![HCI_EVENT_INDICATOR] + single_report_event(r);
    assert(packet.skip(1) =~= single_report_event(r));
    single_report_event_parses(r);
    odid_structure_found(counter, message);
    let rs = seq![r];
    assert(rs.drop_last() =~= Seq::<ReportModel>::empty());
    assert(reports_heard(rs) =~= reports_heard(rs.drop_last()) + report_heard(r));
    assert(report_heard(r) =~= seq![
        Heard { mac: addr, rssi, addr_type: Some(addr_type), counter, message: message_of(message) },
    ]);
    assert(reports_heard(rs) =~= seq![
        Heard { mac: addr, rssi, addr_type: Some(addr_type), counter, message: message_of(message) },
    ]);
}

/// A captured beacon whose elements begin with an OpenDroneID element is heard
/// as that message, from the beacon's source address (bytes 10-15 of the
/// 802.11 header), with the radiotap signal strength and the element's counter,
/// whatever the 12 bytes of fixed beacon fields hold.
pub proof fn wifi_beacon_heard(
    radiotap: Seq<u8>,
    header: Seq<u8>,
    fixed: Seq<u8>,
    counter: u8,
    message: Seq<u8>,
    rest: Seq<u8>,
)
    requires
        radiotap.len() >= 4,
        radiotap[2] + 256 * radiotap[3] == radiotap.len(),
        header.len() == 24,
        is_beacon_frame_control(header[0] + 256 * header[1]),
        fixed.len() == 12,
        message.len() == 25,
    ensures
        ({
            let f = radiotap + header + fixed + odid_element(counter, message) + rest;
            frame_heard(f) == seq![
                Heard {
                    mac: header.subrange(10, 16),
                    rssi: radiotap_rssi(f, radiotap.len() as int),
                    addr_type: None,
                    counter,
                    message: message_of(message),
                },
            ]
        }),
{
    beacon_with_odid_element_found(radiotap, header, fixed, counter, message, rest);
}

proof fn lemma_after_sightings_push(s: Seq<DroneState>, now: u64, xs: Seq<Sighting>, x: Sighting)
    ensures
        after_sightings(s, now, xs.push(x)) == after_update(after_sightings(s, now, xs), now, x.mac, x.rssi, x.counter, x.message, x.transport),
{
    assert(xs.push(x).drop_last() =~= xs);
}

/// Hands one message to the tracker and records the sighting.
fn hear(
    tracker: &mut Tracker,
    now: u64,
    mac: &[u8; 6],
    rssi: i8,
    addr_type: Option<u8>,
    counter: u8,
    message: DroneIdMessage,
    transport: &'static str,
    out: &mut Vec<Sighting>,
    Ghost(start): Ghost<Seq<DroneState>>,
)
    requires
        old(tracker).wf(),
        old(tracker)@ == after_sightings(start, now, old(out)@),
        sightings_agree(start, now, old(out)@, transport),
    ensures
        final(tracker).wf(),
        final(tracker).expiry() == old(tracker).expiry(),
        final(tracker)@ == after_sightings(start, now, final(out)@),
        sightings_agree(start, now, final(out)@, transport),
        final(out)@.len() == old(out)@.len() + 1,
        final(out)@.drop_last() == old(out)@,
        heard_of(final(out)@.last()) == (Heard { mac: mac@, rssi, addr_type, counter, message: message@ }),
{
    let is_new = tracker.update_at(now, mac, rssi, counter, &message, transport);
    let ghost before = out@;
    let x = Sighting { transport, mac: *mac, rssi, addr_type, counter, message, is_new };
    out.push(x);
    proof {
        lemma_after_sightings_push(start, now, before, x);
        assert(out@.drop_last() =~= before);
        assert forall|i: int| 0 <= i < out@.len() implies (#[trigger] out@[i]).transport == transport
            && out@[i].is_new == !has_mac(after_sightings(start, now, out@.take(i)), out@[i].mac@) by {
            if i < before.len() {
                assert(out@.take(i) =~= before.take(i));
            } else {
                assert(out@.take(i) =~= before);
            }
        }
    }
}

/// Process one packet read from the HCI socket at `now` (tracker
/// nanoseconds): every Remote ID message in its advertising reports goes to
/// the tracker, in order, and is returned as a sighting.
pub fn process_hci_packet_at(tracker: &mut Tracker, now: u64, packet: &[u8]) -> (out: Vec<Sighting>)
    requires
        old(tracker).wf(),
    ensures
        final(tracker).wf(),
        final(tracker).expiry() == old(tracker).expiry(),
        out@.map_values(|x: Sighting| heard_of(x)) == packet_heard(packet@),
        sightings_agree(old(tracker)@, now, out@, "ble"),
        final(tracker)@ == after_sightings(old(tracker)@, now, out@),
{
    let ghost start = tracker@;
    let mut out: Vec<Sighting> = Vec::new();
    assert(out@.map_values(|x: Sighting| heard_of(x)) =~= Seq::<Heard>::empty());
    if packet.len() < 2 {
        return out;
    }
    let event = if packet[0] == HCI_EVENT_INDICATOR {
        vstd::slice::slice_subrange(packet, 1, packet.len())
    } else {
        packet
    };
    assert(event@ =~= hci_event_body(packet@));
    let reports = match parse_hci_event(event) {
        Some(r) => r,
        None => return out,
    };
    let ghost rs = reports@.map_values(|r: AdvertisingReport| r@);
    let mut k: usize = 0;
    while k < reports.len()
        invariant
            tracker.wf(),
            tracker.expiry() == old(tracker).expiry(),
            start == old(tracker)@,
            k <= reports@.len(),
            rs == reports@.map_values(|r: AdvertisingReport| r@),
            packet_heard(packet@) == reports_heard(rs),
            out@.map_values(|x: Sighting| heard_of(x)) == reports_heard(rs.take(k as int)),
            tracker@ == after_sightings(start, now, out@),
            sightings_agree(start, now, out@, "ble"),
        decreases reports@.len() - k,
    {
        let report = &reports[k];
        let payloads = extract_remote_id(report.data.as_slice());
        let ghost ps = payloads@.map_values(|p: RemoteIdPayload| p@);
        let ghost prior = out@.map_values(|x: Sighting| heard_of(x));
        assert(ps == ad_payloads(rs[k as int].data));
        let mut j: usize = 0;
        while j < payloads.len()
            invariant
                tracker.wf(),
                tracker.expiry() == old(tracker).expiry(),
                j <= payloads@.len(),
                k < reports@.len(),
                ps == payloads@.map_values(|p: RemoteIdPayload| p@),
                ps == ad_payloads(rs[k as int].data),
                rs[k as int] == reports@[k as int]@,
                *report == reports@[k as int],
                out@.map_values(|x: Sighting| heard_of(x)) == prior + report_heard(rs[k as int]).take(j as int),
                tracker@ == after_sightings(start, now, out@),
                sightings_agree(start, now, out@, "ble"),
            decreases payloads@.len() - j,
        {
            let payload = &payloads[j];
            let mut messages = decode_all(&payload.message);
            let message = messages.remove(0);
            let ghost before = out@.map_values(|x: Sighting| heard_of(x));
            hear(
                tracker,
                now,
                &report.addr,
                report.rssi,
                Some(report.addr_type),
                payload.counter,
                message,
                "ble",
                &mut out,
                Ghost(start),
            );
            proof {
                let h = Heard {
                    mac: report.addr@,
                    rssi: report.rssi,
                    addr_type: Some(report.addr_type),
                    counter: payload.counter,
                    message: message_of(payload.message@),
                };
                assert(out@.map_values(|x: Sighting| heard_of(x)) =~= before.push(h));
                assert(ps[j as int] == payloads@[j as int]@);
                assert(report_heard(rs[k as int])[j as int] == h);
                assert(report_heard(rs[k as int]).take(j + 1) =~= report_heard(rs[k as int]).take(j as int).push(h));
            }
            j = j + 1;
        }
        proof {
            assert(report_heard(rs[k as int]).take(j as int) =~= report_heard(rs[k as int]));
            assert(rs.take(k + 1).drop_last() =~= rs.take(k as int));
        }
        k = k + 1;
    }
    assert(rs.take(k as int) =~= rs);
    out
}

/// Process one packet read from the HCI socket, heard now.
pub fn process_hci_packet(tracker: &mut Tracker, packet: &[u8]) -> (out: Vec<Sighting>)
    requires
        old(tracker).wf(),
    ensures
        final(tracker).wf(),
        final(tracker).expiry() == old(tracker).expiry(),
        out@.map_values(|x: Sighting| heard_of(x)) == packet_heard(packet@),
        exists|now: u64|
            sightings_agree(old(tracker)@, now, out@, "ble") && final(tracker)@ == after_sightings(
                old(tracker)@,
                now,
                out@,
            ),
{
    let now: u64 = tracker.clock_ns();
    process_hci_packet_at(tracker, now, packet)
}

/// Process one frame captured on the WiFi monitor interface at `now`
/// (tracker nanoseconds): a Remote ID beacon's message goes to the tracker
/// and is returned as a sighting.
pub fn process_wifi_frame_at(tracker: &mut Tracker, now: u64, frame: &[u8]) -> (out: Vec<Sighting>)
    requires
        old(tracker).wf(),
    ensures
        final(tracker).wf(),
        final(tracker).expiry() == old(tracker).expiry(),
        out@.map_values(|x: Sighting| heard_of(x)) == frame_heard(frame@),
        sightings_agree(old(tracker)@, now, out@, "wifi"),
        final(tracker)@ == after_sightings(old(tracker)@, now, out@),
{
    let ghost start = tracker@;
    let mut out: Vec<Sighting> = Vec::new();
    assert(out@.map_values(|x: Sighting| heard_of(x)) =~= Seq::<Heard>::empty());
    match parse_remote_id_beacon(frame) {
        Some(beacon) => {
            let mut messages = decode_all(&beacon.message);
            let message = messages.remove(0);
            hear(tracker, now, &beacon.mac, beacon.rssi, None, beacon.counter, message, "wifi", &mut out, Ghost(start));
            assert(out@.map_values(|x: Sighting| heard_of(x)) =~= frame_heard(frame@));
        },
        None => {},
    }
    out
}

/// Process one frame captured on the WiFi monitor interface, heard now.
pub fn process_wifi_frame(tracker: &mut Tracker, frame: &[u8]) -> (out: Vec<Sighting>)
    requires
        old(tracker).wf(),
    ensures
        final(tracker).wf(),
        final(tracker).expiry() == old(tracker).expiry(),
        out@.map_values(|x: Sighting| heard_of(x)) == frame_heard(frame@),
        exists|now: u64|
            sightings_agree(old(tracker)@, now, out@, "wifi") && final(tracker)@ == after_sightings(
                old(tracker)@,
                now,
                out@,
            ),
{
    let now: u64 = tracker.clock_ns();
    process_wifi_frame_at(tracker, now, frame)
}

} // verus!
