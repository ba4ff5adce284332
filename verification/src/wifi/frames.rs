//! Parsing radiotap-framed 802.11 beacons for OpenDroneID vendor elements.

use vstd::prelude::*;
use crate::bytes::{copy25, copy6, le_u16, le_u32, read_le_u16, read_le_u32};

verus! {

/// Result of parsing a WiFi beacon carrying a Remote ID payload.
pub struct RemoteIdBeacon {
    pub mac: [u8; 6],
    pub rssi: i8,
    pub counter: u8,
    pub message: [u8; 25],
}

/// A beacon's Remote ID payload with its address and message as byte sequences.
pub struct BeaconModel {
    pub mac: Seq<u8>,
    pub rssi: i8,
    pub counter: u8,
    pub message: Seq<u8>,
}

impl View for RemoteIdBeacon {
    type V = BeaconModel;

    open spec fn view(&self) -> BeaconModel {
        BeaconModel { mac: self.mac@, rssi: self.rssi, counter: self.counter, message: self.message@ }
    }
}

/// OpenDroneID over WiFi Beacon OUI: FA:0B:BC, type 0x0D
pub const ODID_OUI_0: u8 = 0xFA;
pub const ODID_OUI_1: u8 = 0x0B;
pub const ODID_OUI_2: u8 = 0xBC;
pub const ODID_TYPE: u8 = 0x0D;

/// Vendor Specific IE tag
pub const IE_VENDOR_SPECIFIC: u8 = 0xDD;

// ---------------------------------------------------------------------------
// Radiotap signal strength
// ---------------------------------------------------------------------------

/// The little-endian 32-bit word at `i`.
pub open spec fn word_at(f: Seq<u8>, i: int) -> u32 {
    le_u32(f[i], f[i + 1], f[i + 2], f[i + 3]) as u32
}

/// The offset just past the radiotap presence bitmaps, walking from the word
/// before `offset` whose value is `p`: while the extension bit (bit 31) is set,
/// the next 32-bit word is another bitmap. `None` when a bitmap would run past
/// the end of the frame.
pub open spec fn bitmaps_end(f: Seq<u8>, offset: int, p: u32) -> Option<int>
    decreases f.len() - offset,
{
    if p & 0x8000_0000 == 0 {
        Some(offset)
    } else if offset + 8 > f.len() {
        None
    } else {
        bitmaps_end(f, offset + 4, word_at(f, offset))
    }
}

/// `o` rounded up to a multiple of `n`.
pub open spec fn align_up(o: int, n: int) -> int {
    ((o + n - 1) / n) * n
}

/// The offset of the dBm antenna signal field (radiotap field 5), placed after
/// the fields 0 to 4 that the first presence bitmap announces: TSFT (8 bytes,
/// 8-aligned), flags (1), rate (1), channel (4, 2-aligned), FHSS (2).
pub open spec fn signal_offset(f: Seq<u8>, after_bitmaps: int, present: u32) -> int {
    let o0 = if present & 0x01 != 0 { align_up(after_bitmaps, 8) + 8 } else { after_bitmaps };
    let o1 = if present & 0x02 != 0 { o0 + 1 } else { o0 };
    let o2 = if present & 0x04 != 0 { o1 + 1 } else { o1 };
    let o3 = if present & 0x08 != 0 { align_up(o2, 2) + 4 } else { o2 };
    if present & 0x10 != 0 { o3 + 2 } else { o3 }
}

/// The signal strength (dBm) that a radiotap header of length `rt_len` at the
/// start of `f` reports, or 0 when the header is too short, the signal field
/// is absent, or it lies past the end of the frame.
pub open spec fn radiotap_rssi(f: Seq<u8>, rt_len: int) -> i8 {
    if rt_len < 8 || f.len() < rt_len {
        0
    } else {
        let present = word_at(f, 4);
        if present & 0x20 == 0 {
            0
        } else {
            match bitmaps_end(f, 8, present) {
                None => 0,
                Some(o) => {
                    let at = signal_offset(f, o, present);
                    if at < f.len() {
                        f[at] as i8
                    } else {
                        0
                    }
                },
            }
        }
    }
}

/// Extract RSSI (signal dBm) from radiotap header.
/// Walks the radiotap present bitmask to find the signal field.
pub fn extract_rssi(frame: &[u8], rt_len: usize) -> (rssi: i8)
    ensures
        rssi == radiotap_rssi(frame@, rt_len as int),
{
    let ghost f = frame@;
    if rt_len < 8 || frame.len() < rt_len {
        return 0;
    }
    let present: u32 = read_le_u32(frame, 4);
    if present & 0x20 == 0 {
        return 0;
    }
    let mut offset: usize = 8;
    let mut p: u32 = present;
    while p & 0x8000_0000 != 0
        invariant
            f == frame@,
            8 <= offset <= f.len(),
            8 <= rt_len <= f.len(),
            present == word_at(f, 4),
            present & 0x20 != 0,
            bitmaps_end(f, 8, present) == bitmaps_end(f, offset as int, p),
        ensures
            8 <= offset <= f.len(),
            bitmaps_end(f, 8, present) == Some(offset as int),
        decreases f.len() - offset,
    {
        if offset > frame.len() - 8 {
            return 0;
        }
        offset = offset + 4;
        p = read_le_u32(frame, offset - 4);
    }
    // The field arithmetic is done in u128 so that it cannot overflow.
    let mut at: u128 = offset as u128;
    if present & 0x01 != 0 {
        at = (at + 7) / 8 * 8 + 8;
    }
    if present & 0x02 != 0 {
        at = at + 1;
    }
    if present & 0x04 != 0 {
        at = at + 1;
    }
    if present & 0x08 != 0 {
        at = (at + 1) / 2 * 2 + 4;
    }
    if present & 0x10 != 0 {
        at = at + 2;
    }
    assert(at == signal_offset(f, offset as int, present));
    if at < frame.len() as u128 {
        #[verifier::truncate] (frame[at as usize] as i8)
    } else {
        0
    }
}

// ---------------------------------------------------------------------------
// Information elements
// ---------------------------------------------------------------------------

/// Whether the element whose data starts at `start` and is `len` bytes long is
/// the OpenDroneID vendor element: tag 0xDD, OUI FA:0B:BC, type 0x0D, and room
/// for the counter and one 25-byte message.
pub open spec fn is_odid_element(ies: Seq<u8>, tag: u8, start: int, len: int) -> bool {
    &&& tag == IE_VENDOR_SPECIFIC
    &&& len >= 30
    &&& ies[start] == ODID_OUI_0
    &&& ies[start + 1] == ODID_OUI_1
    &&& ies[start + 2] == ODID_OUI_2
    &&& ies[start + 3] == ODID_TYPE
}

/// The (counter, message) of the first OpenDroneID vendor element from
/// `offset` on. Each element is a tag byte, a length byte and that much data;
/// the walk stops at an element that overruns the data.
pub open spec fn ie_payload_from(ies: Seq<u8>, offset: int) -> Option<(u8, Seq<u8>)>
    decreases ies.len() - offset,
{
    if offset < 0 || offset + 2 > ies.len() {
        None
    } else {
        let tag = ies[offset];
        let len = ies[offset + 1] as int;
        let start = offset + 2;
        let end = start + len;
        if end > ies.len() {
            None
        } else if is_odid_element(ies, tag, start, len) {
            Some((ies[start + 4], ies.subrange(start + 5, start + 30)))
        } else {
            ie_payload_from(ies, end)
        }
    }
}

/// Walk IEs and look for Vendor Specific (0xDD) with ODID OUI.
pub fn parse_remote_id_ie(ies: &[u8], mac: [u8; 6], rssi: i8) -> (res: Option<RemoteIdBeacon>)
    ensures
        match (res, ie_payload_from(ies@, 0)) {
            (None, None) => true,
            (Some(b), Some((counter, message))) => b@ == (BeaconModel {
                mac: mac@,
                rssi,
                counter,
                message,
            }),
            _ => false,
        },
{
    let ghost s = ies@;
    let mut offset: usize = 0;
    while ies.len() >= 2 && offset <= ies.len() - 2
        invariant
            s == ies@,
            offset <= s.len(),
            ie_payload_from(s, 0) == ie_payload_from(s, offset as int),
        ensures
            ie_payload_from(s, 0) == ie_payload_from(s, offset as int),
            offset + 2 > s.len() || ie_payload_from(s, offset as int) is None,
        decreases s.len() - offset,
    {
        let tag: u8 = ies[offset];
        let len: usize = ies[offset + 1] as usize;
        let data_start: usize = offset + 2;
        if len > ies.len() - data_start {
            break;
        }
        let data_end: usize = data_start + len;
        if tag == IE_VENDOR_SPECIFIC && len >= 30 {
            if ies[data_start] == ODID_OUI_0 && ies[data_start + 1] == ODID_OUI_1 && ies[data_start
                + 2] == ODID_OUI_2 && ies[data_start + 3] == ODID_TYPE {
                let counter: u8 = ies[data_start + 4];
                let message = copy25(ies, data_start + 5);
                return Some(RemoteIdBeacon { mac, rssi, counter, message });
            }
        }
        offset = data_end;
    }
    None
}

// ---------------------------------------------------------------------------
// Beacons
// ---------------------------------------------------------------------------

/// Whether a frame control field says Management (type 0), Beacon (subtype 8).
pub open spec fn is_beacon_frame_control(fc: int) -> bool {
    (fc / 4) % 4 == 0 && (fc / 16) % 16 == 8
}

/// The Remote ID payload that a captured frame carries: the frame is a
/// radiotap header (its length in bytes 2..4) followed by an 802.11 beacon with
/// a full 24-byte header; the source address is bytes 10..16 of that header,
/// and the elements follow the 12 bytes of fixed beacon fields.
pub open spec fn beacon_of(f: Seq<u8>) -> Option<BeaconModel> {
    if f.len() < 4 {
        None
    } else {
        let rt_len = le_u16(f[2], f[3]);
        if f.len() < rt_len + 24 {
            None
        } else {
            let dot11 = f.subrange(rt_len, f.len() as int);
            if !is_beacon_frame_control(le_u16(dot11[0], dot11[1])) || dot11.len() < 36 {
                None
            } else {
                match ie_payload_from(dot11.subrange(36, dot11.len() as int), 0) {
                    None => None,
                    Some((counter, message)) => Some(
                        BeaconModel {
                            mac: dot11.subrange(10, 16),
                            rssi: radiotap_rssi(f, rt_len),
                            counter,
                            message,
                        },
                    ),
                }
            }
        }
    }
}

/// Parse a raw captured frame (starting with radiotap header) and extract
/// Remote ID data from WiFi beacons.
///
/// Returns None if the frame is not a beacon or doesn't contain Remote ID data.
pub fn parse_remote_id_beacon(frame: &[u8]) -> (res: Option<RemoteIdBeacon>)
    ensures
        match (res, beacon_of(frame@)) {
            (None, None) => true,
            (Some(b), Some(m)) => b@ == m,
            _ => false,
        },
{
    if frame.len() < 4 {
        return None;
    }
    let rt_len: usize = read_le_u16(frame, 2) as usize;
    if frame.len() < rt_len + 24 {
        return None;
    }
    let rssi: i8 = extract_rssi(frame, rt_len);
    let dot11 = vstd::slice::slice_subrange(frame, rt_len, frame.len());
    let fc: u16 = read_le_u16(dot11, 0);
    let frame_type: u16 = (fc / 4) % 4;
    let frame_subtype: u16 = (fc / 16) % 16;
    if frame_type != 0 || frame_subtype != 8 {
        return None;
    }
    if dot11.len() < 24 {
        return None;
    }
    let mac = copy6(dot11, 10);
    let ie_start: usize = 24 + 12;
    if dot11.len() < ie_start {
        return None;
    }
    let ies = vstd::slice::slice_subrange(dot11, ie_start, dot11.len());
    parse_remote_id_ie(ies, mac, rssi)
}

// ---------------------------------------------------------------------------
// Laws
// ---------------------------------------------------------------------------

/// The vendor element that carries one OpenDroneID message with its counter.
pub open spec fn odid_element(counter: u8, message: Seq<u8>) -> Seq<u8> {
    seq![IE_VENDOR_SPECIFIC, 30u8, ODID_OUI_0, ODID_OUI_1, ODID_OUI_2, ODID_TYPE, counter] + message
}

proof fn lemma_ie_shift(pre: Seq<u8>, rest: Seq<u8>, o: int)
    requires
        0 <= o,
    ensures
        ie_payload_from(pre + rest, pre.len() + o) == ie_payload_from(rest, o),
    decreases rest.len() - o,
{
    let ies = pre + rest;
    let q = pre.len() + o;
    if o + 2 <= rest.len() {
        assert(ies[q] == rest[o] && ies[q + 1] == rest[o + 1]);
        let len = rest[o + 1] as int;
        let end = o + 2 + len;
        if end <= rest.len() {
            if len >= 30 {
                assert(ies[q + 2] == rest[o + 2] && ies[q + 3] == rest[o + 3]);
                assert(ies[q + 4] == rest[o + 4] && ies[q + 5] == rest[o + 5]);
                assert(ies[q + 6] == rest[o + 6]);
                assert(ies.subrange(q + 7, q + 32) =~= rest.subrange(o + 7, o + 32));
            }
            lemma_ie_shift(pre, rest, end);
        }
    }
}

/// An OpenDroneID vendor element is found again, with its counter and message.
pub proof fn odid_element_found(counter: u8, message: Seq<u8>, rest: Seq<u8>)
    requires
        message.len() == 25,
    ensures
        ie_payload_from(odid_element(counter, message) + rest, 0) == Some((counter, message)),
{
    let ies = odid_element(counter, message) + rest;
    assert(ies.subrange(7, 32) =~= message);
}

/// A beacon whose first element is an OpenDroneID vendor element is found,
/// whatever the radiotap header holds (its length in bytes 2-3 is its own
/// length) and whatever the 12 bytes of fixed beacon fields hold: the elements
/// begin 24 + 12 bytes into the 802.11 frame. The sender is bytes 10-15 of the
/// 802.11 header, and the counter and message are those of the element.
pub proof fn beacon_with_odid_element_found(
    radiotap: Seq<u8>,
    header: Seq<u8>,
    fixed: Seq<u8>,
    counter: u8,
    message: Seq<u8>,
    rest: Seq<u8>,
)
    requires
        radiotap.len() >= 4,
        radiotap[2] + 256 * radiotap[3] == radiotap.len(),
        header.len() == 24,
        is_beacon_frame_control(header[0] + 256 * header[1]),
        fixed.len() == 12,
        message.len() == 25,
    ensures
        ({
            let f = radiotap + header + fixed + odid_element(counter, message) + rest;
            beacon_of(f) == Some(
                BeaconModel {
                    mac: header.subrange(10, 16),
                    rssi: radiotap_rssi(f, radiotap.len() as int),
                    counter,
                    message,
                },
            )
        }),
{
    let f = radiotap + header + fixed + odid_element(counter, message) + rest;
    let n = radiotap.len() as int;
    let dot11 = f.subrange(n, f.len() as int);
    assert(dot11 =~= header + fixed + odid_element(counter, message) + rest);
    assert(f[2] == radiotap[2] && f[3] == radiotap[3]);
    assert(dot11[0] == header[0] && dot11[1] == header[1]);
    assert(dot11.subrange(36, dot11.len() as int) =~= odid_element(counter, message) + rest);
    assert(dot11.subrange(10, 16) =~= header.subrange(10, 16));
    odid_element_found(counter, message, rest);
}

/// A frame that is not a beacon (its frame control names another type or
/// subtype) carries no Remote ID payload, whatever follows.
pub proof fn non_beacon_ignored(radiotap: Seq<u8>, header: Seq<u8>, rest: Seq<u8>)
    requires
        radiotap.len() >= 4,
        radiotap[2] + 256 * radiotap[3] == radiotap.len(),
        header.len() == 24,
        (header[0] / 4) % 4 != 0 || header[0] / 16 != 8,
    ensures
        beacon_of(radiotap + header + rest) is None,
{
    let f = radiotap + header + rest;
    let n = radiotap.len() as int;
    let dot11 = f.subrange(n, f.len() as int);
    assert(f[2] == radiotap[2] && f[3] == radiotap[3]);
    assert(dot11[0] == header[0] && dot11[1] == header[1]);
    let fc = le_u16(dot11[0], dot11[1]);
    assert((fc / 4) % 4 == (header[0] / 4) % 4);
    assert((fc / 16) % 16 == header[0] / 16);
}

/// A radiotap header announcing flags, rate, channel and antenna signal
/// (presence word 0x2E) places the signal after one flags byte, one rate byte
/// and the 4-byte channel field: at byte 14, whatever those fields hold.
pub proof fn signal_after_flags_rate_channel(flags: u8, rate: u8, channel: Seq<u8>, signal: u8, rest: Seq<u8>)
    requires
        channel.len() == 4,
    ensures
        ({
            let f = seq![0u8, 0u8, 15u8, 0u8, 0x2Eu8, 0u8, 0u8, 0u8, flags, rate] + channel + seq![signal]
                + rest;
            radiotap_rssi(f, 15) == signal as i8
        }),
{
    let f = seq![0u8, 0u8, 15u8, 0u8, 0x2Eu8, 0u8, 0u8, 0u8, flags, rate] + channel + seq![signal] + rest;
    assert(f[4] == 0x2Eu8 && f[5] == 0u8 && f[6] == 0u8 && f[7] == 0u8 && f[14] == signal);
    assert(word_at(f, 4) == 0x2Eu32);
    assert(0x2Eu32 & 0x20 != 0) by (bit_vector);
    assert(0x2Eu32 & 0x8000_0000 == 0) by (bit_vector);
    assert(0x2Eu32 & 0x01 == 0) by (bit_vector);
    assert(0x2Eu32 & 0x02 != 0) by (bit_vector);
    assert(0x2Eu32 & 0x04 != 0) by (bit_vector);
    assert(0x2Eu32 & 0x08 != 0) by (bit_vector);
    assert(0x2Eu32 & 0x10 == 0) by (bit_vector);
    assert(align_up(10, 2) == 10);
    assert(signal_offset(f, 8, 0x2Eu32) == 14);
}

/// A radiotap header announcing TSFT, flags and antenna signal (presence word
/// 0x23) places the 8-byte TSFT at byte 8 (already 8-aligned), one flags byte
/// after it and the signal at byte 17.
pub proof fn signal_after_tsft_flags(tsft: Seq<u8>, flags: u8, signal: u8, rest: Seq<u8>)
    requires
        tsft.len() == 8,
    ensures
        ({
            let f = seq![0u8, 0u8, 18u8, 0u8, 0x23u8, 0u8, 0u8, 0u8] + tsft + seq![flags, signal] + rest;
            radiotap_rssi(f, 18) == signal as i8
        }),
{
    let f = seq![0u8, 0u8, 18u8, 0u8, 0x23u8, 0u8, 0u8, 0u8] + tsft + seq![flags, signal] + rest;
    assert(f[4] == 0x23u8 && f[5] == 0u8 && f[6] == 0u8 && f[7] == 0u8 && f[17] == signal);
    assert(word_at(f, 4) == 0x23u32);
    assert(0x23u32 & 0x20 != 0) by (bit_vector);
    assert(0x23u32 & 0x8000_0000 == 0) by (bit_vector);
    assert(0x23u32 & 0x01 != 0) by (bit_vector);
    assert(0x23u32 & 0x02 != 0) by (bit_vector);
    assert(0x23u32 & 0x04 == 0) by (bit_vector);
    assert(0x23u32 & 0x08 == 0) by (bit_vector);
    assert(0x23u32 & 0x10 == 0) by (bit_vector);
    assert(align_up(8, 8) == 8);
    assert(signal_offset(f, 8, 0x23u32) == 17);
}

/// A radiotap header without the antenna signal (presence bit 5 clear)
/// reports 0.
pub proof fn no_signal_field_reports_zero(f: Seq<u8>, rt_len: int)
    requires
        8 <= rt_len <= f.len(),
        f[4] & 0x20 == 0,
    ensures
        radiotap_rssi(f, rt_len) == 0,
{
    let b0 = f[4];
    let b1 = f[5];
    let b2 = f[6];
    let b3 = f[7];
    assert(((b0 + 256 * b1 + 65536 * b2 + 16777216 * b3) as u32) & 0x20 == 0) by (bit_vector)
        requires
            b0 & 0x20 == 0,
    ;
}

/// Any other element is passed over: the search continues after it.
pub proof fn other_element_skipped(tag: u8, body: Seq<u8>, rest: Seq<u8>)
    requires
        body.len() <= 255,
        !is_odid_element(seq![tag, body.len() as u8] + body, tag, 2, body.len() as int),
    ensures
        ie_payload_from(seq![tag, body.len() as u8] + body + rest, 0) == ie_payload_from(rest, 0),
{
    let pre = seq![tag, body.len() as u8] + body;
    let ies = pre + rest;
    assert(ies =~= seq![tag, body.len() as u8] + body + rest);
    assert(ies[0] == tag && ies[1] == body.len() as u8);
    if body.len() >= 30 {
        assert(ies[2] == pre[2] && ies[3] == pre[3] && ies[4] == pre[4] && ies[5] == pre[5]);
    }
    lemma_ie_shift(pre, rest, 0);
}

/// A radiotap header that carries only the antenna signal (presence bit 5,
/// header length 9) reports the signal byte that follows the bitmap.
pub proof fn signal_only_header(signal: u8, rest: Seq<u8>)
    ensures
        radiotap_rssi(seq![0u8, 0u8, 9u8, 0u8, 0x20u8, 0u8, 0u8, 0u8, signal] + rest, 9) == signal as i8,
{
    let f = seq![0u8, 0u8, 9u8, 0u8, 0x20u8, 0u8, 0u8, 0u8, signal] + rest;
    assert(f[4] == 0x20u8 && f[5] == 0u8 && f[6] == 0u8 && f[7] == 0u8 && f[8] == signal);
    assert(word_at(f, 4) == 0x20u32);
    assert(0x20u32 & 0x20 != 0) by (bit_vector);
    assert(0x20u32 & 0x8000_0000 == 0) by (bit_vector);
    assert(0x20u32 & 0x01 == 0) by (bit_vector);
    assert(0x20u32 & 0x02 == 0) by (bit_vector);
    assert(0x20u32 & 0x04 == 0) by (bit_vector);
    assert(0x20u32 & 0x08 == 0) by (bit_vector);
    assert(0x20u32 & 0x10 == 0) by (bit_vector);
}

} // verus!
