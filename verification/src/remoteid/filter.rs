//! Finding OpenDroneID payloads in Bluetooth LE advertising data.

use vstd::prelude::*;
use crate::bytes::copy25;

verus! {

/// The AD Type for Service Data - 16-bit UUID.
pub const AD_TYPE_SERVICE_DATA_16: u8 = 0x16;

/// The Open Drone ID UUID, low byte (the UUID is 0xFFFA, sent little-endian).
pub const ODID_UUID_LO: u8 = 0xFA;

/// The Open Drone ID UUID, high byte.
pub const ODID_UUID_HI: u8 = 0xFF;

/// The application code for ASTM Remote ID over BLE.
pub const ODID_APP_CODE: u8 = 0x0D;

/// Result of filtering an advertising data payload.
/// Contains the counter byte and the 25-byte OpenDroneID message.
#[derive(Debug, Clone, Copy)]
pub struct RemoteIdPayload {
    pub counter: u8,
    pub message: [u8; 25],
}

impl View for RemoteIdPayload {
    type V = (u8, Seq<u8>);

    open spec fn view(&self) -> (u8, Seq<u8>) {
        (self.counter, self.message@)
    }
}

/// Whether the AD structure whose type byte is at `start` and whose length
/// byte says `length` carries an OpenDroneID payload: service data for UUID
/// 0xFFFA with application code 0x0D, long enough for the counter and one
/// 25-byte message.
pub open spec fn is_odid_structure(ad: Seq<u8>, start: int, length: int) -> bool {
    &&& length >= 30
    &&& ad[start] == AD_TYPE_SERVICE_DATA_16
    &&& ad[start + 1] == ODID_UUID_LO
    &&& ad[start + 2] == ODID_UUID_HI
    &&& ad[start + 3] == ODID_APP_CODE
}

/// The OpenDroneID payloads (counter, message) of the AD structures from
/// `offset` on, in order. Each structure is a length byte followed by that
/// many bytes; the walk stops at a zero length byte or at a structure that
/// overruns the data.
pub open spec fn ad_payloads_from(ad: Seq<u8>, offset: int) -> Seq<(u8, Seq<u8>)>
    decreases ad.len() - offset,
{
    if offset < 0 || offset >= ad.len() || ad[offset] == 0 {
        seq![]
    } else {
        let length = ad[offset] as int;
        let start = offset + 1;
        let end = start + length;
        if end > ad.len() {
            seq![]
        } else if is_odid_structure(ad, start, length) {
            seq![(ad[start + 4], ad.subrange(start + 5, start + 30))] + ad_payloads_from(ad, end)
        } else {
            ad_payloads_from(ad, end)
        }
    }
}

/// The OpenDroneID payloads of a whole advertising data block.
pub open spec fn ad_payloads(ad: Seq<u8>) -> Seq<(u8, Seq<u8>)> {
    ad_payloads_from(ad, 0)
}

/// Walk AD structures in BLE advertising data and extract OpenDroneID payloads.
/// Returns all matching payloads found (usually 0 or 1).
pub fn extract_remote_id(ad_data: &[u8]) -> (results: Vec<RemoteIdPayload>)
    ensures
        results@.map_values(|p: RemoteIdPayload| p@) == ad_payloads(ad_data@),
{
    let mut results: Vec<RemoteIdPayload> = Vec::new();
    let mut offset: usize = 0;
    let ghost ad = ad_data@;

    while offset < ad_data.len()
        invariant
            ad == ad_data@,
            offset <= ad_data@.len(),
            ad_payloads(ad) == results@.map_values(|p: RemoteIdPayload| p@) + ad_payloads_from(
                ad,
                offset as int,
            ),
        ensures
            ad_payloads(ad) == results@.map_values(|p: RemoteIdPayload| p@) + ad_payloads_from(
                ad,
                offset as int,
            ),
            ad_payloads_from(ad, offset as int) == Seq::<(u8, Seq<u8>)>::empty(),
        decreases ad_data@.len() - offset,
    {
        let length: usize = ad_data[offset] as usize;
        if length == 0 {
            break;
        }
        let struct_start: usize = offset + 1;
        if length > ad_data.len() - struct_start {
            break;
        }
        let struct_end: usize = struct_start + length;
        let ghost before = results@.map_values(|p: RemoteIdPayload| p@);
        if length >= 30 {
            let ad_type: u8 = ad_data[struct_start];
            if ad_type == AD_TYPE_SERVICE_DATA_16 && ad_data[struct_start + 1] == ODID_UUID_LO
                && ad_data[struct_start + 2] == ODID_UUID_HI && ad_data[struct_start + 3]
                == ODID_APP_CODE {
                let counter: u8 = ad_data[struct_start + 4];
                let msg_start: usize = struct_start + 5;
                if msg_start + 25 <= struct_end {
                    let message = copy25(ad_data, msg_start);
                    results.push(RemoteIdPayload { counter, message });
                    assert(results@.map_values(|p: RemoteIdPayload| p@) =~= before.push(
                        (counter, message@),
                    ));
                    assert(before.push((counter, message@)) + ad_payloads_from(ad, struct_end as int)
                        =~= before + (seq![(counter, message@)] + ad_payloads_from(
                        ad,
                        struct_end as int,
                    )));
                }
            }
        }
        offset = struct_end;
    }
    assert(ad_payloads(ad) =~= results@.map_values(|p: RemoteIdPayload| p@));
    results
}

// ---------------------------------------------------------------------------
// Laws
// ---------------------------------------------------------------------------

/// The AD structure that carries one OpenDroneID message with its counter.
pub open spec fn odid_structure(counter: u8, message: Seq<u8>) -> Seq<u8> {
    seq![30u8, AD_TYPE_SERVICE_DATA_16, ODID_UUID_LO, ODID_UUID_HI, ODID_APP_CODE, counter] + message
}

proof fn lemma_shift(pre: Seq<u8>, rest: Seq<u8>, o: int)
    requires
        0 <= o,
    ensures
        ad_payloads_from(pre + rest, pre.len() + o) == ad_payloads_from(rest, o),
    decreases rest.len() - o,
{
    let ad = pre + rest;
    let q = pre.len() + o;
    if o < rest.len() && rest[o] != 0 {
        let length = rest[o] as int;
        let end = o + 1 + length;
        if end <= rest.len() {
            assert(ad[q] == rest[o]);
            assert(ad[q + 1] == rest[o + 1]);
            if length >= 30 {
                assert(ad[q + 2] == rest[o + 2]);
                assert(ad[q + 3] == rest[o + 3]);
                assert(ad[q + 4] == rest[o + 4]);
                assert(ad[q + 5] == rest[o + 5]);
                assert(ad.subrange(q + 6, q + 31) =~= rest.subrange(o + 6, o + 31));
            }
            lemma_shift(pre, rest, end);
        }
    }
}

/// An AD structure built around a message is found again, with its counter.
pub proof fn odid_structure_found(counter: u8, message: Seq<u8>)
    requires
        message.len() == 25,
    ensures
        ad_payloads(odid_structure(counter, message)) == seq![(counter, message)],
{
    let ad = odid_structure(counter, message);
    assert(ad.subrange(6, 31) =~= message);
    assert(ad_payloads_from(ad, 31) == Seq::<(u8, Seq<u8>)>::empty());
    assert(ad_payloads(ad) =~= seq![(counter, message)]);
}

/// An AD structure that is not an OpenDroneID one is passed over: the
/// payloads after it are found as if it were not there.
pub proof fn other_structure_skipped(body: Seq<u8>, rest: Seq<u8>)
    requires
        1 <= body.len() <= 255,
        !is_odid_structure(seq![body.len() as u8] + body, 1, body.len() as int),
    ensures
        ad_payloads(seq![body.len() as u8] + body + rest) == ad_payloads(rest),
{
    let pre = seq![body.len() as u8] + body;
    let ad = pre + rest;
    assert(ad =~= seq![body.len() as u8] + body + rest);
    assert(ad[0] == body.len() as u8);
    if body.len() >= 4 {
        assert(ad[1] == pre[1] && ad[2] == pre[2] && ad[3] == pre[3] && ad[4] == pre[4]);
    }
    lemma_shift(pre, rest, 0);
}

/// Whether the AD structures of `a` from `offset` on fill it exactly: each
/// has a non-zero length byte and fits, and the last ends at the end of `a`.
pub open spec fn complete_structures_from(a: Seq<u8>, offset: int) -> bool
    decreases a.len() - offset,
{
    if offset < 0 || offset > a.len() {
        false
    } else if offset == a.len() {
        true
    } else if a[offset] == 0 || offset + 1 + a[offset] > a.len() {
        false
    } else {
        complete_structures_from(a, offset + 1 + a[offset])
    }
}

proof fn lemma_concat_from(a: Seq<u8>, b: Seq<u8>, o: int)
    requires
        complete_structures_from(a, o),
    ensures
        ad_payloads_from(a + b, o) == ad_payloads_from(a, o) + ad_payloads(b),
    decreases a.len() - o,
{
    let ab = a + b;
    if o == a.len() {
        lemma_shift(a, b, 0);
        assert(ad_payloads_from(a, o) == Seq::<(u8, Seq<u8>)>::empty());
        assert(ad_payloads_from(a, o) + ad_payloads(b) =~= ad_payloads(b));
    } else {
        let length = a[o] as int;
        let end = o + 1 + length;
        assert(ab[o] == a[o]);
        assert(ab[o + 1] == a[o + 1]);
        if length >= 30 {
            assert(ab[o + 2] == a[o + 2] && ab[o + 3] == a[o + 3] && ab[o + 4] == a[o + 4]);
            assert(ab[o + 5] == a[o + 5]);
            assert(ab.subrange(o + 6, o + 31) =~= a.subrange(o + 6, o + 31));
        }
        lemma_concat_from(a, b, end);
        if is_odid_structure(a, o + 1, length) {
            assert(is_odid_structure(ab, o + 1, length));
            let x = seq![(a[o + 5], a.subrange(o + 6, o + 31))];
            assert(x + ad_payloads_from(a, end) + ad_payloads(b) =~= x + (ad_payloads_from(a, end) + ad_payloads(b)));
        } else {
            assert(!is_odid_structure(ab, o + 1, length));
        }
    }
}

/// The payloads of a block that is a run of complete AD structures followed
/// by more bytes are those of the run, then those of the rest.
pub proof fn payloads_concatenate(a: Seq<u8>, b: Seq<u8>)
    requires
        complete_structures_from(a, 0),
    ensures
        ad_payloads(a + b) == ad_payloads(a) + ad_payloads(b),
{
    lemma_concat_from(a, b, 0);
}

} // verus!
