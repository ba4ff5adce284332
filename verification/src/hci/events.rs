//! Parsing HCI LE Advertising Report events.

use vstd::prelude::*;
use crate::bytes::copy6;

verus! {

/// Event code of the LE Meta Event.
pub const LE_META_EVENT: u8 = 0x3E;

/// LE Meta Event subevent code of the LE Advertising Report.
pub const LE_ADVERTISING_REPORT: u8 = 0x02;

/// A parsed LE Advertising Report.
#[derive(Debug, Clone)]
pub struct AdvertisingReport {
    pub event_type: u8,
    pub addr_type: u8,
    pub addr: [u8; 6],
    pub data: Vec<u8>,
    pub rssi: i8,
}

/// An advertising report with its address and data as byte sequences.
pub struct ReportModel {
    pub event_type: u8,
    pub addr_type: u8,
    pub addr: Seq<u8>,
    pub data: Seq<u8>,
    pub rssi: i8,
}

impl View for AdvertisingReport {
    type V = ReportModel;

    open spec fn view(&self) -> ReportModel {
        ReportModel {
            event_type: self.event_type,
            addr_type: self.addr_type,
            addr: self.addr@,
            data: self.data@,
            rssi: self.rssi,
        }
    }
}

/// The reports that the parameters `p` hold from `offset` on, reading at most
/// `remaining` of them. Each report is event type, address type, 6 address
/// bytes, a data length, that much data, then the RSSI byte; reading stops
/// early at the first report that does not fit.
pub open spec fn reports_from(p: Seq<u8>, offset: int, remaining: nat) -> Seq<ReportModel>
    decreases remaining,
{
    if remaining == 0 || offset < 0 || offset + 9 > p.len() {
        seq![]
    } else {
        let data_start = offset + 9;
        let data_end = data_start + p[offset + 8];
        if data_end > p.len() || data_end >= p.len() {
            seq![]
        } else {
            seq![
                ReportModel {
                    event_type: p[offset],
                    addr_type: p[offset + 1],
                    addr: p.subrange(offset + 2, offset + 8),
                    data: p.subrange(data_start, data_end),
                    rssi: p[data_end] as i8,
                },
            ] + reports_from(p, data_end + 1, (remaining - 1) as nat)
        }
    }
}

/// The advertising reports of an HCI event (event code, parameter length,
/// parameters), or `None` when the buffer is not a complete LE Meta Event
/// carrying an LE Advertising Report. Bytes past the announced parameter
/// length are ignored.
pub open spec fn event_reports(buf: Seq<u8>) -> Option<Seq<ReportModel>> {
    if buf.len() < 2 || buf[0] != LE_META_EVENT {
        None
    } else {
        let param_len = buf[1] as int;
        if buf.len() < 2 + param_len || param_len < 1 {
            None
        } else {
            let p = buf.subrange(2, 2 + param_len);
            if p[0] != LE_ADVERTISING_REPORT || p.len() < 2 {
                None
            } else {
                Some(reports_from(p, 2, p[1] as nat))
            }
        }
    }
}

/// Parse an HCI event buffer (after the 0x04 packet indicator byte).
/// Returns advertising reports if this is a LE Advertising Report event.
pub fn parse_hci_event(buf: &[u8]) -> (res: Option<Vec<AdvertisingReport>>)
    ensures
        match (res, event_reports(buf@)) {
            (None, None) => true,
            (Some(v), Some(s)) => v@.map_values(|r: AdvertisingReport| r@) == s,
            _ => false,
        },
{
    if buf.len() < 2 {
        return None;
    }
    let event_code: u8 = buf[0];
    let param_len: usize = buf[1] as usize;
    if event_code != LE_META_EVENT {
        return None;
    }
    if buf.len() < 2 + param_len || param_len < 1 {
        return None;
    }
    let params = vstd::slice::slice_subrange(buf, 2, 2 + param_len);
    let subevent: u8 = params[0];
    if subevent != LE_ADVERTISING_REPORT {
        return None;
    }
    if params.len() < 2 {
        return None;
    }
    let num_reports: usize = params[1] as usize;
    let mut offset: usize = 2;
    let mut reports: Vec<AdvertisingReport> = Vec::with_capacity(num_reports);
    let mut done: usize = 0;
    let ghost p = params@;
    while done < num_reports
        invariant
            p == params@,
            done <= num_reports,
            num_reports == p[1],
            2 <= offset <= p.len(),
            p.len() <= 255,
            reports_from(p, 2, num_reports as nat) == reports@.map_values(
                |r: AdvertisingReport| r@,
            ) + reports_from(p, offset as int, (num_reports - done) as nat),
        ensures
            reports_from(p, 2, num_reports as nat) == reports@.map_values(
                |r: AdvertisingReport| r@,
            ),
        decreases num_reports - done,
    {
        let ghost before = reports@.map_values(|r: AdvertisingReport| r@);
        if offset + 9 > params.len() {
            break;
        }
        let event_type: u8 = params[offset];
        let addr_type: u8 = params[offset + 1];
        let addr = copy6(params, offset + 2);
        let data_length: usize = params[offset + 8] as usize;
        let data_start: usize = offset + 9;
        if data_start + data_length > params.len() {
            break;
        }
        let data = vstd::slice::slice_to_vec(
            vstd::slice::slice_subrange(params, data_start, data_start + data_length),
        );
        let data_end: usize = data_start + data_length;
        if data_end >= params.len() {
            break;
        }
        let rssi: i8 = #[verifier::truncate] (params[data_end] as i8);
        offset = data_end + 1;
        let report = AdvertisingReport { event_type, addr_type, addr, data, rssi };
        let ghost rv = report@;
        reports.push(report);
        done = done + 1;
        assert(reports@.map_values(|r: AdvertisingReport| r@) =~= before.push(rv));
        assert(before.push(rv) + reports_from(p, offset as int, (num_reports - done) as nat) =~= before
            + (seq![rv] + reports_from(p, offset as int, (num_reports - done) as nat)));
    }
    Some(reports)
}

// ---------------------------------------------------------------------------
// Laws
// ---------------------------------------------------------------------------

/// The bytes of one advertising report.
pub open spec fn report_bytes(r: ReportModel) -> Seq<u8> {
    seq![r.event_type, r.addr_type] + r.addr + seq![r.data.len() as u8] + r.data + seq![r.rssi as u8]
}

/// An LE Meta Event holding one advertising report.
pub open spec fn single_report_event(r: ReportModel) -> Seq<u8> {
    seq![LE_META_EVENT, (report_bytes(r).len() + 2) as u8, LE_ADVERTISING_REPORT, 1u8] + report_bytes(r)
}

/// An LE Advertising Report event built around one report parses back to it.
pub proof fn single_report_event_parses(r: ReportModel)
    requires
        r.addr.len() == 6,
        r.data.len() <= 243,
    ensures
        event_reports(single_report_event(r)) == Some(seq![r]),
{
    let b = report_bytes(r);
    let buf = single_report_event(r);
    let p = buf.subrange(2, buf.len() as int);
    assert(p =~= seq![LE_ADVERTISING_REPORT, 1u8] + b);
    let n = r.data.len() as int;
    assert(p[10] == r.data.len() as u8);
    assert(p.subrange(4, 10) =~= r.addr);
    assert(p.subrange(11, 11 + n) =~= r.data);
    assert(p[11 + n] == r.rssi as u8);
    let v = r.rssi;
    assert((v as u8) as i8 == v) by (bit_vector);
    assert(reports_from(p, 12 + n, 0) == Seq::<ReportModel>::empty());
    let got = reports_from(p, 2, 1);
    assert(got[0] == r);
    assert(got =~= seq![r]);
}

/// Only an LE Meta Event carrying an LE Advertising Report has reports: any
/// other event code, or another LE subevent, gives `None`.
pub proof fn other_events_ignored(buf: Seq<u8>)
    requires
        buf.len() >= 3,
        buf[0] != 0x3E || (buf[1] >= 1 && buf.len() >= 2 + buf[1] && buf[2] != 0x02),
    ensures
        event_reports(buf) is None,
{
    if buf[0] == 0x3E {
        let p = buf.subrange(2, 2 + buf[1] as int);
        assert(p[0] == buf[2]);
    }
}

/// A report whose data would run past the event's parameters, or that has no
/// room for its RSSI byte, ends the reading: the reports before it are kept.
pub proof fn truncated_report_dropped(rs: Seq<ReportModel>, partial: Seq<u8>)
    requires
        forall|i: int| 0 <= i < rs.len() ==> report_fits(#[trigger] rs[i]),
        reports_bytes(rs).len() + partial.len() + 4 <= 255,
        rs.len() < 255,
        partial.len() < 9 || partial.len() <= 9 + partial[8],
    ensures
        ({
            let body = reports_bytes(rs) + partial;
            let buf = seq![LE_META_EVENT, (body.len() + 2) as u8, LE_ADVERTISING_REPORT, (rs.len() + 1) as u8]
                + body;
            event_reports(buf) == Some(rs)
        }),
{
    let body = reports_bytes(rs) + partial;
    let buf = seq![LE_META_EVENT, (body.len() + 2) as u8, LE_ADVERTISING_REPORT, (rs.len() + 1) as u8] + body;
    let p = buf.subrange(2, body.len() as int + 4);
    assert(p =~= seq![LE_ADVERTISING_REPORT, (rs.len() + 1) as u8] + body);
    assert(p.subrange(2, reports_bytes(rs).len() as int + 2) =~= reports_bytes(rs));
    assert(p.subrange(reports_bytes(rs).len() as int + 2, p.len() as int) =~= partial);
    lemma_reports_then_stop(p, 2, rs, partial);
}

proof fn lemma_reports_then_stop(p: Seq<u8>, offset: int, rs: Seq<ReportModel>, partial: Seq<u8>)
    requires
        0 <= offset,
        p.len() == offset + reports_bytes(rs).len() + partial.len(),
        p.subrange(offset, offset + reports_bytes(rs).len()) == reports_bytes(rs),
        p.subrange(offset + reports_bytes(rs).len(), p.len() as int) == partial,
        forall|i: int| 0 <= i < rs.len() ==> report_fits(#[trigger] rs[i]),
        partial.len() < 9 || partial.len() <= 9 + partial[8],
    ensures
        reports_from(p, offset, rs.len() + 1) == rs,
    decreases rs.len(),
{
    if rs.len() == 0 {
        let q = offset;
        if q + 9 <= p.len() {
            assert(p[q + 8] == partial[8]);
        }
        assert(reports_from(p, offset, 1) =~= Seq::<ReportModel>::empty());
    } else {
        lemma_reports_from_bytes(p, offset, rs);
        let r = rs[0];
        let rest = rs.drop_first();
        let b = report_bytes(r);
        let next = offset + b.len();
        let all = reports_bytes(rs);
        assert(all == b + reports_bytes(rest));
        assert(report_fits(rs[0]));
        assert forall|i: int| 0 <= i < rest.len() implies report_fits(#[trigger] rest[i]) by {
            assert(rest[i] == rs[i + 1]);
        }
        assert(p.subrange(next, next + reports_bytes(rest).len()) =~= reports_bytes(rest)) by {
            assert forall|k: int| 0 <= k < reports_bytes(rest).len() implies p.subrange(
                next,
                next + reports_bytes(rest).len(),
            )[k] == reports_bytes(rest)[k] by {
                assert(p[next + k] == p.subrange(offset, offset + all.len())[b.len() + k]);
                assert(all[b.len() + k] == reports_bytes(rest)[k]);
            }
        }
        assert(p.subrange(next + reports_bytes(rest).len(), p.len() as int) =~= partial);
        lemma_reports_then_stop(p, next, rest, partial);
        // The first report reads as before; the rest follow from the step.
        let n = r.data.len() as int;
        assert forall|k: int| 0 <= k < b.len() implies p[offset + k] == #[trigger] b[k] by {
            assert(p[offset + k] == p.subrange(offset, offset + all.len())[k]);
            assert(all[k] == b[k]);
        }
        assert(p[offset + 8] == b[8]);
        assert(p[offset + 8] as int == n);
        let got = reports_from(p, offset, rs.len() + 1);
        let first = reports_from(p, offset, rs.len());
        assert(first == rs);
        assert(got == seq![first[0]] + reports_from(p, next, rest.len() + 1));
        assert(got =~= seq![r] + rest);
        assert(seq![r] + rest =~= rs);
    }
}

/// The bytes of a sequence of advertising reports, one after another.
pub open spec fn reports_bytes(rs: Seq<ReportModel>) -> Seq<u8>
    decreases rs.len(),
{
    if rs.len() == 0 {
        seq![]
    } else {
        report_bytes(rs[0]) + reports_bytes(rs.drop_first())
    }
}

/// An LE Meta Event holding the advertising reports `rs`, one after another.
pub open spec fn reports_event(rs: Seq<ReportModel>) -> Seq<u8> {
    seq![LE_META_EVENT, (reports_bytes(rs).len() + 2) as u8, LE_ADVERTISING_REPORT, rs.len() as u8]
        + reports_bytes(rs)
}

/// Whether a report can be written in an event: a 6-byte address and data
/// whose length fits its length byte.
pub open spec fn report_fits(r: ReportModel) -> bool {
    r.addr.len() == 6 && r.data.len() < 256
}

proof fn lemma_reports_from_bytes(p: Seq<u8>, offset: int, rs: Seq<ReportModel>)
    requires
        0 <= offset,
        offset + reports_bytes(rs).len() <= p.len(),
        p.subrange(offset, offset + reports_bytes(rs).len()) == reports_bytes(rs),
        forall|i: int| 0 <= i < rs.len() ==> report_fits(#[trigger] rs[i]),
    ensures
        reports_from(p, offset, rs.len()) == rs,
    decreases rs.len(),
{
    if rs.len() > 0 {
        let r = rs[0];
        let rest = rs.drop_first();
        let b = report_bytes(r);
        let n = r.data.len() as int;
        assert(report_fits(rs[0]));
        assert(b.len() == 10 + n);
        let all = reports_bytes(rs);
        assert(all == b + reports_bytes(rest));
        assert forall|k: int| 0 <= k < b.len() implies p[offset + k] == #[trigger] b[k] by {
            assert(p[offset + k] == p.subrange(offset, offset + all.len())[k]);
            assert(all[k] == b[k]);
        }
        assert(p[offset + 8] == b[8]);
        assert(b[8] == r.data.len() as u8);
        assert(p.subrange(offset + 2, offset + 8) =~= r.addr) by {
            assert forall|k: int| 0 <= k < 6 implies p.subrange(offset + 2, offset + 8)[k] == r.addr[k] by {
                assert(p[offset + 2 + k] == b[2 + k]);
            }
        }
        assert(p.subrange(offset + 9, offset + 9 + n) =~= r.data) by {
            assert forall|k: int| 0 <= k < n implies p.subrange(offset + 9, offset + 9 + n)[k] == r.data[k] by {
                assert(p[offset + 9 + k] == b[9 + k]);
            }
        }
        assert(p[offset + 9 + n] == b[9 + n]);
        assert(b[9 + n] == #[verifier::truncate] (r.rssi as u8));
        let v = r.rssi;
        assert((v as u8) as i8 == v) by (bit_vector);
        let next = offset + b.len();
        assert forall|i: int| 0 <= i < rest.len() implies report_fits(#[trigger] rest[i]) by {
            assert(rest[i] == rs[i + 1]);
        }
        assert(p.subrange(next, next + reports_bytes(rest).len()) =~= reports_bytes(rest)) by {
            assert forall|k: int| 0 <= k < reports_bytes(rest).len() implies p.subrange(
                next,
                next + reports_bytes(rest).len(),
            )[k] == reports_bytes(rest)[k] by {
                assert(p[next + k] == p.subrange(offset, offset + all.len())[b.len() + k]);
                assert(all[b.len() + k] == reports_bytes(rest)[k]);
            }
        }
        lemma_reports_from_bytes(p, next, rest);
        assert(p[offset] == b[0] && b[0] == r.event_type);
        assert(p[offset + 1] == b[1] && b[1] == r.addr_type);
        assert(p[offset + 8] as int == n);
        assert(p[offset + 9 + n] as i8 == r.rssi);
        assert(offset + 9 + n < p.len());
        let got = reports_from(p, offset, rs.len());
        assert(got == seq![
            ReportModel {
                event_type: p[offset],
                addr_type: p[offset + 1],
                addr: p.subrange(offset + 2, offset + 8),
                data: p.subrange(offset + 9, offset + 9 + n),
                rssi: p[offset + 9 + n] as i8,
            },
        ] + reports_from(p, next, rest.len()));
        assert(got[0] == r);
        assert(got =~= seq![r] + rest);
        assert(seq![r] + rest =~= rs);
    }
}

/// An LE Advertising Report event that holds any number of complete reports,
/// one right after another, parses back to exactly those reports in order:
/// each report starts right after the previous report's RSSI byte.
pub proof fn reports_event_parses(rs: Seq<ReportModel>)
    requires
        forall|i: int| 0 <= i < rs.len() ==> report_fits(#[trigger] rs[i]),
        reports_bytes(rs).len() + 2 <= 255,
        rs.len() <= 255,
    ensures
        event_reports(reports_event(rs)) == Some(rs),
{
    let buf = reports_event(rs);
    let body = reports_bytes(rs);
    let p = buf.subrange(2, body.len() as int + 4);
    assert(p =~= seq![LE_ADVERTISING_REPORT, rs.len() as u8] + body);
    assert(p.subrange(2, body.len() as int + 2) =~= body);
    lemma_reports_from_bytes(p, 2, rs);
}

} // verus!
