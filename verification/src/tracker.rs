//! Per-drone state, keyed by the transmitter's MAC address.
//!
//! Times are nanoseconds on the tracker's own monotonic clock, which starts
//! when the tracker is created.

use vstd::prelude::*;
use crate::remoteid::decode::{BasicId, DroneIdMessage, Location, OperatorId, System};

verus! {

#[verifier::external_type_specification]
#[verifier::external_body]
pub struct ExInstant(std::time::Instant);

/// Calls `std::time::Instant::now`. Nothing is stated of the instant.
#[verifier::external_body]
fn instant_now() -> std::time::Instant {
    std::time::Instant::now()
}

/// Calls `std::time::Instant::elapsed` and returns it in whole nanoseconds.
/// Nothing is stated of the value: it is the time that has passed.
#[verifier::external_body]
fn nanos_since(epoch: &std::time::Instant) -> u64 {
    epoch.elapsed().as_nanos() as u64
}

/// Per-drone tracked state.
#[derive(Debug)]
pub struct DroneState {
    pub mac: [u8; 6],
    pub transport: &'static str,
    /// When the drone was first heard, in tracker nanoseconds.
    pub first_seen_ns: u64,
    /// When the last accepted message was heard, in tracker nanoseconds.
    pub last_seen_ns: u64,
    pub rssi: i8,
    pub last_counter: Option<u8>,
    pub basic_id: Option<BasicId>,
    pub location: Option<Location>,
    pub system: Option<System>,
    pub operator_id: Option<OperatorId>,
    pub msg_count: u64,
}

/// The tracked drones, each MAC address at most once.
pub struct Tracker {
    drones: Vec<DroneState>,
    expiry_secs: u64,
    epoch: std::time::Instant,
}

// ---------------------------------------------------------------------------
// The model: a sequence of drone states
// ---------------------------------------------------------------------------

/// Whether some state in `s` has the address `mac`.
pub open spec fn has_mac(s: Seq<DroneState>, mac: Seq<u8>) -> bool {
    exists|i: int| 0 <= i < s.len() && (#[trigger] s[i]).mac@ == mac
}

/// The position of the state with address `mac`.
pub open spec fn mac_index(s: Seq<DroneState>, mac: Seq<u8>) -> int {
    choose|i: int| 0 <= i < s.len() && (#[trigger] s[i]).mac@ == mac
}

/// No two states share an address.
pub open spec fn macs_distinct(s: Seq<DroneState>) -> bool {
    forall|i: int, j: int|
        0 <= i < s.len() && 0 <= j < s.len() && i != j ==> (#[trigger] s[i]).mac@ != (#[trigger] s[j]).mac@
}

/// The state of a drone heard for the first time, before its message is applied.
pub open spec fn new_drone(mac: [u8; 6], transport: &'static str, now: u64, rssi: i8) -> DroneState {
    DroneState {
        mac,
        transport,
        first_seen_ns: now,
        last_seen_ns: now,
        rssi,
        last_counter: None,
        basic_id: None,
        location: None,
        system: None,
        operator_id: None,
        msg_count: 0,
    }
}

/// A count of messages after one more (it stays at `u64::MAX` once there).
pub open spec fn count_up(n: u64) -> u64 {
    if n == u64::MAX {
        n
    } else {
        (n + 1) as u64
    }
}

/// A state after an accepted message: it was heard now, with this RSSI and
/// counter, one more message was counted, and a Basic ID, Location, System or
/// Operator ID message replaces the stored one of its kind.
pub open spec fn with_message(
    st: DroneState,
    now: u64,
    rssi: i8,
    counter: u8,
    msg: DroneIdMessage,
) -> DroneState {
    let heard = DroneState {
        last_seen_ns: now,
        rssi,
        last_counter: Some(counter),
        msg_count: count_up(st.msg_count),
        ..st
    };
    match msg {
        DroneIdMessage::BasicId(b) => DroneState { basic_id: Some(b), ..heard },
        DroneIdMessage::Location(l) => DroneState { location: Some(l), ..heard },
        DroneIdMessage::System(sy) => DroneState { system: Some(sy), ..heard },
        DroneIdMessage::OperatorId(o) => DroneState { operator_id: Some(o), ..heard },
        _ => heard,
    }
}

/// The states after a message from `mac`: a new drone is added; a message
/// whose counter repeats the drone's last accepted counter is dropped;
/// otherwise the drone's state takes the message.
pub open spec fn after_update(
    s: Seq<DroneState>,
    now: u64,
    mac: [u8; 6],
    rssi: i8,
    counter: u8,
    msg: DroneIdMessage,
    transport: &'static str,
) -> Seq<DroneState> {
    if !has_mac(s, mac@) {
        s.push(with_message(new_drone(mac, transport, now, rssi), now, rssi, counter, msg))
    } else {
        let i = mac_index(s, mac@);
        if s[i].last_counter == Some(counter) {
            s
        } else {
            s.update(i, with_message(s[i], now, rssi, counter, msg))
        }
    }
}

/// Whether a drone last heard at `last_seen` has gone unheard for longer than
/// `expiry_secs` seconds at time `now`.
pub open spec fn is_expired(st: DroneState, now: u64, expiry_secs: u64) -> bool {
    (if now >= st.last_seen_ns { now - st.last_seen_ns } else { 0 }) > expiry_secs * 1_000_000_000
}

/// Whether `order` lists each position of `s` exactly once, most recently
/// heard first.
pub open spec fn is_recency_order(s: Seq<DroneState>, order: Seq<usize>) -> bool {
    &&& order.len() == s.len()
    &&& forall|i: int| 0 <= i < order.len() ==> #[trigger] order[i] < s.len()
    &&& forall|i: int, j: int|
        0 <= i < order.len() && 0 <= j < order.len() && i != j ==> #[trigger] order[i] != #[trigger] order[j]
    &&& forall|i: int, j: int|
        0 <= i < j < order.len() ==> s[#[trigger] order[i] as int].last_seen_ns >= s[#[trigger] order[j] as int].last_seen_ns
}

proof fn lemma_mac_index(s: Seq<DroneState>, mac: Seq<u8>, i: int)
    requires
        macs_distinct(s),
        0 <= i < s.len(),
        s[i].mac@ == mac,
    ensures
        has_mac(s, mac),
        mac_index(s, mac) == i,
{
    assert(has_mac(s, mac));
    let j = mac_index(s, mac);
    assert(s[j].mac@ == mac);
}

/// The MACs of a sequence of drone states, in the same order.
pub open spec fn macs_of(states: Seq<DroneState>) -> Seq<[u8; 6]> {
    states.map_values(|d: DroneState| d.mac)
}

/// The MACs of `states`, in order.
fn mac_list(states: &Vec<DroneState>) -> (macs: Vec<[u8; 6]>)
    ensures
        macs@ == macs_of(states@),
{
    let mut macs: Vec<[u8; 6]> = Vec::new();
    let mut i: usize = 0;
    while i < states.len()
        invariant
            i <= states@.len(),
            macs@ == macs_of(states@.take(i as int)),
        decreases states@.len() - i,
    {
        macs.push(states[i].mac);
        i = i + 1;
        assert(macs@ =~= macs_of(states@.take(i as int)));
    }
    assert(states@.take(i as int) =~= states@);
    macs
}

/// The predicate "expired at `now`" as a function, for filtering.
pub open spec fn expired_at(now: u64, expiry_secs: u64) -> spec_fn(DroneState) -> bool {
    |st: DroneState| is_expired(st, now, expiry_secs)
}

/// The predicate "not expired at `now`" as a function, for filtering.
pub open spec fn fresh_at(now: u64, expiry_secs: u64) -> spec_fn(DroneState) -> bool {
    |st: DroneState| !is_expired(st, now, expiry_secs)
}

proof fn lemma_filter_take_step<A>(s: Seq<A>, k: int, p: spec_fn(A) -> bool)
    requires
        0 <= k < s.len(),
    ensures
        s.take(k + 1).filter(p) == (if p(s[k]) {
            s.take(k).filter(p).push(s[k])
        } else {
            s.take(k).filter(p)
        }),
{
    reveal_with_fuel(Seq::<_>::filter, 1);
    assert(s.take(k + 1).drop_last() =~= s.take(k));
}

fn same_mac(a: &[u8; 6], b: &[u8; 6]) -> (r: bool)
    ensures
        r == (a@ == b@),
{
    let mut i: usize = 0;
    while i < 6
        invariant
            i <= 6,
            forall|k: int| 0 <= k < i ==> a@[k] == b@[k],
        decreases 6 - i,
    {
        if a[i] != b[i] {
            return false;
        }
        i = i + 1;
    }
    assert(a@ =~= b@);
    true
}

/// How often the scanning loops expire silent drones, in seconds.
pub const EXPIRY_CHECK_SECS: u64 = 5;

/// Whether it is time to expire silent drones, `secs_since_last_check`
/// seconds after the last expiry.
pub fn expiry_due(secs_since_last_check: u64) -> (due: bool)
    ensures
        due == (secs_since_last_check >= EXPIRY_CHECK_SECS),
{
    secs_since_last_check >= EXPIRY_CHECK_SECS
}

impl View for Tracker {
    type V = Seq<DroneState>;

    closed spec fn view(&self) -> Seq<DroneState> {
        self.drones@
    }
}

impl Tracker {
    /// The tracker's invariant: no two drones share an address.
    pub open spec fn wf(&self) -> bool {
        macs_distinct(self@)
    }

    /// The expiry window in seconds.
    pub closed spec fn expiry(&self) -> u64 {
        self.expiry_secs
    }

    pub fn new(expiry_secs: u64) -> (t: Self)
        ensures
            t.wf(),
            t@ == Seq::<DroneState>::empty(),
            t.expiry() == expiry_secs,
    {
        Tracker { drones: Vec::new(), expiry_secs, epoch: instant_now() }
    }

    /// The tracked drones.
    pub fn drones(&self) -> (d: &Vec<DroneState>)
        ensures
            d@ == self@,
    {
        &self.drones
    }

    /// The current time on the tracker's clock, in nanoseconds.
    pub fn clock_ns(&self) -> u64 {
        nanos_since(&self.epoch)
    }

    /// The position of the drone with address `mac`.
    fn position(&self, mac: &[u8; 6]) -> (r: Option<usize>)
        requires
            self.wf(),
        ensures
            match r {
                Some(i) => i < self@.len() && has_mac(self@, mac@) && mac_index(self@, mac@) == i,
                None => !has_mac(self@, mac@),
            },
    {
        let mut i: usize = 0;
        while i < self.drones.len()
            invariant
                i <= self.drones@.len(),
                macs_distinct(self.drones@),
                forall|k: int| 0 <= k < i ==> (#[trigger] self.drones@[k]).mac@ != mac@,
            decreases self.drones@.len() - i,
        {
            if same_mac(&self.drones[i].mac, mac) {
                proof {
                    lemma_mac_index(self.drones@, mac@, i as int);
                }
                return Some(i);
            }
            i = i + 1;
        }
        None
    }

    /// The state of the drone with address `mac`, if it is tracked.
    pub fn get(&self, mac: &[u8; 6]) -> (r: Option<&DroneState>)
        requires
            self.wf(),
        ensures
            match r {
                Some(st) => has_mac(self@, mac@) && *st == self@[mac_index(self@, mac@)],
                None => !has_mac(self@, mac@),
            },
    {
        match self.position(mac) {
            Some(i) => Some(&self.drones[i]),
            None => None,
        }
    }

    /// Process a decoded message from a given MAC/RSSI heard at `now`
    /// (tracker nanoseconds). Returns true if this is a new drone.
    pub fn update_at(
        &mut self,
        now: u64,
        mac: &[u8; 6],
        rssi: i8,
        counter: u8,
        message: &DroneIdMessage,
        transport: &'static str,
    ) -> (is_new: bool)
        requires
            old(self).wf(),
        ensures
            final(self).wf(),
            final(self).expiry() == old(self).expiry(),
            is_new == !has_mac(old(self)@, mac@),
            final(self)@ == after_update(old(self)@, now, *mac, rssi, counter, *message, transport),
    {
        let ghost s = self.drones@;
        let pos = self.position(mac);
        let is_new: bool = pos.is_none();
        let i: usize = match pos {
            Some(i) => {
                if self.drones[i].last_counter == Some(counter) {
                    return false;
                }
                i
            },
            None => {
                self.drones.push(
                    DroneState {
                        mac: *mac,
                        transport,
                        first_seen_ns: now,
                        last_seen_ns: now,
                        rssi,
                        last_counter: None,
                        basic_id: None,
                        location: None,
                        system: None,
                        operator_id: None,
                        msg_count: 0,
                    },
                );
                proof {
                    assert(self.drones@ == s.push(new_drone(*mac, transport, now, rssi)));
                }
                self.drones.len() - 1
            },
        };
        let ghost mid = self.drones@;
        let mut st = self.drones.remove(i);
        st.last_seen_ns = now;
        st.rssi = rssi;
        st.last_counter = Some(counter);
        st.msg_count = st.msg_count.saturating_add(1);
        match message {
            DroneIdMessage::BasicId(b) => {
                st.basic_id = Some(b.clone());
            },
            DroneIdMessage::Location(l) => {
                st.location = Some(*l);
            },
            DroneIdMessage::System(sy) => {
                st.system = Some(*sy);
            },
            DroneIdMessage::OperatorId(o) => {
                st.operator_id = Some(o.clone());
            },
            _ => {},
        }
        proof {
            assert(st == with_message(mid[i as int], now, rssi, counter, *message));
        }
        self.drones.insert(i, st);
        proof {
            assert(self.drones@ =~= mid.update(i as int, st));
            if is_new {
                assert(self.drones@ =~= s.push(with_message(new_drone(*mac, transport, now, rssi), now, rssi, counter, *message)));
                assert forall|a: int, b: int|
                    0 <= a < self.drones@.len() && 0 <= b < self.drones@.len() && a != b
                    implies (#[trigger] self.drones@[a]).mac@ != (#[trigger] self.drones@[b]).mac@ by {
                    if a < s.len() && b < s.len() {
                    } else if a < s.len() {
                        assert(s[a].mac@ != mac@);
                    } else {
                        assert(s[b].mac@ != mac@);
                    }
                }
            } else {
                assert(self.drones@ =~= s.update(i as int, with_message(s[i as int], now, rssi, counter, *message)));
                assert forall|a: int, b: int|
                    0 <= a < self.drones@.len() && 0 <= b < self.drones@.len() && a != b
                    implies (#[trigger] self.drones@[a]).mac@ != (#[trigger] self.drones@[b]).mac@ by {
                    assert(s[a].mac@ != s[b].mac@);
                }
            }
        }
        is_new
    }

    /// Remove drones not heard within the expiry window at `now` (tracker
    /// nanoseconds). Returns the states of the removed drones, in tracking order,
    /// for the caller to report.
    pub fn take_expired_at(&mut self, now: u64) -> (lost: Vec<DroneState>)
        requires
            old(self).wf(),
        ensures
            final(self).wf(),
            final(self).expiry() == old(self).expiry(),
            final(self)@ == old(self)@.filter(fresh_at(now, old(self).expiry())),
            lost@ == old(self)@.filter(expired_at(now, old(self).expiry())),
    {
        let mut rest: Vec<DroneState> = Vec::new();
        std::mem::swap(&mut rest, &mut self.drones);
        let ghost s = rest@;
        let expiry_ns: u128 = self.expiry_secs as u128 * 1_000_000_000;
        let mut kept: Vec<DroneState> = Vec::new();
        let mut lost: Vec<DroneState> = Vec::new();
        let ghost mut k: int = 0;
        while rest.len() > 0
            invariant
                macs_distinct(s),
                0 <= k <= s.len(),
                rest@ == s.skip(k),
                expiry_ns == self.expiry_secs * 1_000_000_000,
                kept@ == s.take(k).filter(fresh_at(now, self.expiry_secs)),
                lost@ == s.take(k).filter(expired_at(now, self.expiry_secs)),
                macs_distinct(kept@),
                forall|a: int| 0 <= a < kept@.len() ==> exists|j: int| 0 <= j < k && (#[trigger] kept@[a]).mac@ == s[j].mac@,
            decreases rest@.len(),
        {
            let st = rest.remove(0);
            proof {
                assert(st == s[k]);
                lemma_filter_take_step(s, k, fresh_at(now, self.expiry_secs));
                lemma_filter_take_step(s, k, expired_at(now, self.expiry_secs));
            }
            let elapsed: u64 = now.saturating_sub(st.last_seen_ns);
            if elapsed as u128 > expiry_ns {
                lost.push(st);
            } else {
                let ghost before = kept@;
                kept.push(st);
                proof {
                    assert forall|a: int, b: int|
                        0 <= a < kept@.len() && 0 <= b < kept@.len() && a != b
                        implies (#[trigger] kept@[a]).mac@ != (#[trigger] kept@[b]).mac@ by {
                        if a < before.len() && b < before.len() {
                        } else if a < before.len() {
                            let j = choose|j: int| 0 <= j < k && before[a].mac@ == s[j].mac@;
                            assert(s[j].mac@ != s[k].mac@);
                        } else {
                            let j = choose|j: int| 0 <= j < k && before[b].mac@ == s[j].mac@;
                            assert(s[j].mac@ != s[k].mac@);
                        }
                    }
                    assert forall|a: int| 0 <= a < kept@.len() implies exists|j: int| 0 <= j < k + 1 && (#[trigger] kept@[a]).mac@ == s[j].mac@ by {
                        if a < before.len() {
                            let j = choose|j: int| 0 <= j < k && before[a].mac@ == s[j].mac@;
                            assert(kept@[a].mac@ == s[j].mac@);
                        } else {
                            assert(kept@[a].mac@ == s[k].mac@);
                        }
                    }
                }
            }
            proof {
                k = k + 1;
                assert(rest@ =~= s.skip(k));
            }
        }
        proof {
            assert(s.take(k) =~= s);
        }
        self.drones = kept;
        lost
    }

    /// Remove drones not heard within the expiry window, as of now. Returns
    /// the states of the removed drones, in tracking order, for the caller to
    /// report.
    pub fn take_expired(&mut self) -> (lost: Vec<DroneState>)
        requires
            old(self).wf(),
        ensures
            final(self).wf(),
            final(self).expiry() == old(self).expiry(),
            exists|now: u64|
                final(self)@ == old(self)@.filter(fresh_at(now, old(self).expiry()))
                && lost@ == old(self)@.filter(expired_at(now, old(self).expiry())),
    {
        let now: u64 = nanos_since(&self.epoch);
        self.take_expired_at(now)
    }

    /// Remove drones not heard within the expiry window at `now` (tracker
    /// nanoseconds). Returns the MACs of the removed drones, in tracking order.
    pub fn expire_at(&mut self, now: u64) -> (lost: Vec<[u8; 6]>)
        requires
            old(self).wf(),
        ensures
            final(self).wf(),
            final(self).expiry() == old(self).expiry(),
            final(self)@ == old(self)@.filter(fresh_at(now, old(self).expiry())),
            lost@ == macs_of(old(self)@.filter(expired_at(now, old(self).expiry()))),
    {
        let states = self.take_expired_at(now);
        mac_list(&states)
    }

    /// Remove drones not heard within the expiry window, as of now. Returns the
    /// MACs of the removed drones, in tracking order.
    pub fn expire(&mut self) -> (lost: Vec<[u8; 6]>)
        requires
            old(self).wf(),
        ensures
            final(self).wf(),
            final(self).expiry() == old(self).expiry(),
            exists|now: u64|
                final(self)@ == old(self)@.filter(fresh_at(now, old(self).expiry()))
                && lost@ == macs_of(old(self)@.filter(expired_at(now, old(self).expiry()))),
    {
        let now: u64 = nanos_since(&self.epoch);
        self.expire_at(now)
    }

    /// The positions of the tracked drones, most recently heard first (ties
    /// keep tracking order).
    pub fn recency_order(&self) -> (order: Vec<usize>)
        ensures
            is_recency_order(self@, order@),
    {
        let n: usize = self.drones.len();
        let mut order: Vec<usize> = Vec::new();
        let mut k: usize = 0;
        while k < n
            invariant
                n == self.drones@.len(),
                k <= n,
                order@.len() == k,
                forall|i: int| 0 <= i < order@.len() ==> #[trigger] order@[i] < k,
                forall|i: int, j: int|
                    0 <= i < order@.len() && 0 <= j < order@.len() && i != j ==> #[trigger] order@[i] != #[trigger] order@[j],
                forall|i: int, j: int|
                    0 <= i < j < order@.len() ==> self.drones@[#[trigger] order@[i] as int].last_seen_ns >= self.drones@[#[trigger] order@[j] as int].last_seen_ns,
            decreases n - k,
        {
            let t: u64 = self.drones[k].last_seen_ns;
            let mut p: usize = 0;
            while p < order.len() && self.drones[order[p]].last_seen_ns >= t
                invariant
                    n == self.drones@.len(),
                    k < n,
                    p <= order@.len(),
                    order@.len() == k,
                    t == self.drones@[k as int].last_seen_ns,
                    forall|i: int| 0 <= i < order@.len() ==> #[trigger] order@[i] < k,
                    forall|i: int| 0 <= i < p ==> self.drones@[#[trigger] order@[i] as int].last_seen_ns >= t,
                decreases order@.len() - p,
            {
                p = p + 1;
            }
            let ghost before = order@;
            order.insert(p, k);
            proof {
                assert(order@ =~= before.insert(p as int, k));
                assert forall|i: int, j: int|
                    0 <= i < j < order@.len() implies self.drones@[#[trigger] order@[i] as int].last_seen_ns >= self.drones@[#[trigger] order@[j] as int].last_seen_ns by {
                    if j < p {
                        assert(order@[i] == before[i] && order@[j] == before[j]);
                    } else if j == p {
                        assert(order@[i] == before[i]);
                    } else if i < p {
                        assert(order@[i] == before[i] && order@[j] == before[j - 1]);
                    } else if i == p {
                        assert(order@[j] == before[j - 1]);
                        if p < before.len() {
                            assert(self.drones@[before[p as int] as int].last_seen_ns < t);
                            assert(self.drones@[before[p as int] as int].last_seen_ns >= self.drones@[before[j - 1] as int].last_seen_ns || j - 1 == p);
                        }
                    } else {
                        assert(order@[i] == before[i - 1] && order@[j] == before[j - 1]);
                    }
                }
                assert forall|i: int, j: int|
                    0 <= i < order@.len() && 0 <= j < order@.len() && i != j implies #[trigger] order@[i] != #[trigger] order@[j] by {
                    if i < p && j < p {
                    } else if i < p && j > p {
                        assert(order@[j] == before[j - 1]);
                    } else if i > p && j < p {
                        assert(order@[i] == before[i - 1]);
                    } else if i > p && j > p {
                        assert(order@[i] == before[i - 1] && order@[j] == before[j - 1]);
                    }
                }
            }
            k = k + 1;
        }
        order
    }

    /// Process a decoded message from a given MAC/RSSI, heard now. Returns true
    /// if this is a new drone.
    pub fn update(
        &mut self,
        mac: &[u8; 6],
        rssi: i8,
        counter: u8,
        message: &DroneIdMessage,
        transport: &'static str,
    ) -> (is_new: bool)
        requires
            old(self).wf(),
        ensures
            final(self).wf(),
            final(self).expiry() == old(self).expiry(),
            is_new == !has_mac(old(self)@, mac@),
            exists|now: u64|
                final(self)@ == after_update(old(self)@, now, *mac, rssi, counter, *message, transport),
    {
        let now: u64 = nanos_since(&self.epoch);
        self.update_at(now, mac, rssi, counter, message, transport)
    }
}

// ---------------------------------------------------------------------------
// Laws
// ---------------------------------------------------------------------------

proof fn lemma_after_update_distinct(
    s: Seq<DroneState>,
    now: u64,
    mac: [u8; 6],
    rssi: i8,
    counter: u8,
    msg: DroneIdMessage,
    transport: &'static str,
)
    requires
        macs_distinct(s),
    ensures
        macs_distinct(after_update(s, now, mac, rssi, counter, msg, transport)),
        has_mac(after_update(s, now, mac, rssi, counter, msg, transport), mac@),
{
    let t = after_update(s, now, mac, rssi, counter, msg, transport);
    if !has_mac(s, mac@) {
        assert forall|a: int, b: int|
            0 <= a < t.len() && 0 <= b < t.len() && a != b implies (#[trigger] t[a]).mac@ != (#[trigger] t[b]).mac@ by {
            if a < s.len() && b < s.len() {
                assert(t[a] == s[a] && t[b] == s[b]);
            } else if a < s.len() {
                assert(t[a] == s[a]);
            } else {
                assert(t[b] == s[b]);
            }
        }
        assert(t[s.len() as int].mac@ == mac@);
    } else {
        let i = mac_index(s, mac@);
        assert forall|a: int, b: int|
            0 <= a < t.len() && 0 <= b < t.len() && a != b implies (#[trigger] t[a]).mac@ != (#[trigger] t[b]).mac@ by {
            assert(t[a].mac == s[a].mac && t[b].mac == s[b].mac);
        }
        assert(t[i].mac@ == mac@);
    }
}

/// After a message from a drone, that drone is tracked: its last accepted
/// counter is the message's counter, and the tracker still holds each address
/// once.
pub proof fn update_tracks_sender(
    s: Seq<DroneState>,
    now: u64,
    mac: [u8; 6],
    rssi: i8,
    counter: u8,
    msg: DroneIdMessage,
    transport: &'static str,
)
    requires
        macs_distinct(s),
    ensures
        ({
            let t = after_update(s, now, mac, rssi, counter, msg, transport);
            &&& macs_distinct(t)
            &&& has_mac(t, mac@)
            &&& t[mac_index(t, mac@)].last_counter == Some(counter)
        }),
{
    lemma_after_update_distinct(s, now, mac, rssi, counter, msg, transport);
    let t = after_update(s, now, mac, rssi, counter, msg, transport);
    if !has_mac(s, mac@) {
        lemma_mac_index(t, mac@, s.len() as int);
    } else {
        let i = mac_index(s, mac@);
        lemma_mac_index(t, mac@, i);
    }
}

/// An accepted message (from a new drone, or with a counter other than the
/// drone's last one) is stored in its sender's state: the drone was heard now,
/// with this signal strength and counter; a Basic ID, Location, System or
/// Operator ID message becomes the stored one of its kind, and the stored
/// messages of the other kinds stay as they were (none for a new drone).
pub proof fn update_stores_message(
    s: Seq<DroneState>,
    now: u64,
    mac: [u8; 6],
    rssi: i8,
    counter: u8,
    msg: DroneIdMessage,
    transport: &'static str,
)
    requires
        macs_distinct(s),
        !has_mac(s, mac@) || s[mac_index(s, mac@)].last_counter != Some(counter),
    ensures
        ({
            let t = after_update(s, now, mac, rssi, counter, msg, transport);
            let known = has_mac(s, mac@);
            let before = s[mac_index(s, mac@)];
            let st = t[mac_index(t, mac@)];
            &&& has_mac(t, mac@)
            &&& st.mac == mac
            &&& st.last_seen_ns == now
            &&& st.rssi == rssi
            &&& st.last_counter == Some(counter)
            &&& st.first_seen_ns == (if known { before.first_seen_ns } else { now })
            &&& st.transport == (if known { before.transport } else { transport })
            &&& (!known ==> st.msg_count == 1)
            &&& (known && before.msg_count < u64::MAX ==> st.msg_count == before.msg_count + 1)
            &&& (msg matches DroneIdMessage::BasicId(b) ==> st.basic_id == Some(b))
            &&& (msg matches DroneIdMessage::Location(l) ==> st.location == Some(l))
            &&& (msg matches DroneIdMessage::System(sy) ==> st.system == Some(sy))
            &&& (msg matches DroneIdMessage::OperatorId(o) ==> st.operator_id == Some(o))
            &&& (!(msg is BasicId) ==> st.basic_id == (if known { before.basic_id } else { None }))
            &&& (!(msg is Location) ==> st.location == (if known { before.location } else { None }))
            &&& (!(msg is System) ==> st.system == (if known { before.system } else { None }))
            &&& (!(msg is OperatorId) ==> st.operator_id == (if known {
                before.operator_id
            } else {
                None
            }))
        }),
{
    update_tracks_sender(s, now, mac, rssi, counter, msg, transport);
    let t = after_update(s, now, mac, rssi, counter, msg, transport);
    if !has_mac(s, mac@) {
        lemma_mac_index(t, mac@, s.len() as int);
    } else {
        let i = mac_index(s, mac@);
        lemma_mac_index(t, mac@, i);
    }
}

/// A message from one drone leaves every other drone's state as it was.
pub proof fn update_leaves_others(
    s: Seq<DroneState>,
    now: u64,
    mac: [u8; 6],
    rssi: i8,
    counter: u8,
    msg: DroneIdMessage,
    transport: &'static str,
    other: Seq<u8>,
)
    requires
        macs_distinct(s),
        has_mac(s, other),
        other != mac@,
    ensures
        ({
            let t = after_update(s, now, mac, rssi, counter, msg, transport);
            has_mac(t, other) && t[mac_index(t, other)] == s[mac_index(s, other)]
        }),
{
    lemma_after_update_distinct(s, now, mac, rssi, counter, msg, transport);
    let t = after_update(s, now, mac, rssi, counter, msg, transport);
    let j = mac_index(s, other);
    if !has_mac(s, mac@) {
        assert(t[j] == s[j]);
    } else {
        let i = mac_index(s, mac@);
        assert(i != j);
        assert(t[j] == s[j]);
    }
    lemma_mac_index(t, other, j);
}

/// A message that repeats the counter of the drone's last accepted message is
/// a duplicate: the second of two messages with the same counter from the same
/// drone changes nothing, whatever it says and whenever it arrives.
pub proof fn repeated_counter_ignored(
    s: Seq<DroneState>,
    mac: [u8; 6],
    counter: u8,
    now1: u64,
    rssi1: i8,
    msg1: DroneIdMessage,
    transport1: &'static str,
    now2: u64,
    rssi2: i8,
    msg2: DroneIdMessage,
    transport2: &'static str,
)
    requires
        macs_distinct(s),
    ensures
        ({
            let t = after_update(s, now1, mac, rssi1, counter, msg1, transport1);
            after_update(t, now2, mac, rssi2, counter, msg2, transport2) == t
        }),
{
    update_tracks_sender(s, now1, mac, rssi1, counter, msg1, transport1);
}

proof fn lemma_filter_none<A>(t: Seq<A>, q: spec_fn(A) -> bool)
    requires
        forall|i: int| 0 <= i < t.len() ==> !q(#[trigger] t[i]),
    ensures
        t.filter(q) == Seq::<A>::empty(),
    decreases t.len(),
{
    reveal_with_fuel(Seq::<_>::filter, 1);
    if t.len() > 0 {
        assert forall|i: int| 0 <= i < t.drop_last().len() implies !q(#[trigger] t.drop_last()[i]) by {
            assert(t.drop_last()[i] == t[i]);
        }
        lemma_filter_none(t.drop_last(), q);
        assert(!q(t[t.len() - 1]));
    }
}

proof fn lemma_filter_split(s: Seq<DroneState>, now: u64, expiry_secs: u64)
    ensures
        s.filter(fresh_at(now, expiry_secs)).len() + s.filter(expired_at(now, expiry_secs)).len() == s.len(),
    decreases s.len(),
{
    reveal_with_fuel(Seq::<_>::filter, 1);
    if s.len() > 0 {
        lemma_filter_split(s.drop_last(), now, expiry_secs);
    }
}

/// Expiry splits the tracked drones in two: those kept were heard within the
/// window, those lost were not, and together they are all the drones there were.
pub proof fn expiry_partitions(s: Seq<DroneState>, now: u64, expiry_secs: u64)
    ensures
        ({
            let kept = s.filter(fresh_at(now, expiry_secs));
            let lost = s.filter(expired_at(now, expiry_secs));
            &&& kept.len() + lost.len() == s.len()
            &&& forall|i: int| 0 <= i < kept.len() ==> !is_expired(#[trigger] kept[i], now, expiry_secs)
            &&& forall|i: int| 0 <= i < lost.len() ==> is_expired(#[trigger] lost[i], now, expiry_secs)
        }),
{
    lemma_filter_split(s, now, expiry_secs);
    let kept = s.filter(fresh_at(now, expiry_secs));
    let lost = s.filter(expired_at(now, expiry_secs));
    assert forall|i: int| 0 <= i < kept.len() implies !is_expired(#[trigger] kept[i], now, expiry_secs) by {
        s.lemma_filter_pred(fresh_at(now, expiry_secs), i);
    }
    assert forall|i: int| 0 <= i < lost.len() implies is_expired(#[trigger] lost[i], now, expiry_secs) by {
        s.lemma_filter_pred(expired_at(now, expiry_secs), i);
    }
}

/// The expiry window is inclusive: a drone last heard at `t` is kept at
/// `t + window` (window in nanoseconds) and lost one nanosecond later; once
/// lost it stays lost at any later time, and a clock reading before its last
/// message never counts as silence.
pub proof fn expiry_boundary(st: DroneState, expiry_secs: u64, now: u64, later: u64)
    ensures
        st.last_seen_ns + expiry_secs * 1_000_000_000 <= u64::MAX ==> !is_expired(
            st,
            (st.last_seen_ns + expiry_secs * 1_000_000_000) as u64,
            expiry_secs,
        ),
        st.last_seen_ns + expiry_secs * 1_000_000_000 + 1 <= u64::MAX ==> is_expired(
            st,
            (st.last_seen_ns + expiry_secs * 1_000_000_000 + 1) as u64,
            expiry_secs,
        ),
        is_expired(st, now, expiry_secs) && now <= later ==> is_expired(st, later, expiry_secs),
        now <= st.last_seen_ns ==> !is_expired(st, now, expiry_secs),
        is_expired(st, now, expiry_secs) <==> now > st.last_seen_ns + expiry_secs * 1_000_000_000,
{
}

/// A recency order lists every tracked drone, and the drone it lists first
/// was heard no earlier than any other.
pub proof fn recency_order_lists_all(s: Seq<DroneState>, order: Seq<usize>)
    requires
        is_recency_order(s, order),
    ensures
        forall|k: usize| k < s.len() ==> #[trigger] order.contains(k),
        s.len() > 0 ==> forall|k: usize|
            k < s.len() ==> s[order[0] as int].last_seen_ns >= #[trigger] s[k as int].last_seen_ns,
{
    let n = s.len() as int;
    let o = order.map_values(|x: usize| x as int);
    assert(o.no_duplicates()) by {
        assert forall|i: int, j: int| 0 <= i < o.len() && 0 <= j < o.len() && i != j implies o[i] != o[j] by {
            assert(order[i] != order[j]);
        }
    }
    o.unique_seq_to_set();
    vstd::set_lib::lemma_int_range(0, n);
    assert(o.to_set().subset_of(vstd::set_lib::set_int_range(0, n))) by {
        assert forall|x: int| o.to_set().contains(x) implies vstd::set_lib::set_int_range(0, n).contains(x) by {
            let i = choose|i: int| 0 <= i < o.len() && o[i] == x;
            assert(order[i] < s.len());
        }
    }
    vstd::seq_lib::seq_to_set_is_finite(o);
    vstd::set_lib::lemma_subset_equality(o.to_set(), vstd::set_lib::set_int_range(0, n));
    assert forall|k: usize| k < s.len() implies #[trigger] order.contains(k) by {
        assert(vstd::set_lib::set_int_range(0, n).contains(k as int));
        assert(o.to_set().contains(k as int));
        let i = choose|i: int| 0 <= i < o.len() && o[i] == k as int;
        assert(order[i] == k);
    }
    if s.len() > 0 {
        assert forall|k: usize| k < s.len() implies s[order[0] as int].last_seen_ns >= #[trigger] s[k as int].last_seen_ns by {
            assert(order.contains(k));
            let i = choose|i: int| 0 <= i < order.len() && order[i] == k;
            if i > 0 {
                assert(s[order[0] as int].last_seen_ns >= s[order[i] as int].last_seen_ns);
            }
        }
    }
}

/// Expiring again at the same time loses nothing more.
pub proof fn expiry_idempotent(s: Seq<DroneState>, now: u64, expiry_secs: u64)
    ensures
        s.filter(fresh_at(now, expiry_secs)).filter(expired_at(now, expiry_secs)) == Seq::<DroneState>::empty(),
        s.filter(fresh_at(now, expiry_secs)).filter(fresh_at(now, expiry_secs)) == s.filter(fresh_at(now, expiry_secs)),
{
    let kept = s.filter(fresh_at(now, expiry_secs));
    expiry_partitions(s, now, expiry_secs);
    lemma_filter_none(kept, expired_at(now, expiry_secs));
    expiry_partitions(kept, now, expiry_secs);
    assert(kept.filter(fresh_at(now, expiry_secs)).len() == kept.len());
    lemma_filter_all(kept, fresh_at(now, expiry_secs));
}

proof fn lemma_filter_all<A>(t: Seq<A>, q: spec_fn(A) -> bool)
    requires
        forall|i: int| 0 <= i < t.len() ==> q(#[trigger] t[i]),
    ensures
        t.filter(q) == t,
    decreases t.len(),
{
    reveal_with_fuel(Seq::<_>::filter, 1);
    if t.len() > 0 {
        assert forall|i: int| 0 <= i < t.drop_last().len() implies q(#[trigger] t.drop_last()[i]) by {
            assert(t.drop_last()[i] == t[i]);
        }
        lemma_filter_all(t.drop_last(), q);
        assert(q(t[t.len() - 1]));
        assert(t.drop_last().push(t.last()) =~= t);
    }
}

/// A drone that has just sent a message is not expired at that moment,
/// whatever the window.
pub proof fn just_heard_not_expired(
    st: DroneState,
    now: u64,
    rssi: i8,
    counter: u8,
    msg: DroneIdMessage,
    expiry_secs: u64,
)
    ensures
        !is_expired(with_message(st, now, rssi, counter, msg), now, expiry_secs),
{
}

} // verus!
