//! The watchdog's state and the decisions it takes. Timers, inter-canister
//! calls and the cycle balance are outside: the caller of these functions
//! performs them and hands in what they returned.
use vstd::prelude::*;
use crate::keyed::SortedMap;
use crate::principal::Principal;
use crate::text::{decimal, push_decimal};
use crate::manager::types::{
    Config, HealthEvent, HealthEventView, HealthStatus, ManagerError, ManagerErrorView, Severity,
    WatchedCanister,
};

verus! {

/// Counter holding the next event sequence number.
pub const COUNTER_SEQ: u8 = 0;

/// Counter holding the oldest sequence number still in the ring buffer.
pub const COUNTER_RING_HEAD: u8 = 1;

/// Shortest allowed poll interval, in seconds.
pub const MIN_POLL_SECS: u64 = 10;

/// Longest allowed poll interval, in seconds (one day).
pub const MAX_POLL_SECS: u64 = 86400;

/// The textual form of the principal with these bytes (lower-case base32
/// of checksum and bytes, dash-grouped).
pub uninterp spec fn principal_text(bytes: Seq<u8>) -> Seq<char>;

/// The textual form of `p`, by `candid::Principal::to_text` (also what its
/// `Display` prints) on the candid principal built from the same bytes
/// (`from_slice`, which panics only past 29 bytes, a length no `Principal`
/// has). The text is a function of the bytes alone; what it is on given
/// bytes is left to the name `principal_text`.
#[verifier::external_body]
fn principal_to_text(p: &Principal) -> (s: String)
    ensures
        s@ == principal_text(p@),
{
    candid::Principal::from_slice(p.as_slice()).to_text()
}

/// Message of the event recorded at first install, the owner given by
/// its textual form.
pub open spec fn init_text(owner: Seq<char>, poll_secs: u64) -> Seq<char> {
    "manager initialized; owner = "@ + owner + ", poll = "@ + decimal(poll_secs as nat) + "s"@
}

pub open spec fn init_message(owner: Seq<u8>, poll_secs: u64) -> Seq<char> {
    init_text(principal_text(owner), poll_secs)
}

pub open spec fn upgrade_message() -> Seq<char> {
    "manager canister upgraded; timer re-armed"@
}

pub open spec fn check_failed_text(id: Seq<char>) -> Seq<char> {
    "health_check call to "@ + id + " failed"@
}

pub open spec fn check_failed_message(id: Seq<u8>) -> Seq<char> {
    check_failed_text(principal_text(id))
}

pub open spec fn watch_text(label: Seq<char>, id: Seq<char>) -> Seq<char> {
    "now watching "@ + label + " ("@ + id + ")"@
}

pub open spec fn watch_message(label: Seq<char>, id: Seq<u8>) -> Seq<char> {
    watch_text(label, principal_text(id))
}

pub open spec fn unwatch_text(id: Seq<char>) -> Seq<char> {
    "stopped watching "@ + id
}

pub open spec fn unwatch_message(id: Seq<u8>) -> Seq<char> {
    unwatch_text(principal_text(id))
}

pub open spec fn top_up_text(amount: u64, target: Seq<char>) -> Seq<char> {
    "top_up requested: "@ + decimal(amount as nat) + " cycles -> "@ + target
        + " (stub: transfer not yet active)"@
}

pub open spec fn top_up_message(amount: u64, target: Seq<u8>) -> Seq<char> {
    top_up_text(amount, principal_text(target))
}

/// The first-install message for the owner whose textual form is `owner`.
pub fn init_event_text(owner: &str, poll_secs: u64) -> (m: String)
    ensures
        m@ == init_text(owner@, poll_secs),
{
    let mut m = String::from_str("manager initialized; owner = ");
    m.append(owner);
    m.append(", poll = ");
    push_decimal(&mut m, poll_secs as u128);
    m.append("s");
    m
}

/// The message of a failed poll of the canister whose textual form is `id`.
pub fn check_failed_event_text(id: &str) -> (m: String)
    ensures
        m@ == check_failed_text(id@),
{
    let mut m = String::from_str("health_check call to ");
    m.append(id);
    m.append(" failed");
    m
}

/// The message of a new watch of `label`, the canister's textual form `id`.
pub fn watch_event_text(label: &str, id: &str) -> (m: String)
    ensures
        m@ == watch_text(label@, id@),
{
    let mut m = String::from_str("now watching ");
    m.append(label);
    m.append(" (");
    m.append(id);
    m.append(")");
    m
}

/// The message of an ended watch of the canister whose textual form is `id`.
pub fn unwatch_event_text(id: &str) -> (m: String)
    ensures
        m@ == unwatch_text(id@),
{
    let mut m = String::from_str("stopped watching ");
    m.append(id);
    m
}

/// The message of a top-up request to the canister whose textual form is
/// `target`.
pub fn top_up_event_text(amount: u64, target: &str) -> (m: String)
    ensures
        m@ == top_up_text(amount, target@),
{
    let mut m = String::from_str("top_up requested: ");
    push_decimal(&mut m, amount as u128);
    m.append(" cycles -> ");
    m.append(target);
    m.append(" (stub: transfer not yet active)");
    m
}

pub open spec fn poll_message(secs: u64) -> Seq<char> {
    "poll interval changed to "@ + decimal(secs as nat) + "s"@
}

pub open spec fn poll_interval_error() -> Seq<char> {
    "poll interval must be 10..=86400 seconds"@
}

/// Source of the events the watchdog records about itself.
pub open spec fn self_source() -> Seq<char> {
    "self"@
}

/// The configuration of a fresh install by `deployer`.
pub open spec fn initial_config(deployer: Principal) -> Config {
    Config {
        owner: deployer,
        poll_interval_secs: 60,
        max_events: 100,
        default_threshold: 1_000_000_000_000,
    }
}

/// The watchdog's state.
pub struct ManagerState {
    /// The event ring buffer, by sequence number.
    events: SortedMap<u64, HealthEvent>,
    /// Watched canisters, by principal.
    watched: SortedMap<Principal, WatchedCanister>,
    config: Config,
    /// Counters (`COUNTER_SEQ`, `COUNTER_RING_HEAD`); an absent one reads 0.
    counters: SortedMap<u8, u64>,
}

/// The events of a saved list, each under its sequence number; a later
/// event of the same number replaces an earlier one.
pub open spec fn events_from(list: Seq<HealthEvent>) -> Map<u64, HealthEvent>
    decreases list.len(),
{
    if list.len() == 0 {
        Map::empty()
    } else {
        events_from(list.drop_last()).insert(list.last().seq, list.last())
    }
}

/// The watched canisters of a saved list, each under its principal.
pub open spec fn watched_from(list: Seq<WatchedCanister>) -> Map<Seq<u8>, WatchedCanister>
    decreases list.len(),
{
    if list.len() == 0 {
        Map::empty()
    } else {
        watched_from(list.drop_last()).insert(list.last().id@, list.last())
    }
}

impl ManagerState {
    /// The event ring buffer, by sequence number.
    pub closed spec fn events(&self) -> SortedMap<u64, HealthEvent> {
        self.events
    }

    /// The watched canisters, by principal.
    pub closed spec fn watched(&self) -> SortedMap<Principal, WatchedCanister> {
        self.watched
    }

    /// The configuration.
    pub closed spec fn config(&self) -> Config {
        self.config
    }

    /// The counters, by key.
    pub closed spec fn counters(&self) -> SortedMap<u8, u64> {
        self.counters
    }

    pub open spec fn wf(&self) -> bool {
        &&& self.events().wf()
        &&& self.watched().wf()
        &&& self.counters().wf()
        &&& forall|k: u64| #[trigger] self.events()@.contains_key(k) ==> self.events()@[k].seq == k
        &&& forall|p: Seq<u8>| #[trigger] self.watched()@.contains_key(p) ==> self.watched()@[p].id@ == p
    }

    /// Value of counter `key`; 0 when never written.
    pub open spec fn counter(&self, key: u8) -> u64 {
        if self.counters()@.contains_key(key) {
            self.counters()@[key]
        } else {
            0
        }
    }

    /// Another event can be numbered without overflowing.
    pub open spec fn can_record(&self) -> bool {
        self.counter(COUNTER_SEQ) < u64::MAX
    }

    /// The events, texts taken as characters.
    pub open spec fn event_log(&self) -> Map<u64, HealthEventView> {
        self.events()@.map_values(|e: HealthEvent| e@)
    }

    /// The state after recording an event with this source and message at
    /// `now_ns`: numbered with the sequence counter, which moves on by one.
    pub open spec fn records(
        &self,
        before: &ManagerState,
        now_ns: u64,
        source: Seq<char>,
        severity: Severity,
        message: Seq<char>,
    ) -> bool {
        let seq = before.counter(COUNTER_SEQ);
        &&& self.event_log() == before.event_log().insert(
            seq,
            HealthEventView { seq, timestamp_ns: now_ns, source, severity, message },
        )
        &&& self.counters()@ == before.counters()@.insert(COUNTER_SEQ, (seq + 1) as u64)
    }

    /// The ring-buffer window: the head does not pass the next sequence
    /// number, and every stored event is numbered between the two.
    pub open spec fn window_holds(&self) -> bool {
        let head = self.counter(COUNTER_RING_HEAD);
        let next = self.counter(COUNTER_SEQ);
        &&& head <= next
        &&& forall|k: u64| #[trigger] self.events()@.contains_key(k) ==> head <= k < next
    }

    /// The state after trimming `before`: when more than `max_events`
    /// sequence numbers have been handed out, the events numbered from the
    /// head up to (not including) `next - max_events` are dropped and the
    /// head moves up to that number; otherwise nothing changes.
    pub open spec fn trimmed_from(&self, before: &ManagerState) -> bool {
        let next = before.counter(COUNTER_SEQ);
        let head = before.counter(COUNTER_RING_HEAD);
        let max = before.config().max_events as u64;
        if next <= max {
            self.events()@ == before.events()@ && self.counters()@ == before.counters()@
        } else {
            let oldest = (next - max) as u64;
            &&& self.events()@ == before.events()@.remove_keys(Set::new(|k: u64| head <= k < oldest))
            &&& self.counters()@ == before.counters()@.insert(
                COUNTER_RING_HEAD,
                if head < oldest { oldest } else { head },
            )
        }
    }

    /// Every event in the ring buffer, oldest first.
    pub fn event_records(&self) -> (v: Vec<HealthEvent>)
        requires
            self.wf(),
        ensures
            v@ == self.events().ordered().map_values(|e: (u64, HealthEvent)| e.1),
    {
        let n = self.events.len();
        let mut out: Vec<HealthEvent> = Vec::new();
        let mut i: usize = 0;
        while i < n
            invariant
                n == self.events.ordered().len(),
                i <= n,
                out@ == self.events.ordered().take(i as int).map_values(|e: (u64, HealthEvent)| e.1),
            decreases n - i,
        {
            let e = self.events.value_at(i);
            out.push(e.duplicate());
            i = i + 1;
            assert(self.events.ordered().take(i as int) =~= self.events.ordered().take(i - 1).push(
                self.events.ordered()[i - 1],
            ));
            assert(out@ =~= self.events.ordered().take(i as int).map_values(|e: (u64, HealthEvent)| e.1));
        }
        assert(self.events.ordered().take(n as int) =~= self.events.ordered());
        out
    }

    /// A watchdog holding saved events (each under its sequence number),
    /// saved watched canisters (each under its principal), a configuration
    /// and the two counters.
    pub fn restore(
        events: Vec<HealthEvent>,
        watched: Vec<WatchedCanister>,
        config: Config,
        next_seq: u64,
        ring_head: u64,
    ) -> (s: ManagerState)
        ensures
            s.wf(),
            s.events()@ == events_from(events@),
            s.watched()@ == watched_from(watched@),
            s.config() == config,
            s.counters()@ == Map::<u8, u64>::empty().insert(COUNTER_SEQ, next_seq).insert(
                COUNTER_RING_HEAD,
                ring_head,
            ),
    {
        let mut s = ManagerState {
            events: SortedMap::new(),
            watched: SortedMap::new(),
            config,
            counters: SortedMap::new(),
        };
        let n = events.len();
        let mut i: usize = 0;
        while i < n
            invariant
                s.wf(),
                n == events@.len(),
                i <= n,
                s.events@ == events_from(events@.take(i as int)),
                s.watched@ == Map::<Seq<u8>, WatchedCanister>::empty(),
                s.config == config,
                s.counters@ == Map::<u8, u64>::empty(),
            decreases n - i,
        {
            let e = events[i].duplicate();
            let ghost before = s;
            s.events.insert(e.seq, e);
            proof {
                assert(events@.take(i + 1).drop_last() =~= events@.take(i as int));
                assert forall|k: u64| #[trigger] s.events@.contains_key(k) implies s.events@[k].seq == k by {
                    if k != e.seq {
                        assert(before.events@.contains_key(k));
                    }
                }
            }
            i = i + 1;
        }
        assert(events@.take(n as int) =~= events@);
        let m = watched.len();
        let mut j: usize = 0;
        assert(watched@.take(0) =~= Seq::<WatchedCanister>::empty());
        while j < m
            invariant
                s.wf(),
                m == watched@.len(),
                j <= m,
                s.events@ == events_from(events@),
                s.watched@ == watched_from(watched@.take(j as int)),
                s.config == config,
                s.counters@ == Map::<u8, u64>::empty(),
            decreases m - j,
        {
            let w = watched[j].duplicate();
            let ghost before = s;
            s.watched.insert(w.id, w);
            proof {
                assert(watched@.take(j + 1).drop_last() =~= watched@.take(j as int));
                assert forall|p: Seq<u8>| #[trigger] s.watched@.contains_key(p) implies s.watched@[p].id@ == p by {
                    if p != w.id@ {
                        assert(before.watched@.contains_key(p));
                    }
                }
            }
            j = j + 1;
        }
        assert(watched@.take(m as int) =~= watched@);
        s.counters.insert(COUNTER_SEQ, next_seq);
        s.counters.insert(COUNTER_RING_HEAD, ring_head);
        s
    }

    /// A fresh install by `deployer` at `now_ns`: default configuration
    /// owned by the deployer, and one event announcing it.
    pub fn init(deployer: &Principal, now_ns: u64) -> (s: ManagerState)
        ensures
            s.wf(),
            s.config() == initial_config(*deployer),
            s.watched()@ == Map::<Seq<u8>, WatchedCanister>::empty(),
            s.event_log() == Map::<u64, HealthEventView>::empty().insert(
                0,
                HealthEventView {
                    seq: 0,
                    timestamp_ns: now_ns,
                    source: self_source(),
                    severity: Severity::Info,
                    message: init_message(deployer@, 60),
                },
            ),
            s.counters()@ == Map::<u8, u64>::empty().insert(COUNTER_SEQ, 1),
            s.window_holds(),
    {
        let config = Config {
            owner: *deployer,
            poll_interval_secs: 60,
            max_events: 100,
            default_threshold: 1_000_000_000_000,
        };
        let mut s = ManagerState {
            events: SortedMap::new(),
            watched: SortedMap::new(),
            config,
            counters: SortedMap::new(),
        };
        let owner_text = principal_to_text(&config.owner);
        let m = init_event_text(owner_text.as_str(), config.poll_interval_secs);
        let ghost before = s;
        s.record_event(now_ns, "self", Severity::Info, m);
        proof {
            assert(before.event_log() =~= Map::<u64, HealthEventView>::empty());
            assert(s.counters()@.contains_key(COUNTER_SEQ));
            assert(!s.counters()@.contains_key(COUNTER_RING_HEAD));
            assert forall|k: u64| #[trigger] s.events()@.contains_key(k) implies k == 0 by {
                assert(s.event_log().contains_key(k));
            }
        }
        s
    }

    /// After an upgrade: records that the timer was armed again.
    pub fn post_upgrade(&mut self, now_ns: u64)
        requires
            old(self).wf(),
            old(self).can_record(),
        ensures
            final(self).wf(),
            final(self).records(&old(self), now_ns, self_source(), Severity::Info, upgrade_message()),
            final(self).watched() == old(self).watched(),
            final(self).config() == old(self).config(),
    {
        self.record_event(
            now_ns,
            "self",
            Severity::Info,
            String::from_str("manager canister upgraded; timer re-armed"),
        );
    }

    /// Value of counter `key`; 0 when never written.
    pub fn read_counter(&self, key: u8) -> (v: u64)
        requires
            self.wf(),
        ensures
            v == self.counter(key),
    {
        match self.counters.get(&key) {
            Some(v) => *v,
            None => 0,
        }
    }

    /// Sets counter `key`.
    pub fn write_counter(&mut self, key: u8, value: u64)
        requires
            old(self).wf(),
        ensures
            final(self).wf(),
            final(self).counters()@ == old(self).counters()@.insert(key, value),
            final(self).events() == old(self).events(),
            final(self).watched() == old(self).watched(),
            final(self).config() == old(self).config(),
    {
        self.counters.insert(key, value);
    }

    /// The configuration.
    pub fn read_config(&self) -> (c: Config)
        ensures
            c == self.config(),
    {
        self.config
    }

    /// Replaces the configuration.
    pub fn write_config(&mut self, cfg: Config)
        ensures
            final(self).config() == cfg,
            final(self).events() == old(self).events(),
            final(self).watched() == old(self).watched(),
            final(self).counters() == old(self).counters(),
    {
        self.config = cfg;
    }

    /// Appends an event at `now_ns`, numbered with the sequence counter.
    pub fn record_event(&mut self, now_ns: u64, source: &str, severity: Severity, message: String)
        requires
            old(self).wf(),
            old(self).can_record(),
        ensures
            final(self).wf(),
            final(self).records(&old(self), now_ns, source@, severity, message@),
            final(self).watched() == old(self).watched(),
            final(self).config() == old(self).config(),
    {
        let seq = self.read_counter(COUNTER_SEQ);
        let event = HealthEvent {
            seq,
            timestamp_ns: now_ns,
            source: String::from_str(source),
            severity,
            message,
        };
        let ghost ev = event@;
        self.events.insert(seq, event);
        self.write_counter(COUNTER_SEQ, seq + 1);
        proof {
            let o = old(self);
            assert forall|k: u64| #[trigger] self.events@.contains_key(k) implies self.events@[k].seq == k by {
                if k != seq {
                    assert(o.events@.contains_key(k));
                }
            }
            assert(self.event_log() =~= o.event_log().insert(seq, ev));
        }
    }

    /// Drops the oldest events so that at most `max_events` sequence
    /// numbers lie between the ring head and the next sequence number.
    pub fn trim_ring_buffer(&mut self)
        requires
            old(self).wf(),
        ensures
            final(self).wf(),
            final(self).watched() == old(self).watched(),
            final(self).config() == old(self).config(),
            final(self).trimmed_from(&old(self)),
    {
        let cfg = self.read_config();
        let max = cfg.max_events as u64;
        let next_seq = self.read_counter(COUNTER_SEQ);
        if next_seq <= max {
            return;
        }
        let oldest_to_keep = next_seq - max;
        let mut head = self.read_counter(COUNTER_RING_HEAD);
        let ghost head0 = head;
        let ghost events0 = self.events@;
        assert(events0.remove_keys(Set::new(|k: u64| head0 <= k < head0)) =~= events0);
        while head < oldest_to_keep
            invariant
                self.wf(),
                head0 <= head,
                head0 < oldest_to_keep ==> head <= oldest_to_keep,
                head0 >= oldest_to_keep ==> head == head0,
                self.events@ == events0.remove_keys(Set::new(|k: u64| head0 <= k < head)),
                self.watched == old(self).watched,
                self.config == old(self).config,
                self.counters == old(self).counters,
            decreases oldest_to_keep - head,
        {
            let _ = self.events.remove(&head);
            proof {
                assert(self.events@ =~= events0.remove_keys(Set::new(|k: u64| head0 <= k < head + 1)));
            }
            head = head + 1;
        }
        proof {
            if head0 >= oldest_to_keep {
                assert(Set::new(|k: u64| head0 <= k < head) =~= Set::new(|k: u64| head0 <= k < oldest_to_keep));
            } else {
                assert(head == oldest_to_keep);
            }
        }
        self.write_counter(COUNTER_RING_HEAD, head);
        proof {
            assert(self.events@ =~= old(self).events@.remove_keys(
                Set::new(|k: u64| head0 <= k < oldest_to_keep),
            ));
        }
    }

    /// The newest events first: at most `limit` of them, or at most
    /// `max_events` when `limit` is 0 or larger.
    pub fn recent_events(&self, limit: u32) -> (v: Vec<HealthEvent>)
        requires
            self.wf(),
        ensures
            ({
                let eff = if limit == 0 {
                    self.config().max_events
                } else if limit < self.config().max_events {
                    limit
                } else {
                    self.config().max_events
                };
                let newest_first = self.events().ordered().map_values(|e: (u64, HealthEvent)| e.1).reverse();
                v@ == newest_first.take(if eff < newest_first.len() { eff as int } else { newest_first.len() as int })
            }),
    {
        let max = self.config.max_events;
        let eff = if limit == 0 {
            max
        } else if limit < max {
            limit
        } else {
            max
        };
        let ghost all = self.events.ordered().map_values(|e: (u64, HealthEvent)| e.1);
        let ghost rev = all.reverse();
        let n = self.events.len();
        let count = if (eff as usize) < n { eff as usize } else { n };
        let mut out: Vec<HealthEvent> = Vec::new();
        let mut j: usize = 0;
        while j < count
            invariant
                n == all.len(),
                all == self.events.ordered().map_values(|e: (u64, HealthEvent)| e.1),
                rev == all.reverse(),
                count <= n,
                j <= count,
                out@ == rev.take(j as int),
            decreases count - j,
        {
            let e = self.events.value_at(n - 1 - j);
            out.push(e.duplicate());
            proof {
                assert(rev[j as int] == all[n - 1 - j]);
                assert(rev.take(j + 1) =~= rev.take(j as int).push(rev[j as int]));
            }
            j = j + 1;
        }
        out
    }

    /// Number of events in the ring buffer.
    pub fn event_count(&self) -> (n: u64)
        requires
            self.wf(),
        ensures
            n == self.events()@.len(),
    {
        self.events.len() as u64
    }

    /// The owner-only gate.
    pub fn require_owner(&self, caller: &Principal) -> (r: Result<(), ManagerError>)
        ensures
            r is Ok <==> caller@ == self.config().owner@,
            r is Err ==> r == Err::<(), ManagerError>(ManagerError::Unauthorized),
    {
        if !caller.same(&self.config.owner) {
            Err(ManagerError::Unauthorized)
        } else {
            Ok(())
        }
    }

    /// Starts watching `id` under `label`, with `threshold` or the default
    /// threshold. Owner only; an already watched canister is refused.
    pub fn watch_canister(
        &mut self,
        caller: &Principal,
        now_ns: u64,
        id: &Principal,
        label: String,
        threshold: Option<u64>,
    ) -> (r: Result<WatchedCanister, ManagerError>)
        requires
            old(self).wf(),
            old(self).can_record(),
        ensures
            final(self).wf(),
            final(self).config() == old(self).config(),
            caller@ != old(self).config().owner@ ==> r == Err::<WatchedCanister, ManagerError>(ManagerError::Unauthorized)
                && *final(self) == *old(self),
            caller@ == old(self).config().owner@ && old(self).watched()@.contains_key(id@) ==> r == Err::<
                WatchedCanister,
                ManagerError,
            >(ManagerError::AlreadyWatched) && *final(self) == *old(self),
            caller@ == old(self).config().owner@ && !old(self).watched()@.contains_key(id@) ==> ({
                let entry = WatchedCanister {
                    id: *id,
                    label,
                    cycles_threshold: match threshold {
                        Some(t) => t,
                        None => old(self).config().default_threshold,
                    },
                    last_balance: None,
                    last_check_ns: None,
                    last_status_ok: None,
                    registered_ns: now_ns,
                };
                &&& r == Ok::<WatchedCanister, ManagerError>(entry)
                &&& final(self).watched()@ == old(self).watched()@.insert(id@, entry)
                &&& final(self).records(&old(self), now_ns, self_source(), Severity::Info, watch_message(label@, id@))
            }),
    {
        self.require_owner(caller)?;
        if self.watched.contains_key(id) {
            return Err(ManagerError::AlreadyWatched);
        }
        let cfg = self.read_config();
        let cycles_threshold = match threshold {
            Some(t) => t,
            None => cfg.default_threshold,
        };
        let id_text = principal_to_text(id);
        let m = watch_event_text(label.as_str(), id_text.as_str());
        let entry = WatchedCanister {
            id: *id,
            label,
            cycles_threshold,
            last_balance: None,
            last_check_ns: None,
            last_status_ok: None,
            registered_ns: now_ns,
        };
        let stored = entry.duplicate();
        self.watched.insert(*id, stored);
        let ghost mid = *self;
        proof {
            let o = old(self);
            assert forall|p: Seq<u8>| #[trigger] self.watched@.contains_key(p) implies self.watched@[p].id@ == p by {
                if p != id@ {
                    assert(o.watched@.contains_key(p));
                }
            }
            assert(mid.event_log() == o.event_log());
        }
        self.record_event(now_ns, "self", Severity::Info, m);
        Ok(entry)
    }

    /// Stops watching `id`; tells whether it was watched. Owner only.
    pub fn unwatch_canister(&mut self, caller: &Principal, now_ns: u64, id: &Principal) -> (r: Result<bool, ManagerError>)
        requires
            old(self).wf(),
            old(self).can_record(),
        ensures
            final(self).wf(),
            final(self).config() == old(self).config(),
            caller@ != old(self).config().owner@ ==> r == Err::<bool, ManagerError>(ManagerError::Unauthorized)
                && *final(self) == *old(self),
            caller@ == old(self).config().owner@ ==> {
                &&& r == Ok::<bool, ManagerError>(old(self).watched()@.contains_key(id@))
                &&& final(self).watched()@ == old(self).watched()@.remove(id@)
                &&& if old(self).watched()@.contains_key(id@) {
                    final(self).records(&old(self), now_ns, self_source(), Severity::Info, unwatch_message(id@))
                } else {
                    final(self).events() == old(self).events() && final(self).counters() == old(self).counters()
                }
            },
    {
        self.require_owner(caller)?;
        let removed = self.watched.remove(id).is_some();
        proof {
            let o = old(self);
            assert forall|p: Seq<u8>| #[trigger] self.watched@.contains_key(p) implies self.watched@[p].id@ == p by {
                assert(o.watched@.contains_key(p));
            }
        }
        if removed {
            let id_text = principal_to_text(id);
            let m = unwatch_event_text(id_text.as_str());
            let ghost mid = *self;
            assert(mid.event_log() == old(self).event_log());
            self.record_event(now_ns, "self", Severity::Info, m);
        }
        Ok(removed)
    }

    /// Every watched canister, in principal order.
    pub fn list_watched(&self) -> (v: Vec<WatchedCanister>)
        requires
            self.wf(),
        ensures
            v@ == self.watched().ordered().map_values(|e: (Seq<u8>, WatchedCanister)| e.1),
    {
        let n = self.watched.len();
        let mut out: Vec<WatchedCanister> = Vec::new();
        let mut i: usize = 0;
        while i < n
            invariant
                n == self.watched.ordered().len(),
                i <= n,
                out@ == self.watched.ordered().take(i as int).map_values(|e: (Seq<u8>, WatchedCanister)| e.1),
            decreases n - i,
        {
            let c = self.watched.value_at(i);
            out.push(c.duplicate());
            i = i + 1;
            assert(self.watched.ordered().take(i as int) =~= self.watched.ordered().take(i - 1).push(
                self.watched.ordered()[i - 1],
            ));
            assert(out@ =~= self.watched.ordered().take(i as int).map_values(
                |e: (Seq<u8>, WatchedCanister)| e.1,
            ));
        }
        assert(self.watched.ordered().take(n as int) =~= self.watched.ordered());
        out
    }

    /// The watched principals, in order: what one poll round visits.
    pub fn watched_ids(&self) -> (v: Vec<Principal>)
        requires
            self.wf(),
        ensures
            v@.map_values(|p: Principal| p@) == self.watched().ordered().map_values(
                |e: (Seq<u8>, WatchedCanister)| e.0,
            ),
    {
        let n = self.watched.len();
        let mut out: Vec<Principal> = Vec::new();
        let mut i: usize = 0;
        while i < n
            invariant
                n == self.watched.ordered().len(),
                i <= n,
                out@.map_values(|p: Principal| p@) == self.watched.ordered().take(i as int).map_values(
                    |e: (Seq<u8>, WatchedCanister)| e.0,
                ),
            decreases n - i,
        {
            let ghost old_out = out@;
            let k = *self.watched.key_at(i);
            out.push(k);
            i = i + 1;
            assert(self.watched.ordered().take(i as int) =~= self.watched.ordered().take(i - 1).push(
                self.watched.ordered()[i - 1],
            ));
            assert(out@ =~= old_out.push(k));
            assert(out@.map_values(|p: Principal| p@) =~= old_out.map_values(|p: Principal| p@).push(k@));
            assert(out@.map_values(|p: Principal| p@) =~= self.watched.ordered().take(i as int).map_values(
                |e: (Seq<u8>, WatchedCanister)| e.0,
            ));
        }
        assert(self.watched.ordered().take(n as int) =~= self.watched.ordered());
        out
    }

    /// The label under which `id` is watched, or "" when it is not.
    pub fn watched_label(&self, id: &Principal) -> (l: String)
        requires
            self.wf(),
        ensures
            self.watched()@.contains_key(id@) ==> l@ == self.watched()@[id@].label@,
            !self.watched()@.contains_key(id@) ==> l@ == Seq::<char>::empty(),
    {
        match self.watched.get(id) {
            Some(c) => c.label.clone(),
            None => String::new(),
        }
    }

    /// Records the outcome of one health poll of `canister_id` (watched
    /// under `label` when the poll began): a still watched canister gets
    /// the poll time and outcome, and a failed poll is recorded as an
    /// error event.
    pub fn check_one_canister(&mut self, canister_id: &Principal, label: &str, call_ok: bool, now_ns: u64)
        requires
            old(self).wf(),
            old(self).can_record(),
        ensures
            final(self).wf(),
            final(self).config() == old(self).config(),
            final(self).watched()@ == (if old(self).watched()@.contains_key(canister_id@) {
                old(self).watched()@.insert(
                    canister_id@,
                    WatchedCanister {
                        last_check_ns: Some(now_ns),
                        last_status_ok: Some(call_ok),
                        ..old(self).watched()@[canister_id@]
                    },
                )
            } else {
                old(self).watched()@
            }),
            call_ok ==> final(self).events() == old(self).events() && final(self).counters() == old(self).counters(),
            !call_ok ==> final(self).records(
                &old(self),
                now_ns,
                label@,
                Severity::Error,
                check_failed_message(canister_id@),
            ),
    {
        let updated = match self.watched.get(canister_id) {
            Some(c) => {
                let mut u = c.duplicate();
                u.last_check_ns = Some(now_ns);
                u.last_status_ok = Some(call_ok);
                Some(u)
            },
            None => None,
        };
        match updated {
            Some(u) => {
                self.watched.insert(*canister_id, u);
                proof {
                    let o = old(self);
                    assert forall|p: Seq<u8>| #[trigger] self.watched@.contains_key(p) implies self.watched@[p].id@ == p by {
                        if p != canister_id@ {
                            assert(o.watched@.contains_key(p));
                        }
                    }
                }
            },
            None => {},
        }
        if !call_ok {
            let id_text = principal_to_text(canister_id);
            let m = check_failed_event_text(id_text.as_str());
            let ghost mid = *self;
            assert(mid.event_log() == old(self).event_log());
            self.record_event(now_ns, label, Severity::Error, m);
        }
    }

    /// A manual top-up of `amount` cycles to `target`, given the
    /// watchdog's own balance `available`. Owner only; refuses more than
    /// is available. The transfer itself is not performed yet: the
    /// request is recorded and the amount handed back.
    pub fn top_up(&mut self, caller: &Principal, now_ns: u64, target: &Principal, amount: u64, available: u64) -> (r: Result<u64, ManagerError>)
        requires
            old(self).wf(),
            old(self).can_record(),
        ensures
            final(self).wf(),
            final(self).watched() == old(self).watched(),
            final(self).config() == old(self).config(),
            caller@ != old(self).config().owner@ ==> r == Err::<u64, ManagerError>(ManagerError::Unauthorized)
                && *final(self) == *old(self),
            caller@ == old(self).config().owner@ && amount > available ==> r == Err::<u64, ManagerError>(
                ManagerError::InsufficientCycles { available, requested: amount },
            ) && *final(self) == *old(self),
            caller@ == old(self).config().owner@ && amount <= available ==> r == Ok::<u64, ManagerError>(amount)
                && final(self).records(&old(self), now_ns, self_source(), Severity::Info, top_up_message(amount, target@)),
    {
        self.require_owner(caller)?;
        if amount > available {
            return Err(ManagerError::InsufficientCycles { available, requested: amount });
        }
        let target_text = principal_to_text(target);
        let m = top_up_event_text(amount, target_text.as_str());
        self.record_event(now_ns, "self", Severity::Info, m);
        Ok(amount)
    }

    /// Sets the poll interval to `secs` (10..=86400). Owner only. On
    /// success the timer is to be armed again with the new interval.
    pub fn set_poll_interval(&mut self, caller: &Principal, now_ns: u64, secs: u64) -> (r: Result<(), ManagerError>)
        requires
            old(self).wf(),
            old(self).can_record(),
        ensures
            final(self).wf(),
            final(self).watched() == old(self).watched(),
            caller@ != old(self).config().owner@ ==> r == Err::<(), ManagerError>(ManagerError::Unauthorized)
                && *final(self) == *old(self),
            caller@ == old(self).config().owner@ && (secs < MIN_POLL_SECS || secs > MAX_POLL_SECS) ==> (r matches Err(e)
                && e@ == ManagerErrorView::InvalidConfig(poll_interval_error()) && *final(self) == *old(self)),
            caller@ == old(self).config().owner@ && MIN_POLL_SECS <= secs <= MAX_POLL_SECS ==> {
                &&& r is Ok
                &&& final(self).config() == (Config { poll_interval_secs: secs, ..old(self).config() })
                &&& final(self).records(&old(self), now_ns, self_source(), Severity::Info, poll_message(secs))
            },
    {
        self.require_owner(caller)?;
        if secs < MIN_POLL_SECS || secs > MAX_POLL_SECS {
            return Err(ManagerError::InvalidConfig(
                String::from_str("poll interval must be 10..=86400 seconds"),
            ));
        }
        let mut cfg = self.read_config();
        cfg.poll_interval_secs = secs;
        self.write_config(cfg);
        let mut m = String::from_str("poll interval changed to ");
        push_decimal(&mut m, secs as u128);
        m.append("s");
        let ghost mid = *self;
        assert(mid.event_log() == old(self).event_log());
        self.record_event(now_ns, "self", Severity::Info, m);
        Ok(())
    }

    /// Health snapshot at `now_ns`, given the watchdog's cycle balance.
    pub fn health_check(&self, now_ns: u64, cycles_balance: u64) -> (h: HealthStatus)
        requires
            self.wf(),
        ensures
            h.canister@ == "manager"@,
            h.ok,
            h.event_count == self.events()@.len(),
            h.watched_count == self.watched()@.len(),
            h.timestamp_ns == now_ns,
            h.cycles_balance == cycles_balance,
    {
        HealthStatus {
            canister: String::from_str("manager"),
            ok: true,
            event_count: self.events.len() as u64,
            watched_count: self.watched.len() as u64,
            timestamp_ns: now_ns,
            cycles_balance,
        }
    }
}

} // verus!
