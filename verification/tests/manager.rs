use mycloud::manager::state::{
    check_failed_event_text, init_event_text, top_up_event_text, unwatch_event_text, watch_event_text,
    ManagerState, COUNTER_RING_HEAD, COUNTER_SEQ,
};
use mycloud::manager::types::{Config, ManagerError, Severity};
use mycloud::principal::Principal;

fn text_of(bytes: &[u8]) -> String {
    candid::Principal::from_slice(bytes).to_text()
}

#[test]
fn severity_ordering_is_intuitive() {
    assert_eq!(Severity::Info, Severity::Info);
    assert_ne!(Severity::Info, Severity::Error);
}

#[test]
fn init_records_one_event() {
    let owner = Principal::from_slice(&[1, 2, 3]);
    let s = ManagerState::init(&owner, 77);
    assert_eq!(s.read_config().poll_interval_secs, 60);
    assert_eq!(s.read_config().max_events, 100);
    assert_eq!(s.read_config().default_threshold, 1_000_000_000_000);
    assert_eq!(s.event_count(), 1);
    assert_eq!(s.read_counter(COUNTER_SEQ), 1);
    assert_eq!(s.read_counter(COUNTER_RING_HEAD), 0);
    let ev = &s.recent_events(0)[0];
    assert_eq!((ev.seq, ev.timestamp_ns, ev.source.as_str(), ev.severity), (0, 77, "self", Severity::Info));
    assert_eq!(ev.message, format!("manager initialized; owner = {}, poll = 60s", text_of(&[1, 2, 3])));
}

#[test]
fn recent_events_newest_first_and_limited() {
    let owner = Principal::from_slice(&[1]);
    let mut s = ManagerState::init(&owner, 0);
    for i in 1..5u64 {
        s.record_event(i, "auth", Severity::Warn, format!("m{}", i));
    }
    let seqs: Vec<u64> = s.recent_events(0).iter().map(|e| e.seq).collect();
    assert_eq!(seqs, vec![4, 3, 2, 1, 0]);
    let seqs: Vec<u64> = s.recent_events(2).iter().map(|e| e.seq).collect();
    assert_eq!(seqs, vec![4, 3]);
    assert_eq!(s.recent_events(1)[0].message, "m4");
}

#[test]
fn trim_keeps_the_newest_max_events() {
    let owner = Principal::from_slice(&[1]);
    let mut s = ManagerState::init(&owner, 0);
    let cfg = Config { max_events: 3, ..s.read_config() };
    s.write_config(cfg);
    for i in 1..10u64 {
        s.record_event(i, "self", Severity::Info, String::from("x"));
    }
    assert_eq!(s.event_count(), 10);
    s.trim_ring_buffer();
    assert_eq!(s.event_count(), 3);
    assert_eq!(s.read_counter(COUNTER_RING_HEAD), 7);
    let seqs: Vec<u64> = s.recent_events(0).iter().map(|e| e.seq).collect();
    assert_eq!(seqs, vec![9, 8, 7]);
    s.trim_ring_buffer();
    assert_eq!(s.event_count(), 3);
    s.record_event(20, "self", Severity::Info, String::from("y"));
    assert_eq!(s.event_count(), 4);
    s.trim_ring_buffer();
    assert_eq!(s.read_counter(COUNTER_RING_HEAD), 8);
    let seqs: Vec<u64> = s.recent_events(0).iter().map(|e| e.seq).collect();
    assert_eq!(seqs, vec![10, 9, 8]);
}

#[test]
fn trim_does_nothing_under_the_cap() {
    let owner = Principal::from_slice(&[1]);
    let mut s = ManagerState::init(&owner, 0);
    s.record_event(1, "self", Severity::Info, String::from("x"));
    s.trim_ring_buffer();
    assert_eq!(s.event_count(), 2);
    assert_eq!(s.read_counter(COUNTER_RING_HEAD), 0);
}

#[test]
fn watch_list_is_owner_only() {
    let owner = Principal::from_slice(&[1]);
    let other = Principal::from_slice(&[2]);
    let target = Principal::from_slice(&[9, 9, 9]);
    let mut s = ManagerState::init(&owner, 0);
    assert_eq!(s.watch_canister(&other, 1, &target, "auth".into(), None), Err(ManagerError::Unauthorized));
    let w = s.watch_canister(&owner, 2, &target, "auth".into(), None).unwrap();
    assert_eq!(w.cycles_threshold, 1_000_000_000_000);
    assert_eq!(w.registered_ns, 2);
    assert_eq!(w.last_check_ns, None);
    assert_eq!(
        s.watch_canister(&owner, 3, &target, "again".into(), Some(5)),
        Err(ManagerError::AlreadyWatched)
    );
    assert_eq!(s.recent_events(1)[0].message, format!("now watching auth ({})", text_of(&[9, 9, 9])));
    assert_eq!(s.watched_ids(), vec![target]);
    assert_eq!(s.watched_label(&target), "auth");
    assert_eq!(s.watched_label(&other), "");
    assert_eq!(s.list_watched().len(), 1);
    assert_eq!(s.unwatch_canister(&other, 4, &target), Err(ManagerError::Unauthorized));
    assert_eq!(s.unwatch_canister(&owner, 4, &target), Ok(true));
    assert_eq!(s.recent_events(1)[0].message, format!("stopped watching {}", text_of(&[9, 9, 9])));
    assert_eq!(s.unwatch_canister(&owner, 5, &target), Ok(false));
    assert!(s.list_watched().is_empty());
}

#[test]
fn failed_poll_is_recorded_as_error() {
    let owner = Principal::from_slice(&[1]);
    let target = Principal::from_slice(&[5]);
    let mut s = ManagerState::init(&owner, 0);
    s.watch_canister(&owner, 1, &target, "registry".into(), Some(10)).unwrap();
    let before = s.event_count();
    s.check_one_canister(&target, "registry", true, 50);
    assert_eq!(s.event_count(), before);
    let w = &s.list_watched()[0];
    assert_eq!((w.last_check_ns, w.last_status_ok), (Some(50), Some(true)));
    s.check_one_canister(&target, "registry", false, 60);
    let w = &s.list_watched()[0];
    assert_eq!((w.last_check_ns, w.last_status_ok), (Some(60), Some(false)));
    let ev = &s.recent_events(1)[0];
    assert_eq!((ev.source.as_str(), ev.severity, ev.timestamp_ns), ("registry", Severity::Error, 60));
    assert_eq!(ev.message, format!("health_check call to {} failed", text_of(&[5])));
}

#[test]
fn top_up_checks_owner_and_balance() {
    let owner = Principal::from_slice(&[1]);
    let target = Principal::from_slice(&[4]);
    let mut s = ManagerState::init(&owner, 0);
    assert_eq!(s.top_up(&target, 1, &target, 5, 10), Err(ManagerError::Unauthorized));
    assert_eq!(
        s.top_up(&owner, 1, &target, 11, 10),
        Err(ManagerError::InsufficientCycles { available: 10, requested: 11 })
    );
    assert_eq!(s.top_up(&owner, 1, &target, 10, 10), Ok(10));
    assert_eq!(
        s.recent_events(1)[0].message,
        format!("top_up requested: 10 cycles -> {} (stub: transfer not yet active)", text_of(&[4]))
    );
}

#[test]
fn poll_interval_bounds() {
    let owner = Principal::from_slice(&[1]);
    let mut s = ManagerState::init(&owner, 0);
    let msg = "poll interval must be 10..=86400 seconds".to_string();
    assert_eq!(s.set_poll_interval(&owner, 1, 9), Err(ManagerError::InvalidConfig(msg.clone())));
    assert_eq!(s.set_poll_interval(&owner, 1, 86401), Err(ManagerError::InvalidConfig(msg)));
    assert_eq!(s.set_poll_interval(&Principal::from_slice(&[3]), 1, 30), Err(ManagerError::Unauthorized));
    assert_eq!(s.set_poll_interval(&owner, 1, 10), Ok(()));
    assert_eq!(s.read_config().poll_interval_secs, 10);
    assert_eq!(s.set_poll_interval(&owner, 1, 86400), Ok(()));
    assert_eq!(s.recent_events(1)[0].message, "poll interval changed to 86400s");
    assert!(s.require_owner(&owner).is_ok());
}

#[test]
fn upgrade_and_health() {
    let owner = Principal::from_slice(&[1]);
    let mut s = ManagerState::init(&owner, 0);
    s.post_upgrade(9);
    assert_eq!(s.recent_events(1)[0].message, "manager canister upgraded; timer re-armed");
    let h = s.health_check(11, 500);
    assert_eq!(
        (h.canister.as_str(), h.ok, h.event_count, h.watched_count, h.timestamp_ns, h.cycles_balance),
        ("manager", true, 2, 0, 11, 500)
    );
}

#[test]
fn event_texts() {
    assert_eq!(init_event_text("aaaaa-aa", 60), "manager initialized; owner = aaaaa-aa, poll = 60s");
    assert_eq!(check_failed_event_text("x"), "health_check call to x failed");
    assert_eq!(watch_event_text("auth", "x"), "now watching auth (x)");
    assert_eq!(unwatch_event_text("x"), "stopped watching x");
    assert_eq!(
        top_up_event_text(1_000_000, "x"),
        "top_up requested: 1000000 cycles -> x (stub: transfer not yet active)"
    );
}

#[test]
fn watchdog_restores_from_its_records() {
    let owner = Principal::from_slice(&[1]);
    let target = Principal::from_slice(&[7]);
    let mut s = ManagerState::init(&owner, 0);
    s.watch_canister(&owner, 1, &target, "auth".into(), None).unwrap();
    s.record_event(2, "self", Severity::Warn, String::from("w"));
    let r = ManagerState::restore(
        s.event_records(),
        s.list_watched(),
        s.read_config(),
        s.read_counter(COUNTER_SEQ),
        s.read_counter(COUNTER_RING_HEAD),
    );
    assert_eq!(r.recent_events(0), s.recent_events(0));
    assert_eq!(r.list_watched(), s.list_watched());
    assert_eq!(r.read_config(), s.read_config());
    assert_eq!(r.read_counter(COUNTER_SEQ), 3);
    assert_eq!(s.event_records().iter().map(|e| e.seq).collect::<Vec<u64>>(), vec![0, 1, 2]);
}
