//! Records of the watchdog.
use vstd::prelude::*;
use crate::principal::Principal;

verus! {

/// Severity of a health event.
#[derive(Clone, Copy, Debug, PartialEq, Eq, Structural)]
pub enum Severity {
    Info,
    Warn,
    Error,
}

/// One observation about the watchdog itself or a watched canister.
#[derive(Clone, Debug, PartialEq, Eq)]
pub struct HealthEvent {
    /// Sequence number, increasing by one per event.
    pub seq: u64,
    pub timestamp_ns: u64,
    /// "self", or the label of the canister concerned.
    pub source: String,
    pub severity: Severity,
    pub message: String,
}

/// A health event with its texts taken as characters.
pub struct HealthEventView {
    pub seq: u64,
    pub timestamp_ns: u64,
    pub source: Seq<char>,
    pub severity: Severity,
    pub message: Seq<char>,
}

impl View for HealthEvent {
    type V = HealthEventView;

    open spec fn view(&self) -> HealthEventView {
        HealthEventView {
            seq: self.seq,
            timestamp_ns: self.timestamp_ns,
            source: self.source@,
            severity: self.severity,
            message: self.message@,
        }
    }
}

impl HealthEvent {
    /// An equal copy.
    pub fn duplicate(&self) -> (r: HealthEvent)
        ensures
            r == *self,
    {
        HealthEvent {
            seq: self.seq,
            timestamp_ns: self.timestamp_ns,
            source: self.source.clone(),
            severity: self.severity,
            message: self.message.clone(),
        }
    }
}

/// A canister under watch.
#[derive(Clone, Debug, PartialEq, Eq)]
pub struct WatchedCanister {
    pub id: Principal,
    /// e.g. "auth" or "registry".
    pub label: String,
    /// A warning is due below this many cycles.
    pub cycles_threshold: u64,
    /// Last observed cycle balance.
    pub last_balance: Option<u64>,
    /// When the canister was last polled.
    pub last_check_ns: Option<u64>,
    /// Whether the last poll succeeded.
    pub last_status_ok: Option<bool>,
    pub registered_ns: u64,
}

impl WatchedCanister {
    /// An equal copy.
    pub fn duplicate(&self) -> (r: WatchedCanister)
        ensures
            r == *self,
    {
        WatchedCanister {
            id: self.id,
            label: self.label.clone(),
            cycles_threshold: self.cycles_threshold,
            last_balance: self.last_balance,
            last_check_ns: self.last_check_ns,
            last_status_ok: self.last_status_ok,
            registered_ns: self.registered_ns,
        }
    }
}

/// The watchdog's configuration.
#[derive(Clone, Copy, Debug, PartialEq, Eq)]
pub struct Config {
    /// May change the configuration and top up canisters.
    pub owner: Principal,
    /// Seconds between polls.
    pub poll_interval_secs: u64,
    /// Capacity of the event ring buffer.
    pub max_events: u32,
    /// Cycles threshold for newly watched canisters.
    pub default_threshold: u64,
}

/// Errors of the watchdog.
#[derive(Clone, Debug, PartialEq, Eq)]
pub enum ManagerError {
    Unauthorized,
    NotFound,
    AlreadyWatched,
    InvalidConfig(String),
    InsufficientCycles { available: u64, requested: u64 },
}

/// A watchdog error with its text taken as characters.
pub enum ManagerErrorView {
    Unauthorized,
    NotFound,
    AlreadyWatched,
    InvalidConfig(Seq<char>),
    InsufficientCycles { available: u64, requested: u64 },
}

impl View for ManagerError {
    type V = ManagerErrorView;

    open spec fn view(&self) -> ManagerErrorView {
        match self {
            ManagerError::Unauthorized => ManagerErrorView::Unauthorized,
            ManagerError::NotFound => ManagerErrorView::NotFound,
            ManagerError::AlreadyWatched => ManagerErrorView::AlreadyWatched,
            ManagerError::InvalidConfig(m) => ManagerErrorView::InvalidConfig(m@),
            ManagerError::InsufficientCycles { available, requested } => ManagerErrorView::InsufficientCycles {
                available: *available,
                requested: *requested,
            },
        }
    }
}

/// Health snapshot of the watchdog itself.
#[derive(Clone, Debug, PartialEq, Eq)]
pub struct HealthStatus {
    pub canister: String,
    pub ok: bool,
    pub event_count: u64,
    pub watched_count: u64,
    pub timestamp_ns: u64,
    pub cycles_balance: u64,
}

} // verus!
