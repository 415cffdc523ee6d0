//! What the watchdog's ring buffer promises across calls.
use vstd::prelude::*;
use crate::manager::state::{ManagerState, COUNTER_RING_HEAD, COUNTER_SEQ};
use crate::manager::types::Severity;

verus! {

/// Recording an event keeps the ring-buffer window: the new event gets the
/// next sequence number, which then moves on past it, and the head stays.
pub proof fn lemma_record_keeps_window(
    before: ManagerState,
    after: ManagerState,
    now_ns: u64,
    source: Seq<char>,
    severity: Severity,
    message: Seq<char>,
)
    requires
        before.wf(),
        before.window_holds(),
        before.can_record(),
        after.records(&before, now_ns, source, severity, message),
    ensures
        after.window_holds(),
        after.counter(COUNTER_SEQ) == before.counter(COUNTER_SEQ) + 1,
        after.counter(COUNTER_RING_HEAD) == before.counter(COUNTER_RING_HEAD),
        after.events()@.contains_key(before.counter(COUNTER_SEQ)),
{
    let seq = before.counter(COUNTER_SEQ);
    assert(after.counters()@.contains_key(COUNTER_SEQ));
    assert(after.counter(COUNTER_SEQ) == seq + 1);
    assert(after.counter(COUNTER_RING_HEAD) == before.counter(COUNTER_RING_HEAD));
    assert(after.event_log().contains_key(seq));
    assert forall|k: u64| #[trigger] after.events()@.contains_key(k) implies after.counter(
        COUNTER_RING_HEAD,
    ) <= k < after.counter(COUNTER_SEQ) by {
        assert(after.event_log().contains_key(k));
        if k != seq {
            assert(before.event_log().contains_key(k));
            assert(before.events()@.contains_key(k));
        }
    }
}

/// Trimming bounds the ring buffer: afterwards the window still holds, no
/// more than `max_events` events are stored, and every stored event is
/// among the newest `max_events` sequence numbers.
pub proof fn lemma_trim_bounds_buffer(before: ManagerState, after: ManagerState)
    requires
        before.wf(),
        before.window_holds(),
        after.trimmed_from(&before),
    ensures
        after.window_holds(),
        after.events()@.len() <= before.config().max_events,
        forall|k: u64| #[trigger]
            after.events()@.contains_key(k) ==> k + before.config().max_events >= before.counter(
                COUNTER_SEQ,
            ),
{
    broadcast use vstd::set_lib::range_set_properties;

    let next = before.counter(COUNTER_SEQ);
    let head = before.counter(COUNTER_RING_HEAD);
    let max = before.config().max_events as u64;
    before.events().lemma_ordered();
    let lo: u64 = if next <= max {
        head
    } else if head < (next - max) as u64 {
        (next - max) as u64
    } else {
        head
    };
    if next > max {
        assert(after.counters()@.contains_key(COUNTER_RING_HEAD));
        assert(after.counter(COUNTER_SEQ) == next);
    }
    assert(after.counter(COUNTER_RING_HEAD) == lo);
    assert(after.counter(COUNTER_SEQ) == next);
    assert forall|k: u64| #[trigger] after.events()@.contains_key(k) implies lo <= k < next by {
        assert(before.events()@.contains_key(k));
    }
    let range = Set::<u64>::range(lo, next);
    assert(after.events()@.dom().subset_of(range));
    vstd::set_lib::lemma_len_subset(after.events()@.dom(), range);
}

} // verus!
