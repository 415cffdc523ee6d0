//! The gates a ceremony record must pass before it is archived, checked in
//! order: writer authorization, idempotency, pool conservation, angel
//! split, soul receipt ceiling, schema version, ledger consistency.
use vstd::prelude::*;
use crate::keyed::SortedMap;
use crate::principal::Principal;
use crate::text::{decimal, push_decimal, push_signed_decimal, signed_decimal};
use crate::hopeandgrace::state::{caller_must_be_writer, writer_check, HopeAndGraceState};
use crate::hopeandgrace::types::{
    CanisterConfig, HopeAndGraceError, LedgerEntry, SettlementRecord, SettlementRecordInput,
};

verus! {

/// `r` is an invariant violation whose text is `msg`.
pub open spec fn violation_with(r: Result<(), HopeAndGraceError>, msg: Seq<char>) -> bool {
    r matches Err(HopeAndGraceError::InvariantViolated(m)) && m@ == msg
}

// --- #3: the split adds up to the pool --------------------------------------

/// soul base + angel gross + divine offering, exactly.
pub open spec fn split_sum(input: SettlementRecordInput) -> int {
    input.split.soul_base_cents + input.split.angel_gross_cents + input.split.divine_offering_cents
}

pub open spec fn split_message(input: SettlementRecordInput) -> Seq<char> {
    "split sums to "@ + decimal(split_sum(input) as nat) + " cents but pool_total_cents is "@
        + decimal(input.pool_total_cents as nat)
}

/// #3 — pool conservation: the split sums to the pool total.
pub fn invariant_3_split_sums_to_pool(input: &SettlementRecordInput) -> (r: Result<(), HopeAndGraceError>)
    ensures
        r is Ok <==> split_sum(*input) == input.pool_total_cents,
        r is Err ==> violation_with(r, split_message(*input)),
{
    let sum: u128 = input.split.soul_base_cents as u128 + input.split.angel_gross_cents as u128
        + input.split.divine_offering_cents as u128;
    if sum != input.pool_total_cents as u128 {
        let mut m = String::from_str("split sums to ");
        push_decimal(&mut m, sum);
        m.append(" cents but pool_total_cents is ");
        push_decimal(&mut m, input.pool_total_cents as u128);
        return Err(HopeAndGraceError::InvariantViolated(m));
    }
    Ok(())
}

// --- #4: the angel's share is accounted for ---------------------------------

/// donated + kept, exactly.
pub open spec fn angel_sum(input: SettlementRecordInput) -> int {
    input.angel.donated_cents + input.angel.kept_cents
}

pub open spec fn angel_message(input: SettlementRecordInput) -> Seq<char> {
    "angel.donated_cents ("@ + decimal(input.angel.donated_cents as nat) + ") + angel.kept_cents ("@
        + decimal(input.angel.kept_cents as nat) + ") = "@ + decimal(angel_sum(input) as nat)
        + " but angel_gross_cents is "@ + decimal(input.split.angel_gross_cents as nat)
}

/// #4 — angel split: donated + kept equals the angel's gross share.
pub fn invariant_4_angel_split(input: &SettlementRecordInput) -> (r: Result<(), HopeAndGraceError>)
    ensures
        r is Ok <==> angel_sum(*input) == input.split.angel_gross_cents,
        r is Err ==> violation_with(r, angel_message(*input)),
{
    let sum: u128 = input.angel.donated_cents as u128 + input.angel.kept_cents as u128;
    if sum != input.split.angel_gross_cents as u128 {
        let mut m = String::from_str("angel.donated_cents (");
        push_decimal(&mut m, input.angel.donated_cents as u128);
        m.append(") + angel.kept_cents (");
        push_decimal(&mut m, input.angel.kept_cents as u128);
        m.append(") = ");
        push_decimal(&mut m, sum);
        m.append(" but angel_gross_cents is ");
        push_decimal(&mut m, input.split.angel_gross_cents as u128);
        return Err(HopeAndGraceError::InvariantViolated(m));
    }
    Ok(())
}

// --- #5: the soul cannot receive more than there was ------------------------

/// pool + direct blessings, exactly.
pub open spec fn soul_ceiling(input: SettlementRecordInput) -> int {
    input.pool_total_cents + input.direct_blessings.total_cents
}

pub open spec fn soul_message(input: SettlementRecordInput) -> Seq<char> {
    "soul.total_received_cents ("@ + decimal(input.soul.total_received_cents as nat)
        + ") exceeds pool_total + direct_blessings ("@ + decimal(soul_ceiling(input) as nat) + ")"@
}

/// #5 — soul receipt: at most the pool plus direct blessings.
pub fn invariant_5_soul_receipt(input: &SettlementRecordInput) -> (r: Result<(), HopeAndGraceError>)
    ensures
        r is Ok <==> input.soul.total_received_cents <= soul_ceiling(*input),
        r is Err ==> violation_with(r, soul_message(*input)),
{
    let ceiling: u128 = input.pool_total_cents as u128 + input.direct_blessings.total_cents as u128;
    if input.soul.total_received_cents as u128 > ceiling {
        let mut m = String::from_str("soul.total_received_cents (");
        push_decimal(&mut m, input.soul.total_received_cents as u128);
        m.append(") exceeds pool_total + direct_blessings (");
        push_decimal(&mut m, ceiling);
        m.append(")");
        return Err(HopeAndGraceError::InvariantViolated(m));
    }
    Ok(())
}

// --- #6: only schema version 1 -----------------------------------------------

pub open spec fn version_message(input: SettlementRecordInput) -> Seq<char> {
    "record_version is "@ + decimal(input.record_version as nat)
        + " but this canister only accepts version 1"@
}

/// #6 — schema version: only version 1 is understood.
pub fn invariant_6_schema_version(input: &SettlementRecordInput) -> (r: Result<(), HopeAndGraceError>)
    ensures
        r is Ok <==> input.record_version == 1,
        r is Err ==> violation_with(r, version_message(*input)),
{
    if input.record_version != 1 {
        let mut m = String::from_str("record_version is ");
        push_decimal(&mut m, input.record_version as u128);
        m.append(" but this canister only accepts version 1");
        return Err(HopeAndGraceError::InvariantViolated(m));
    }
    Ok(())
}

// --- #8: the ledger's running balance is consistent --------------------------

/// Entry `i` (from 1) moves the previous balance by its amount.
pub open spec fn ledger_step_ok(l: Seq<LedgerEntry>, i: int) -> bool {
    l[i - 1].balance_after_cents + l[i].amount_cents == l[i].balance_after_cents
}

/// Every entry after the first moves the previous balance by its amount.
pub open spec fn ledger_consistent(l: Seq<LedgerEntry>) -> bool {
    forall|i: int| 1 <= i < l.len() ==> #[trigger] ledger_step_ok(l, i)
}

pub open spec fn ledger_empty_message() -> Seq<char> {
    "ledger must not be empty"@
}

/// The message for the first inconsistent entry `i`.
pub open spec fn ledger_entry_message(l: Seq<LedgerEntry>, i: int) -> Seq<char> {
    "ledger entry #"@ + decimal(i as nat) + ": balance_after_cents is "@ + decimal(
        l[i].balance_after_cents as nat,
    ) + " but "@ + signed_decimal(l[i - 1].balance_after_cents as int) + " + "@ + signed_decimal(
        l[i].amount_cents as int,
    ) + " = "@ + signed_decimal(l[i - 1].balance_after_cents + l[i].amount_cents)
}

/// #8 — ledger consistency: the ledger is not empty and each entry's
/// balance is the previous balance plus its amount. The first entry only
/// seeds the walk. On failure the message names the first bad entry.
pub fn invariant_8_ledger_consistency(input: &SettlementRecordInput) -> (r: Result<(), HopeAndGraceError>)
    ensures
        r is Ok <==> (input.ledger@.len() > 0 && ledger_consistent(input.ledger@)),
        input.ledger@.len() == 0 ==> violation_with(r, ledger_empty_message()),
        input.ledger@.len() > 0 && r is Err ==> exists|i: int|
            1 <= i < input.ledger@.len() && !ledger_step_ok(input.ledger@, i) && (forall|j: int|
                1 <= j < i ==> ledger_step_ok(input.ledger@, j)) && violation_with(
                r,
                ledger_entry_message(input.ledger@, i),
            ),
{
    let l = &input.ledger;
    let n = l.len();
    if n == 0 {
        return Err(HopeAndGraceError::InvariantViolated(String::from_str("ledger must not be empty")));
    }
    let mut prev_balance: i128 = l[0].balance_after_cents as i128;
    let mut i: usize = 1;
    while i < n
        invariant
            n == l@.len(),
            l@ == input.ledger@,
            1 <= i <= n,
            prev_balance == l@[i - 1].balance_after_cents,
            forall|j: int| 1 <= j < i ==> ledger_step_ok(l@, j),
        decreases n - i,
    {
        let entry = &l[i];
        let expected: i128 = prev_balance + entry.amount_cents as i128;
        if expected != entry.balance_after_cents as i128 {
            let mut m = String::from_str("ledger entry #");
            push_decimal(&mut m, i as u128);
            m.append(": balance_after_cents is ");
            push_decimal(&mut m, entry.balance_after_cents as u128);
            m.append(" but ");
            push_signed_decimal(&mut m, prev_balance);
            m.append(" + ");
            push_signed_decimal(&mut m, entry.amount_cents as i128);
            m.append(" = ");
            push_signed_decimal(&mut m, expected);
            let r = Err(HopeAndGraceError::InvariantViolated(m));
            assert(!ledger_step_ok(l@, i as int));
            assert(violation_with(r, ledger_entry_message(l@, i as int)));
            return r;
        }
        prev_balance = entry.balance_after_cents as i128;
        i = i + 1;
    }
    Ok(())
}

// --- #1 and #2 ---------------------------------------------------------------

/// #1 — the caller must be a writer.
pub fn invariant_1_auth(config: &CanisterConfig, caller: &Principal) -> (r: Result<(), HopeAndGraceError>)
    ensures
        r == writer_check(config@, caller@),
{
    caller_must_be_writer(config, caller)
}

/// #2 — idempotency: the ceremony number is not archived yet. A duplicate
/// is reported as `AlreadyArchived` with its number, so a retry can be
/// recognised.
pub fn invariant_2_idempotent(
    ceremonies: &SortedMap<u64, SettlementRecord>,
    input: &SettlementRecordInput,
) -> (r: Result<(), HopeAndGraceError>)
    requires
        ceremonies.wf(),
    ensures
        r == (if ceremonies@.contains_key(input.ceremony_number) {
            Err(HopeAndGraceError::AlreadyArchived(input.ceremony_number))
        } else {
            Ok(())
        }),
{
    if ceremonies.contains_key(&input.ceremony_number) {
        Err(HopeAndGraceError::AlreadyArchived(input.ceremony_number))
    } else {
        Ok(())
    }
}

/// Whether the data checks #3 to #8 all hold.
pub open spec fn record_is_sound(input: SettlementRecordInput) -> bool {
    &&& split_sum(input) == input.pool_total_cents
    &&& angel_sum(input) == input.split.angel_gross_cents
    &&& input.soul.total_received_cents <= soul_ceiling(input)
    &&& input.record_version == 1
    &&& input.ledger@.len() > 0
    &&& ledger_consistent(input.ledger@)
}

/// Runs every gate in order and reports the first that fails: the writer
/// check, then idempotency, then #3, #4, #5, #6 and #8.
pub fn check_all_invariants(
    state: &HopeAndGraceState,
    caller: &Principal,
    input: &SettlementRecordInput,
) -> (r: Result<(), HopeAndGraceError>)
    requires
        state.wf(),
    ensures
        r is Ok <==> (writer_check(state.config()@, caller@) is Ok && !state.ceremonies()@.contains_key(
            input.ceremony_number,
        ) && record_is_sound(*input)),
        writer_check(state.config()@, caller@) is Err ==> r == writer_check(state.config()@, caller@),
        writer_check(state.config()@, caller@) is Ok && state.ceremonies()@.contains_key(input.ceremony_number)
            ==> r == Err::<(), HopeAndGraceError>(HopeAndGraceError::AlreadyArchived(input.ceremony_number)),
        writer_check(state.config()@, caller@) is Ok && !state.ceremonies()@.contains_key(input.ceremony_number)
            ==> {
            if split_sum(*input) != input.pool_total_cents {
                violation_with(r, split_message(*input))
            } else if angel_sum(*input) != input.split.angel_gross_cents {
                violation_with(r, angel_message(*input))
            } else if input.soul.total_received_cents > soul_ceiling(*input) {
                violation_with(r, soul_message(*input))
            } else if input.record_version != 1 {
                violation_with(r, version_message(*input))
            } else if input.ledger@.len() == 0 {
                violation_with(r, ledger_empty_message())
            } else if !ledger_consistent(input.ledger@) {
                exists|i: int|
                    1 <= i < input.ledger@.len() && !ledger_step_ok(input.ledger@, i) && (forall|j: int|
                        1 <= j < i ==> ledger_step_ok(input.ledger@, j)) && violation_with(
                        r,
                        ledger_entry_message(input.ledger@, i),
                    )
            } else {
                r is Ok
            }
        },
{
    invariant_1_auth(state.config_ref(), caller)?;
    invariant_2_idempotent(state.ceremony_store(), input)?;
    invariant_3_split_sums_to_pool(input)?;
    invariant_4_angel_split(input)?;
    invariant_5_soul_receipt(input)?;
    invariant_6_schema_version(input)?;
    invariant_8_ledger_consistency(input)?;
    Ok(())
}

} // verus!
