use ciborium::value::Value;
use mycloud::hopeandgrace::content_hash::compute_content_hash;
use mycloud::hopeandgrace::types::{
    AngelOutcome, CeremonyOutcome, CeremonySplit, DirectBlessings, LedgerEntry, SettlementRecordInput,
    SoulOutcome,
};

fn field(name: &str, v: Value) -> (Value, Value) {
    (Value::from(name), v)
}

fn opt_text(s: &Option<String>) -> Value {
    match s {
        Some(t) => Value::from(t.as_str()),
        None => Value::Null,
    }
}

fn ledger_value(e: &LedgerEntry) -> Value {
    Value::Map(vec![
        field("entry_type", Value::from(e.entry_type.as_str())),
        field("amount_cents", Value::from(e.amount_cents)),
        field("balance_after_cents", Value::from(e.balance_after_cents)),
        field("party", Value::from(e.party.as_str())),
        field("description", Value::from(e.description.as_str())),
        field("at_ns", Value::from(e.at_ns)),
    ])
}

fn outcome_name(o: CeremonyOutcome) -> &'static str {
    match o {
        CeremonyOutcome::Claimed => "Claimed",
        CeremonyOutcome::RevertedToChalice => "RevertedToChalice",
        CeremonyOutcome::Pending => "Pending",
    }
}

/// The record as a CBOR map in field order, as the canister encodes it.
fn cbor(i: &SettlementRecordInput) -> Vec<u8> {
    let v = Value::Map(vec![
        field("record_version", Value::from(i.record_version)),
        field("ceremony_number", Value::from(i.ceremony_number)),
        field("ceremony_date", Value::from(i.ceremony_date.as_str())),
        field("random_seed", Value::from(i.random_seed.as_str())),
        field("pool_total_cents", Value::from(i.pool_total_cents)),
        field(
            "split",
            Value::Map(vec![
                field("soul_base_cents", Value::from(i.split.soul_base_cents)),
                field("angel_gross_cents", Value::from(i.split.angel_gross_cents)),
                field("divine_offering_cents", Value::from(i.split.divine_offering_cents)),
                field("divine_offering_bps", Value::from(i.split.divine_offering_bps)),
            ]),
        ),
        field(
            "angel",
            Value::Map(vec![
                field("uuid", Value::from(i.angel.uuid.as_str())),
                field("claimed", Value::from(i.angel.claimed)),
                field("donated_bps", Value::from(i.angel.donated_bps)),
                field("donated_cents", Value::from(i.angel.donated_cents)),
                field("kept_cents", Value::from(i.angel.kept_cents)),
            ]),
        ),
        field(
            "soul",
            Value::Map(vec![
                field("uuid", Value::from(i.soul.uuid.as_str())),
                field("engaged", Value::from(i.soul.engaged)),
                field("reverted", Value::from(i.soul.reverted)),
                field("reverted_at_ns", i.soul.reverted_at_ns.map_or(Value::Null, Value::from)),
                field("total_received_cents", Value::from(i.soul.total_received_cents)),
                field("story_cid", opt_text(&i.soul.story_cid)),
                field("story_hash", opt_text(&i.soul.story_hash)),
            ]),
        ),
        field(
            "direct_blessings",
            Value::Map(vec![
                field("total_cents", Value::from(i.direct_blessings.total_cents)),
                field("donor_count", Value::from(i.direct_blessings.donor_count)),
            ]),
        ),
        field("outcome", Value::from(outcome_name(i.outcome))),
        field("rollover_cents", Value::from(i.rollover_cents)),
        field("ops_ledger_entry", ledger_value(&i.ops_ledger_entry)),
        field("ledger", Value::Array(i.ledger.iter().map(ledger_value).collect())),
        field("generated_at_ns", Value::from(i.generated_at_ns)),
    ]);
    let mut bytes: Vec<u8> = Vec::new();
    ciborium::into_writer(&v, &mut bytes).unwrap();
    bytes
}

fn hash(i: &SettlementRecordInput) -> String {
    compute_content_hash(&cbor(i))
}

fn sample_input() -> SettlementRecordInput {
    SettlementRecordInput {
        record_version: 1,
        ceremony_number: 100,
        ceremony_date: "2026-06-08".into(),
        random_seed: "abc-123-def-456".into(),
        pool_total_cents: 100_000,
        split: CeremonySplit {
            soul_base_cents: 40_000,
            angel_gross_cents: 40_000,
            divine_offering_cents: 20_000,
            divine_offering_bps: 2_000,
        },
        angel: AngelOutcome {
            uuid: "angel-1".into(),
            claimed: true,
            donated_bps: 5_000,
            donated_cents: 20_000,
            kept_cents: 20_000,
        },
        soul: SoulOutcome {
            uuid: "soul-1".into(),
            engaged: true,
            reverted: false,
            reverted_at_ns: None,
            total_received_cents: 40_000,
            story_cid: None,
            story_hash: None,
        },
        direct_blessings: DirectBlessings { total_cents: 0, donor_count: 0 },
        outcome: CeremonyOutcome::Claimed,
        rollover_cents: 0,
        ops_ledger_entry: LedgerEntry {
            entry_type: "divine_offering".into(),
            amount_cents: 20_000,
            balance_after_cents: 80_000,
            party: "ops".into(),
            description: "20% divine offering".into(),
            at_ns: 1_700_000_000_000_000_000,
        },
        ledger: vec![
            LedgerEntry {
                entry_type: "pool_start".into(),
                amount_cents: 0,
                balance_after_cents: 100_000,
                party: "chalice".into(),
                description: "ceremony pool opened".into(),
                at_ns: 1_700_000_000_000_000_000,
            },
            LedgerEntry {
                entry_type: "soul_blessing_base".into(),
                amount_cents: -40_000,
                balance_after_cents: 60_000,
                party: "soul#soul-1".into(),
                description: "soul base blessing".into(),
                at_ns: 1_700_000_000_000_000_001,
            },
        ],
        generated_at_ns: 1_700_000_000_500_000_000,
    }
}

#[test]
fn content_hash_is_deterministic() {
    let input = sample_input();
    let h1 = hash(&input);
    let h2 = hash(&input);
    assert_eq!(h1, h2);
    assert_eq!(h1.len(), 64);
    assert!(h1.chars().all(|c| c.is_ascii_hexdigit()));
}

#[test]
fn content_hash_changes_with_ceremony_number() {
    let mut a = sample_input();
    let mut b = sample_input();
    a.ceremony_number = 100;
    b.ceremony_number = 101;
    assert_ne!(hash(&a), hash(&b));
}

#[test]
fn content_hash_changes_with_amount() {
    let mut a = sample_input();
    let mut b = sample_input();
    a.ledger[1].amount_cents = -40_000;
    b.ledger[1].amount_cents = -40_001;
    b.ledger[1].balance_after_cents = 59_999;
    assert_ne!(hash(&a), hash(&b));
}

#[test]
fn content_hash_distinguishes_none_from_some_story() {
    let mut a = sample_input();
    let mut b = sample_input();
    a.soul.story_cid = None;
    a.soul.story_hash = None;
    b.soul.story_cid = Some("bafyabc".into());
    b.soul.story_hash = Some("d".repeat(64));
    assert_ne!(hash(&a), hash(&b));
}

#[test]
fn content_hash_distinguishes_outcome_variants() {
    let mut a = sample_input();
    let mut b = sample_input();
    a.outcome = CeremonyOutcome::Claimed;
    b.outcome = CeremonyOutcome::RevertedToChalice;
    assert_ne!(hash(&a), hash(&b));
}
