use mycloud::hopeandgrace::content_hash::{compute_content_hash, digest_hex};
use mycloud::hopeandgrace::doc_key::LegalDocKey;
use mycloud::hopeandgrace::invariants::{
    check_all_invariants, invariant_1_auth, invariant_2_idempotent, invariant_3_split_sums_to_pool,
    invariant_4_angel_split, invariant_5_soul_receipt, invariant_6_schema_version,
    invariant_8_ledger_consistency,
};
use mycloud::hopeandgrace::state::{
    caller_must_be_owner, principals_contain, principals_without, HopeAndGraceState,
};
use mycloud::hopeandgrace::types::{
    AngelOutcome, CanisterConfig, CeremonyOutcome, CeremonySplit, DirectBlessings,
    HopeAndGraceError, LedgerEntry, SettlementRecordInput, SoulOutcome,
};
use mycloud::principal::Principal;

fn sample_input() -> SettlementRecordInput {
    SettlementRecordInput {
        record_version: 1,
        ceremony_number: 100,
        ceremony_date: "2026-06-08".into(),
        random_seed: "abc-123-def-456".into(),
        pool_total_cents: 100_000,
        split: CeremonySplit {
            soul_base_cents: 40_000,
            angel_gross_cents: 40_000,
            divine_offering_cents: 20_000,
            divine_offering_bps: 2_000,
        },
        angel: AngelOutcome {
            uuid: "angel-1".into(),
            claimed: true,
            donated_bps: 5_000,
            donated_cents: 20_000,
            kept_cents: 20_000,
        },
        soul: SoulOutcome {
            uuid: "soul-1".into(),
            engaged: true,
            reverted: false,
            reverted_at_ns: None,
            total_received_cents: 40_000,
            story_cid: None,
            story_hash: None,
        },
        direct_blessings: DirectBlessings { total_cents: 0, donor_count: 0 },
        outcome: CeremonyOutcome::Claimed,
        rollover_cents: 0,
        ops_ledger_entry: LedgerEntry {
            entry_type: "divine_offering".into(),
            amount_cents: 20_000,
            balance_after_cents: 80_000,
            party: "ops".into(),
            description: "20% divine offering".into(),
            at_ns: 1_700_000_000_000_000_000,
        },
        ledger: vec![
            LedgerEntry {
                entry_type: "pool_start".into(),
                amount_cents: 0,
                balance_after_cents: 100_000,
                party: "chalice".into(),
                description: "ceremony pool opened".into(),
                at_ns: 1_700_000_000_000_000_000,
            },
            LedgerEntry {
                entry_type: "soul_blessing_base".into(),
                amount_cents: -40_000,
                balance_after_cents: 60_000,
                party: "soul#soul-1".into(),
                description: "soul base blessing".into(),
                at_ns: 1_700_000_000_000_000_001,
            },
        ],
        generated_at_ns: 1_700_000_000_500_000_000,
    }
}

fn violation_text(r: Result<(), HopeAndGraceError>) -> String {
    match r {
        Err(HopeAndGraceError::InvariantViolated(m)) => m,
        other => panic!("expected an invariant violation, got {:?}", other),
    }
}

#[test]
fn legal_doc_key_roundtrip() {
    let key = LegalDocKey { kind: "privacy".into(), version: 7 };
    let bytes = key.to_bytes();
    let decoded = LegalDocKey::from_bytes(&bytes);
    assert_eq!(key.kind, decoded.kind);
    assert_eq!(key.version, decoded.version);
}

#[test]
fn legal_doc_key_ordering_groups_by_kind() {
    let terms_v1 = LegalDocKey { kind: "terms".into(), version: 1 };
    let terms_v2 = LegalDocKey { kind: "terms".into(), version: 2 };
    let privacy_v1 = LegalDocKey { kind: "privacy".into(), version: 1 };
    let mut entries = vec![
        (terms_v2.to_bytes(), "t2"),
        (privacy_v1.to_bytes(), "p1"),
        (terms_v1.to_bytes(), "t1"),
    ];
    entries.sort();
    let labels: Vec<&str> = entries.iter().map(|(_, l)| *l).collect();
    assert_eq!(labels, vec!["t1", "t2", "p1"]);
    let t_positions: Vec<usize> = labels
        .iter()
        .enumerate()
        .filter(|(_, l)| l.starts_with('t'))
        .map(|(i, _)| i)
        .collect();
    assert_eq!(t_positions, vec![0, 1], "all 'terms' entries should be contiguous");
}

#[test]
fn legal_doc_key_bytes_layout() {
    let k = LegalDocKey { kind: "terms".into(), version: 0x0102_0304 };
    assert_eq!(k.to_bytes(), vec![5, b't', b'e', b'r', b'm', b's', 1, 2, 3, 4]);
}

#[test]
fn ceremony_outcome_eq_works() {
    assert_eq!(CeremonyOutcome::Claimed, CeremonyOutcome::Claimed);
    assert_ne!(CeremonyOutcome::Claimed, CeremonyOutcome::RevertedToChalice);
    assert_ne!(CeremonyOutcome::Pending, CeremonyOutcome::Claimed);
}

#[test]
fn content_hash_of_known_bytes() {
    let h = compute_content_hash(b"abc");
    assert_eq!(h, "ba7816bf8f01cfea414140de5dae2223b00361a396177a9cb410ff61f20015ad");
    assert_eq!(h.len(), 64);
    let empty = compute_content_hash(b"");
    assert_eq!(empty, "e3b0c44298fc1c149afbf4c8996fb92427ae41e4649b934ca495991b7852b855");
}

#[test]
fn content_hash_changes_with_bytes() {
    assert_ne!(compute_content_hash(b"abc"), compute_content_hash(b"abd"));
    assert!(compute_content_hash(b"xyz").chars().all(|c| c.is_ascii_hexdigit()));
}

#[test]
fn invariant_3_accepts_correct_split() {
    let input = sample_input();
    assert!(invariant_3_split_sums_to_pool(&input).is_ok());
}

#[test]
fn invariant_3_rejects_undersized_split() {
    let mut input = sample_input();
    input.split.divine_offering_cents = 19_999;
    let result = invariant_3_split_sums_to_pool(&input);
    assert!(matches!(result, Err(HopeAndGraceError::InvariantViolated(_))));
}

#[test]
fn invariant_3_rejects_oversized_split() {
    let mut input = sample_input();
    input.split.soul_base_cents = 40_001;
    assert!(matches!(
        invariant_3_split_sums_to_pool(&input),
        Err(HopeAndGraceError::InvariantViolated(_))
    ));
}

#[test]
fn invariant_3_message_names_both_sums() {
    let mut input = sample_input();
    input.split.divine_offering_cents = 19_999;
    assert_eq!(
        violation_text(invariant_3_split_sums_to_pool(&input)),
        "split sums to 99999 cents but pool_total_cents is 100000"
    );
}

#[test]
fn invariant_4_accepts_correct_angel_split() {
    let input = sample_input();
    assert!(invariant_4_angel_split(&input).is_ok());
}

#[test]
fn invariant_4_rejects_mismatched_angel_split() {
    let mut input = sample_input();
    input.angel.donated_cents = 25_000;
    assert!(matches!(invariant_4_angel_split(&input), Err(HopeAndGraceError::InvariantViolated(_))));
}

#[test]
fn invariant_4_message_names_the_parts() {
    let mut input = sample_input();
    input.angel.donated_cents = 25_000;
    assert_eq!(
        violation_text(invariant_4_angel_split(&input)),
        "angel.donated_cents (25000) + angel.kept_cents (20000) = 45000 but angel_gross_cents is 40000"
    );
}

#[test]
fn invariant_5_accepts_within_ceiling() {
    let input = sample_input();
    assert!(invariant_5_soul_receipt(&input).is_ok());
}

#[test]
fn invariant_5_rejects_exceeding_ceiling() {
    let mut input = sample_input();
    input.soul.total_received_cents = 100_001;
    assert!(matches!(invariant_5_soul_receipt(&input), Err(HopeAndGraceError::InvariantViolated(_))));
}

#[test]
fn invariant_5_accepts_with_direct_blessings() {
    let mut input = sample_input();
    input.direct_blessings.total_cents = 50_000;
    input.direct_blessings.donor_count = 5;
    input.soul.total_received_cents = 130_000;
    assert!(invariant_5_soul_receipt(&input).is_ok());
}

#[test]
fn invariant_5_accepts_exactly_the_ceiling() {
    let mut input = sample_input();
    input.soul.total_received_cents = 100_000;
    assert!(invariant_5_soul_receipt(&input).is_ok());
}

#[test]
fn invariant_6_accepts_v1() {
    let input = sample_input();
    assert!(invariant_6_schema_version(&input).is_ok());
}

#[test]
fn invariant_6_rejects_v2() {
    let mut input = sample_input();
    input.record_version = 2;
    assert!(matches!(invariant_6_schema_version(&input), Err(HopeAndGraceError::InvariantViolated(_))));
}

#[test]
fn invariant_8_accepts_consistent_ledger() {
    let input = sample_input();
    assert!(invariant_8_ledger_consistency(&input).is_ok());
}

#[test]
fn invariant_8_rejects_empty_ledger() {
    let mut input = sample_input();
    input.ledger.clear();
    let result = invariant_8_ledger_consistency(&input);
    assert!(matches!(result, Err(HopeAndGraceError::InvariantViolated(_))));
    if let Err(HopeAndGraceError::InvariantViolated(msg)) = result {
        assert!(msg.contains("empty"), "expected 'empty' in error message, got: {}", msg);
    }
}

#[test]
fn invariant_8_rejects_inconsistent_ledger() {
    let mut input = sample_input();
    input.ledger[1].balance_after_cents = 50_000;
    assert!(matches!(
        invariant_8_ledger_consistency(&input),
        Err(HopeAndGraceError::InvariantViolated(_))
    ));
}

#[test]
fn invariant_8_message_names_first_bad_entry() {
    let mut input = sample_input();
    input.ledger[1].balance_after_cents = 50_000;
    assert_eq!(
        violation_text(invariant_8_ledger_consistency(&input)),
        "ledger entry #1: balance_after_cents is 50000 but 100000 + -40000 = 60000"
    );
}

#[test]
fn invariant_8_accepts_single_entry_ledger() {
    let mut input = sample_input();
    input.ledger.truncate(1);
    assert!(invariant_8_ledger_consistency(&input).is_ok());
}

#[test]
fn invariant_1_requires_a_writer() {
    let owner = Principal::from_slice(&[1, 2, 3]);
    let writer = Principal::from_slice(&[4, 5]);
    let config = CanisterConfig { owner, writers: vec![writer], pending_owner: None };
    assert!(invariant_1_auth(&config, &writer).is_ok());
    assert_eq!(invariant_1_auth(&config, &owner), Err(HopeAndGraceError::Unauthorized));
    assert_eq!(
        invariant_1_auth(&config, &Principal::anonymous()),
        Err(HopeAndGraceError::AnonymousCaller)
    );
}

#[test]
fn check_all_invariants_reports_first_failure() {
    let owner = Principal::from_slice(&[1]);
    let mut state = HopeAndGraceState::init(owner);
    assert_eq!(
        check_all_invariants(&state, &owner, &sample_input()),
        Err(HopeAndGraceError::Unauthorized)
    );
    let writer = Principal::from_slice(&[2]);
    assert!(state.add_writer(&owner, writer).is_ok());
    assert!(check_all_invariants(&state, &writer, &sample_input()).is_ok());
    assert!(invariant_2_idempotent(state.ceremony_store(), &sample_input()).is_ok());
    let mut bad = sample_input();
    bad.record_version = 2;
    bad.split.soul_base_cents = 1;
    let m = violation_text(check_all_invariants(&state, &writer, &bad));
    assert!(m.starts_with("split sums to"));
}

#[test]
fn ownership_handover_in_two_steps() {
    let owner = Principal::from_slice(&[1]);
    let next = Principal::from_slice(&[9, 9]);
    let stranger = Principal::from_slice(&[7]);
    let mut state = HopeAndGraceState::init(owner);
    assert_eq!(state.get_owner(), owner);
    assert_eq!(state.set_owner_initiate(&stranger, next), Err(HopeAndGraceError::Unauthorized));
    assert!(matches!(
        state.set_owner_initiate(&owner, Principal::anonymous()),
        Err(HopeAndGraceError::InvalidRecord(_))
    ));
    assert!(state.set_owner_initiate(&owner, next).is_ok());
    assert_eq!(state.get_owner(), owner);
    assert_eq!(state.get_pending_owner(), Some(next));
    assert_eq!(state.set_owner_accept(&stranger), Err(HopeAndGraceError::Unauthorized));
    assert!(state.set_owner_accept(&next).is_ok());
    assert_eq!(state.get_owner(), next);
    assert_eq!(state.get_pending_owner(), None);
    assert!(caller_must_be_owner(&state.get_config(), &next).is_ok());
    assert_eq!(caller_must_be_owner(&state.get_config(), &owner), Err(HopeAndGraceError::Unauthorized));
}

#[test]
fn cancel_disarms_the_handover() {
    let owner = Principal::from_slice(&[1]);
    let next = Principal::from_slice(&[2]);
    let mut state = HopeAndGraceState::init(owner);
    assert!(state.set_owner_initiate(&owner, next).is_ok());
    assert!(state.set_owner_cancel(&owner).is_ok());
    assert_eq!(state.get_pending_owner(), None);
    assert_eq!(state.set_owner_accept(&next), Err(HopeAndGraceError::NotFound));
    assert_eq!(state.get_owner(), owner);
}

#[test]
fn writers_are_added_once_and_removed() {
    let owner = Principal::from_slice(&[1]);
    let w = Principal::from_slice(&[3, 3]);
    let mut state = HopeAndGraceState::init(owner);
    assert!(!state.is_writer(&w));
    assert!(state.add_writer(&owner, w).is_ok());
    assert!(state.add_writer(&owner, w).is_ok());
    assert_eq!(state.list_writers(), vec![w]);
    assert!(state.is_writer(&w));
    assert_eq!(state.add_writer(&w, owner), Err(HopeAndGraceError::Unauthorized));
    assert!(state.remove_writer(&owner, &w).is_ok());
    assert!(!state.is_writer(&w));
    assert!(state.list_writers().is_empty());
    let h = state.health_check(5);
    assert_eq!(h.canister, "hopeandgrace");
    assert!(h.ok);
    assert_eq!(h.ceremony_count, 0);
    assert_eq!(h.timestamp_ns, 5);
}

#[test]
fn principal_list_helpers() {
    let a = Principal::from_slice(&[1]);
    let b = Principal::from_slice(&[2]);
    let v = vec![a, b, a];
    assert!(principals_contain(&v, &b));
    assert_eq!(principals_without(&v, &a), vec![b]);
}

#[test]
fn digest_hex_is_lowercase_two_digits_per_byte() {
    assert_eq!(digest_hex(&[0x00, 0xab, 0xff, 0x10]), "00abff10");
    assert_eq!(digest_hex(&[]), "");
}

#[test]
fn invariant_3_rejects_a_split_that_overflows() {
    let mut input = sample_input();
    input.pool_total_cents = u64::MAX;
    input.split.soul_base_cents = u64::MAX;
    input.split.angel_gross_cents = 1;
    input.split.divine_offering_cents = 0;
    assert_eq!(
        violation_text(invariant_3_split_sums_to_pool(&input)),
        "split sums to 18446744073709551616 cents but pool_total_cents is 18446744073709551615"
    );
}

#[test]
fn invariant_4_rejects_an_angel_split_that_overflows() {
    let mut input = sample_input();
    input.split.angel_gross_cents = u64::MAX;
    input.angel.donated_cents = u64::MAX;
    input.angel.kept_cents = 1;
    assert_eq!(
        violation_text(invariant_4_angel_split(&input)),
        "angel.donated_cents (18446744073709551615) + angel.kept_cents (1) = 18446744073709551616 but angel_gross_cents is 18446744073709551615"
    );
}
