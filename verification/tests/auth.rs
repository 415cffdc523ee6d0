use mycloud::auth::state::AuthState;
use mycloud::auth::types::AuthError;
use mycloud::auth::vault_key::VaultKey;
use mycloud::principal::Principal;

#[test]
fn vault_key_roundtrip() {
    let key = VaultKey { owner: Principal::from_slice(&[1, 2, 3, 4]), label: "github_pat".to_string() };
    let bytes = key.to_bytes();
    let decoded = VaultKey::from_bytes(&bytes);
    assert_eq!(key.owner, decoded.owner);
    assert_eq!(key.label, decoded.label);
}

#[test]
fn vault_key_ordering_groups_by_owner() {
    let alice_a = VaultKey { owner: Principal::from_slice(&[1]), label: "a".into() };
    let alice_b = VaultKey { owner: Principal::from_slice(&[1]), label: "b".into() };
    let bob_a = VaultKey { owner: Principal::from_slice(&[2]), label: "a".into() };
    let mut keys = vec![bob_a.clone(), alice_b.clone(), alice_a.clone()];
    keys.sort();
    assert_eq!(keys, vec![alice_a, alice_b, bob_a]);
}

#[test]
fn vault_key_bytes_layout() {
    let k = VaultKey { owner: Principal::from_slice(&[7, 8]), label: "ab".into() };
    assert_eq!(k.to_bytes(), vec![2, 7, 8, b'a', b'b']);
}

#[test]
fn unregistered_caller_is_refused() {
    let mut s = AuthState::new();
    let alice = Principal::from_slice(&[1]);
    assert_eq!(s.get_me(&alice), Err(AuthError::NotRegistered));
    assert_eq!(s.put_credential(&alice, 1, "k".into(), vec![1]), Err(AuthError::NotRegistered));
    assert_eq!(s.list_credentials(&alice), Err(AuthError::NotRegistered));
    assert_eq!(s.get_me(&Principal::anonymous()), Err(AuthError::NotRegistered));
    assert_eq!(s.list_credentials(&Principal::anonymous()), Err(AuthError::Unauthorized));
}

#[test]
fn register_keeps_first_registration_time() {
    let mut s = AuthState::new();
    let alice = Principal::from_slice(&[1]);
    let u1 = s.register(&alice, 10);
    assert_eq!((u1.registered, u1.last_seen), (10, 10));
    let u2 = s.register(&alice, 20);
    assert_eq!((u2.registered, u2.last_seen), (10, 20));
    assert_eq!(s.get_me(&alice), Ok(u2));
    assert_eq!(s.user_count(), 1);
}

#[test]
fn credentials_are_per_owner() {
    let mut s = AuthState::new();
    let alice = Principal::from_slice(&[1]);
    let bob = Principal::from_slice(&[2]);
    s.register(&alice, 1);
    s.register(&bob, 1);
    let e = s.put_credential(&alice, 5, "github_pat".into(), vec![9, 9]).unwrap();
    assert_eq!((e.created_ns, e.updated_ns), (5, 5));
    s.put_credential(&alice, 6, "openai_key".into(), vec![1]).unwrap();
    s.put_credential(&bob, 7, "zz".into(), vec![2]).unwrap();
    assert_eq!(s.list_credentials(&alice), Ok(vec!["github_pat".to_string(), "openai_key".to_string()]));
    assert_eq!(s.list_credentials(&bob), Ok(vec!["zz".to_string()]));
    assert_eq!(s.get_credential(&bob, "github_pat".into()), Err(AuthError::NotFound));
    let again = s.put_credential(&alice, 8, "github_pat".into(), vec![3]).unwrap();
    assert_eq!((again.created_ns, again.updated_ns), (5, 8));
    assert_eq!(s.get_credential(&alice, "github_pat".into()).unwrap().data, vec![3]);
    assert_eq!(s.delete_credential(&alice, "github_pat".into()), Ok(true));
    assert_eq!(s.delete_credential(&alice, "github_pat".into()), Ok(false));
    assert_eq!(s.list_credentials(&alice), Ok(vec!["openai_key".to_string()]));
    let h = s.health_check(3);
    assert_eq!(h.canister, "auth");
    assert_eq!((h.user_count, h.vault_entries, h.timestamp_ns), (2, 2, 3));
}

#[test]
fn bad_credential_input_is_refused() {
    let mut s = AuthState::new();
    let alice = Principal::from_slice(&[1]);
    s.register(&alice, 1);
    assert_eq!(
        s.put_credential(&alice, 2, String::new(), vec![]),
        Err(AuthError::BadInput("label must be 1..=128 chars".into()))
    );
    assert_eq!(
        s.put_credential(&alice, 2, "x".repeat(129), vec![]),
        Err(AuthError::BadInput("label must be 1..=128 chars".into()))
    );
    assert!(s.put_credential(&alice, 2, "x".repeat(128), vec![0; 65536]).is_ok());
    assert_eq!(
        s.put_credential(&alice, 2, "y".into(), vec![0; 65537]),
        Err(AuthError::BadInput("blob exceeds 64KiB limit".into()))
    );
}

#[test]
fn vault_restores_from_its_records() {
    let mut s = AuthState::new();
    let alice = Principal::from_slice(&[1]);
    let bob = Principal::from_slice(&[2]);
    s.register(&alice, 1);
    s.register(&bob, 2);
    s.put_credential(&alice, 3, "k1".into(), vec![1, 2]).unwrap();
    s.put_credential(&bob, 4, "k2".into(), vec![3]).unwrap();
    let users = s.user_records();
    assert_eq!(users.len(), 2);
    let vault = s.vault_records();
    assert_eq!(vault.len(), 2);
    assert_eq!(vault[0].0, alice);
    let r = AuthState::restore(users, vault);
    assert_eq!(r.get_me(&bob), s.get_me(&bob));
    assert_eq!(r.list_credentials(&alice), Ok(vec!["k1".to_string()]));
    assert_eq!(r.get_credential(&bob, "k2".into()).unwrap().data, vec![3]);
    assert_eq!(r.user_count(), 2);
}
