use mycloud::keyed::SortedMap;
use mycloud::principal::{decode_principal_text, encode_principal_text, Principal};
use mycloud::text::{decimal_string, signed_decimal_string};

#[test]
fn decimal_strings() {
    assert_eq!(decimal_string(0), "0");
    assert_eq!(decimal_string(1234567890), "1234567890");
    assert_eq!(decimal_string(u128::MAX), u128::MAX.to_string());
    assert_eq!(signed_decimal_string(-40000), "-40000");
    assert_eq!(signed_decimal_string(i128::MIN), i128::MIN.to_string());
}

#[test]
fn principal_text_encoding_roundtrips() {
    let p = Principal::from_slice(&[1, 2, 3]);
    let b = encode_principal_text(&p, "héllo");
    assert_eq!(b[0], 3);
    let (q, t) = decode_principal_text(&b);
    assert_eq!(q, p);
    assert_eq!(t, "héllo");
}

#[test]
fn principals_compare_by_length_then_bytes() {
    let short = Principal::from_slice(&[9]);
    let long = Principal::from_slice(&[1, 1]);
    assert!(short < long);
    assert!(Principal::anonymous().is_anonymous());
    assert!(!short.is_anonymous());
    assert_eq!(long.as_slice(), &[1, 1]);
}

#[test]
fn sorted_map_keeps_keys_in_order() {
    let mut m: SortedMap<u64, &str> = SortedMap::new();
    m.insert(5, "five");
    m.insert(1, "one");
    m.insert(3, "three");
    m.insert(1, "uno");
    assert_eq!(m.len(), 3);
    assert_eq!((*m.key_at(0), *m.value_at(0)), (1, "uno"));
    assert_eq!(*m.key_at(2), 5);
    assert_eq!(m.remove(&3), Some("three"));
    assert_eq!(m.remove(&3), None);
    assert!(!m.contains_key(&3));
    assert_eq!(m.get(&5), Some(&"five"));
}
