use wallet_core::deterministic_id::{compute_deterministic_id, EntityName};

#[test]
fn same_inputs_same_id() {
    let cols = vec!["account".to_string(), "chain".to_string()];
    let a = compute_deterministic_id(EntityName::Address, &cols);
    let b = compute_deterministic_id(EntityName::Address, &cols);
    assert_eq!(a, b);
}

#[test]
fn different_kinds_different_ids() {
    let cols = vec!["x".to_string(), "y".to_string()];
    let a = compute_deterministic_id(EntityName::Address, &cols);
    let b = compute_deterministic_id(EntityName::Chain, &cols);
    assert_ne!(a, b);
}

#[test]
fn column_boundaries_are_unambiguous() {
    let a = compute_deterministic_id(EntityName::Address, &vec!["x".to_string(), "y".to_string()]);
    let b = compute_deterministic_id(EntityName::Address, &vec!["xy".to_string(), "".to_string()]);
    assert_ne!(a, b);
}

#[test]
fn id_is_lowercase_hex_of_a_digest() {
    let id = compute_deterministic_id(EntityName::Account, &vec!["a".to_string()]);
    assert_eq!(id.len(), 64);
    assert!(id.chars().all(|c| c.is_ascii_hexdigit() && !c.is_ascii_uppercase()));
}
