use atuin_common::ids::uuid_v4;

#[test]
fn uuid_v4_is_32_lowercase_hex_digits() {
    let id = uuid_v4();
    assert_eq!(id.len(), 32);
    assert!(id.chars().all(|c| c.is_ascii_hexdigit() && !c.is_ascii_uppercase()));
}

#[test]
fn uuid_v4_values_are_fresh() {
    assert_ne!(uuid_v4(), uuid_v4());
}
