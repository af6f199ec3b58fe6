use ynab_sync::identity::derive_import_id;

#[test]
fn identical_inputs_derive_identical_keys() {
    let k1 = derive_import_id("2023-01-01", 100, "a :: b");
    let k2 = derive_import_id("2023-01-01", 100, "a :: b");
    assert_eq!(k1, k2);
    assert_eq!(k1.chars().count(), 36);
}

#[test]
fn derived_keys_match_the_digest() {
    let k = derive_import_id("2023-01-01", 100, "a :: b");
    assert_eq!(k.as_str(), "e7d53b5f6015bdcabc067e6d6aa6eeb77694");
}

#[test]
fn any_changed_input_changes_the_key() {
    let base = derive_import_id("2023-01-01", 100, "a :: b");
    assert_ne!(base, derive_import_id("2023-01-01", 150, "a :: b"));
    assert_ne!(base, derive_import_id("2023-01-02", 100, "a :: b"));
    assert_ne!(base, derive_import_id("2023-01-01", 100, "a :: c"));
    assert_eq!(
        derive_import_id("2023-01-01", 150, "a :: b").as_str(),
        "862c1adc95e9026513e267d1eea7b48ce3fd"
    );
}

#[test]
fn negative_amounts_feed_their_sign() {
    let k1 = derive_import_id("2023-01-01", -100, "m");
    let k2 = derive_import_id("2023-01-01", 100, "m");
    assert_ne!(k1, k2);
    assert_eq!(k1.chars().count(), 36);
}
