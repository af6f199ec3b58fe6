use ynab_sync::reconcile::{classify_action, reconcile, Action, LedgerIndex};
use ynab_sync::ynab::{Transaction, TransactionCleared};

fn txn(key: Option<&str>, amount: i32, date: &str, category: Option<&str>) -> Transaction {
    Transaction {
        account_id: "acct".to_string(),
        date: date.to_string(),
        amount,
        payee_id: None,
        payee_name: None,
        category_id: category.map(|c| c.to_string()),
        memo: None,
        cleared: TransactionCleared::Cleared,
        approved: true,
        flag_color: None,
        import_id: key.map(|k| k.to_string()),
    }
}

#[test]
fn matching_entry_is_skipped() {
    let ledger = LedgerIndex::new(vec![txn(Some("K"), 100, "2023-01-01", None)]);
    let proposed = vec![txn(Some("K"), 100, "2023-01-01", None)];
    let (new, update) = reconcile(&proposed, &ledger, false);
    assert!(new.is_empty());
    assert!(update.is_empty());
}

#[test]
fn changed_amount_is_an_update() {
    let ledger = LedgerIndex::new(vec![txn(Some("K"), 100, "2023-01-01", None)]);
    let proposed = vec![txn(Some("K"), 150, "2023-01-01", None)];
    let (new, update) = reconcile(&proposed, &ledger, false);
    assert!(new.is_empty());
    assert_eq!(update.len(), 1);
    assert_eq!(update[0].amount, 150);
}

#[test]
fn changed_date_is_an_update() {
    let ledger = LedgerIndex::new(vec![txn(Some("K"), 100, "2023-01-01", None)]);
    let proposed = vec![txn(Some("K"), 100, "2023-01-02", None)];
    let (new, update) = reconcile(&proposed, &ledger, false);
    assert!(new.is_empty());
    assert_eq!(update.len(), 1);
}

#[test]
fn unknown_key_is_new() {
    let ledger = LedgerIndex::new(vec![txn(Some("K"), 100, "2023-01-01", None)]);
    let proposed = vec![txn(Some("OTHER"), 100, "2023-01-01", None)];
    let (new, update) = reconcile(&proposed, &ledger, false);
    assert_eq!(new.len(), 1);
    assert!(update.is_empty());
}

#[test]
fn missing_key_is_always_new() {
    let ledger = LedgerIndex::new(vec![txn(Some("K"), 100, "2023-01-01", None)]);
    let proposed = vec![txn(None, 100, "2023-01-01", None)];
    let (new, update) = reconcile(&proposed, &ledger, false);
    assert_eq!(new.len(), 1);
    assert!(update.is_empty());
}

#[test]
fn category_change_skips_without_force_update() {
    let ledger = LedgerIndex::new(vec![txn(Some("K"), 100, "2023-01-01", Some("old-cat"))]);
    let proposed = vec![txn(Some("K"), 100, "2023-01-01", Some("new-cat"))];
    let (new, update) = reconcile(&proposed, &ledger, false);
    assert!(new.is_empty());
    assert!(update.is_empty());
}

#[test]
fn category_change_updates_with_force_update() {
    let ledger = LedgerIndex::new(vec![txn(Some("K"), 100, "2023-01-01", Some("old-cat"))]);
    let proposed = vec![txn(Some("K"), 100, "2023-01-01", Some("new-cat"))];
    let (new, update) = reconcile(&proposed, &ledger, true);
    assert!(new.is_empty());
    assert_eq!(update.len(), 1);
}

#[test]
fn unchanged_category_skips_even_with_force_update() {
    let ledger = LedgerIndex::new(vec![txn(Some("K"), 100, "2023-01-01", Some("cat"))]);
    let proposed = vec![txn(Some("K"), 100, "2023-01-01", Some("cat"))];
    let (new, update) = reconcile(&proposed, &ledger, true);
    assert!(new.is_empty());
    assert!(update.is_empty());
}

#[test]
fn output_preserves_input_order() {
    let ledger = LedgerIndex::new(vec![
        txn(Some("U1"), 100, "2023-01-01", None),
        txn(Some("U2"), 100, "2023-01-01", None),
    ]);
    let proposed = vec![
        txn(Some("N1"), 1, "2023-01-01", None),
        txn(Some("U1"), 2, "2023-01-01", None),
        txn(Some("N2"), 3, "2023-01-01", None),
        txn(Some("U2"), 4, "2023-01-01", None),
    ];
    let (new, update) = reconcile(&proposed, &ledger, false);
    let new_keys: Vec<&str> = new.iter().map(|t| t.import_id.as_deref().unwrap()).collect();
    let upd_keys: Vec<&str> = update.iter().map(|t| t.import_id.as_deref().unwrap()).collect();
    assert_eq!(new_keys, vec!["N1", "N2"]);
    assert_eq!(upd_keys, vec!["U1", "U2"]);
}

#[test]
fn duplicate_ledger_keys_let_the_last_entry_win() {
    let ledger = LedgerIndex::new(vec![
        txn(Some("K"), 100, "2023-01-01", None),
        txn(Some("K"), 250, "2023-01-01", None),
    ]);
    let same_as_last = txn(Some("K"), 250, "2023-01-01", None);
    assert_eq!(classify_action(&same_as_last, &ledger, false), Action::Skip);
    let same_as_first = txn(Some("K"), 100, "2023-01-01", None);
    assert_eq!(classify_action(&same_as_first, &ledger, false), Action::Update);
}

#[test]
fn keyless_ledger_entries_are_not_indexed() {
    let ledger = LedgerIndex::new(vec![txn(None, 100, "2023-01-01", None)]);
    let proposed = vec![txn(Some("K"), 100, "2023-01-01", None)];
    let (new, update) = reconcile(&proposed, &ledger, false);
    assert_eq!(new.len(), 1);
    assert!(update.is_empty());
}

#[test]
fn repeated_run_against_unchanged_ledger_writes_nothing() {
    let rows = vec![
        txn(Some("A"), 10, "2023-01-01", Some("c1")),
        txn(Some("B"), -20, "2023-01-02", None),
    ];
    let ledger = LedgerIndex::new(rows.clone());
    let (new, update) = reconcile(&rows, &ledger, true);
    assert!(new.is_empty());
    assert!(update.is_empty());
}
