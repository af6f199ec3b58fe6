use ynab_sync::convert::{convert_n26_transaction, CategoryMapping};
use ynab_sync::n26::{CategoryNames, Category as N26Category, Transaction as N26Transaction};
use ynab_sync::rules::{apply_rules, Rules, TransactionField};
use ynab_sync::ynab::{
    validate_ids, Account, AccountType, Budget, Category, CategoryGoalType, CategoryGroup,
    CategoryIndex, CurrencyFormat, DateFormat, Transaction, TransactionCleared,
    TransactionFlagColor,
};
use ynab_sync::ErrorKind;

fn category(id: &str, name: &str) -> Category {
    Category {
        id: id.to_string(),
        category_group_id: "group".to_string(),
        name: name.to_string(),
        hidden: false,
        original_category_group_id: None,
        note: None,
        budgeted: 0,
        activity: 0,
        balance: 0,
        goal_creation_month: None,
        goal_target: None,
        goal_target_month: None,
        goal_percentage_complete: None,
        deleted: false,
    }
}

fn index(categories: Vec<Category>) -> CategoryIndex {
    CategoryIndex::new(&vec![CategoryGroup {
        id: "group".to_string(),
        name: "g".to_string(),
        hidden: false,
        deleted: false,
        categories,
    }])
}

fn budget(id: &str) -> Budget {
    Budget {
        id: id.to_string(),
        name: "b".to_string(),
        last_modified_on: "2023-01-01T00:00:00Z".to_string(),
        first_month: "2023-01-01".to_string(),
        last_month: "2023-12-01".to_string(),
        date_format: DateFormat { format: "YYYY-MM-DD".to_string() },
        currency_format: CurrencyFormat {
            iso_code: "EUR".to_string(),
            example_format: "1.234,56".to_string(),
            decimal_digits: 2,
            decimal_separator: ",".to_string(),
            symbol_first: false,
            group_separator: ".".to_string(),
            currency_symbol: "€".to_string(),
            display_symbol: true,
        },
    }
}

fn account(id: &str) -> Account {
    Account {
        id: id.to_string(),
        name: "a".to_string(),
        type_: AccountType::Checking,
        on_budget: true,
        closed: false,
        note: None,
        balance: 0,
        cleared_balance: 0,
        uncleared_balance: 0,
        transfer_payee_id: "p".to_string(),
        deleted: false,
    }
}

fn n26_txn(id: &str, category: &str) -> N26Transaction {
    N26Transaction {
        id: id.to_string(),
        amount: 4200,
        category: category.to_string(),
        reference_text: Some("ref text".to_string()),
        merchant_name: None,
        merchant_city: None,
        visible_ts: 1672531200000, // 2023-01-01T00:00:00Z
    }
}

#[test]
fn ids_must_each_name_exactly_one_entry() {
    let budgets = vec![budget("b1"), budget("b2")];
    let accounts = vec![account("a1")];
    assert!(validate_ids(&budgets, &accounts, "b1", "a1").is_ok());
    assert!(matches!(
        validate_ids(&budgets, &accounts, "nope", "a1"),
        Err(ErrorKind::WrongBudgetId(b)) if b == "nope"
    ));
    assert!(matches!(
        validate_ids(&budgets, &accounts, "b2", "nope"),
        Err(ErrorKind::WrongAccountId(a)) if a == "nope"
    ));
    let dup = vec![budget("b1"), budget("b1")];
    assert!(matches!(
        validate_ids(&dup, &accounts, "b1", "a1"),
        Err(ErrorKind::WrongBudgetId(_))
    ));
}

#[test]
fn category_names_resolve_with_last_entry_winning() {
    let idx = index(vec![category("id-1", "Rent"), category("id-2", "Rent")]);
    let rules = vec![Rules::Contains {
        value: "rent".to_string(),
        field: TransactionField::Memo,
        category: "Rent".to_string(),
    }];
    let txn = Transaction {
        account_id: "acct".to_string(),
        date: "2023-01-01".to_string(),
        amount: 1,
        payee_id: None,
        payee_name: None,
        category_id: None,
        memo: Some("rent january".to_string()),
        cleared: TransactionCleared::Cleared,
        approved: false,
        flag_color: None,
        import_id: None,
    };
    let got = apply_rules(&rules, &idx, &txn);
    assert_eq!(got.map(|c| c.id), Some("id-2".to_string()));
}

#[test]
fn apply_rules_without_match_or_category_yields_none() {
    let idx = index(vec![category("id-1", "Rent")]);
    let rules = vec![Rules::Contains {
        value: "rent".to_string(),
        field: TransactionField::Memo,
        category: "Unknown".to_string(),
    }];
    let txn = Transaction {
        account_id: "acct".to_string(),
        date: "2023-01-01".to_string(),
        amount: 1,
        payee_id: None,
        payee_name: None,
        category_id: None,
        memo: Some("rent january".to_string()),
        cleared: TransactionCleared::Cleared,
        approved: false,
        flag_color: None,
        import_id: None,
    };
    // the rule matches, but its target name is not a known category
    assert!(apply_rules(&rules, &idx, &txn).is_none());
    // a missing memo reads as empty text and matches nothing
    let no_memo = Transaction { memo: None, ..txn };
    let matching_rules = vec![Rules::Contains {
        value: "rent".to_string(),
        field: TransactionField::Memo,
        category: "Rent".to_string(),
    }];
    assert!(apply_rules(&matching_rules, &idx, &no_memo).is_none());
}

#[test]
fn bank_transactions_map_through_the_category_chain() {
    let names = CategoryNames::new(vec![N26Category {
        id: "micro-v2-food".to_string(),
        name: "Food & Groceries".to_string(),
    }]);
    let mapping = CategoryMapping::new(vec![(
        "Food & Groceries".to_string(),
        "Groceries".to_string(),
    )]);
    let categories = index(vec![category("ynab-food", "Groceries")]);
    let t = n26_txn("native-id-1", "micro-v2-food");
    let got = convert_n26_transaction("acct-9", &t, &names, &mapping, &categories).unwrap();
    assert_eq!(got.account_id, "acct-9");
    assert_eq!(got.date, "2023-01-01");
    assert_eq!(got.amount, 4200);
    assert_eq!(got.category_id.as_deref(), Some("ynab-food"));
    assert!(got.approved);
    assert_eq!(got.memo.as_deref(), Some("ref text"));
    assert_eq!(got.import_id.as_deref(), Some("native-id-1"));
}

#[test]
fn a_broken_category_chain_leaves_the_transaction_unapproved() {
    let names = CategoryNames::new(vec![]);
    let mapping = CategoryMapping::new(vec![]);
    let categories = index(vec![]);
    let t = n26_txn("native-id-2", "micro-v2-unknown");
    let got = convert_n26_transaction("acct", &t, &names, &mapping, &categories).unwrap();
    assert_eq!(got.category_id, None);
    assert!(!got.approved);
}

#[test]
fn bank_memo_falls_back_to_merchant_and_city() {
    let names = CategoryNames::new(vec![]);
    let mapping = CategoryMapping::new(vec![]);
    let categories = index(vec![]);
    let mut t = n26_txn("id", "c");
    t.reference_text = None;
    t.merchant_name = Some("Cafe".to_string());
    t.merchant_city = Some("Berlin".to_string());
    let got = convert_n26_transaction("a", &t, &names, &mapping, &categories).unwrap();
    assert_eq!(got.memo.as_deref(), Some("Cafe Berlin"));
    t.merchant_city = None;
    let got2 = convert_n26_transaction("a", &t, &names, &mapping, &categories).unwrap();
    assert_eq!(got2.memo.as_deref(), Some("Cafe"));
    t.merchant_name = None;
    let got3 = convert_n26_transaction("a", &t, &names, &mapping, &categories).unwrap();
    assert_eq!(got3.memo, None);
}

#[test]
fn out_of_range_timestamps_are_refused() {
    let names = CategoryNames::new(vec![]);
    let mapping = CategoryMapping::new(vec![]);
    let categories = index(vec![]);
    let mut t = n26_txn("id", "c");
    t.visible_ts = -1;
    assert!(convert_n26_transaction("a", &t, &names, &mapping, &categories).is_none());
}

#[test]
fn enum_tokens_round_trip() {
    assert_eq!(AccountType::Checking.as_str(), "checking");
    assert!(matches!(AccountType::from_str("creditCard"), Ok(AccountType::CreditCard)));
    assert!(matches!(AccountType::from_str("Checking"), Err(ErrorKind::YNABAccountTypeParse)));
    assert_eq!(TransactionCleared::Uncleared.as_str(), "uncleared");
    assert!(matches!(
        TransactionCleared::from_str("reconciled"),
        Ok(TransactionCleared::Reconciled)
    ));
    assert!(matches!(
        TransactionCleared::from_str("Cleared"),
        Err(ErrorKind::YNABTransactionClearedParse)
    ));
    assert_eq!(TransactionFlagColor::Purple.as_str(), "purple");
    assert!(matches!(
        TransactionFlagColor::from_str("red"),
        Ok(TransactionFlagColor::Red)
    ));
    assert!(matches!(
        TransactionFlagColor::from_str("pink"),
        Err(ErrorKind::YNABTransactionFlagColorParse)
    ));
    assert_eq!(CategoryGoalType::TBD.as_str(), "TBD");
    assert!(matches!(CategoryGoalType::from_str("MF"), Ok(CategoryGoalType::MF)));
    assert!(matches!(
        CategoryGoalType::from_str("xx"),
        Err(ErrorKind::YNABCategoryGoalTypeParse)
    ));
}
