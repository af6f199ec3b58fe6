use ynab_sync::convert::convert_transaction;
use ynab_sync::dates::Date;
use ynab_sync::ingdiba::{parse_row, parse_transactions, sort_transactions_desc, IngDiBa};
use ynab_sync::reconcile::{reconcile, LedgerIndex};
use ynab_sync::rules::{Rules, TransactionField};
use ynab_sync::ynab::{Category, CategoryGroup, CategoryIndex};
use ynab_sync::ErrorKind;

fn category(id: &str, name: &str) -> Category {
    Category {
        id: id.to_string(),
        category_group_id: "group".to_string(),
        name: name.to_string(),
        hidden: false,
        original_category_group_id: None,
        note: None,
        budgeted: 0,
        activity: 0,
        balance: 0,
        goal_creation_month: None,
        goal_target: None,
        goal_target_month: None,
        goal_percentage_complete: None,
        deleted: false,
    }
}

fn rent_index() -> CategoryIndex {
    let groups = vec![CategoryGroup {
        id: "group".to_string(),
        name: "Everything".to_string(),
        hidden: false,
        deleted: false,
        categories: vec![category("rent-id", "Rent"), category("food-id", "Food")],
    }];
    CategoryIndex::new(&groups)
}

const EXPORT: &str = "Umsatzanzeige;Girokonto\n\nBuchung;Valuta;Auftraggeber/Empfänger;Buchungstext;Verwendungszweck;Saldo;Währung;Betrag;Währung\n01.01.2023;01.01.2023;Someone;Gutschrift;random stuff;1.500,00;EUR;100,00;EUR\n02.01.2023;02.01.2023;ACME GmbH;Lastschrift;Miete Januar;1.000,00;EUR;-500,00;EUR\n";

#[test]
fn export_parses_and_sorts_newest_first() {
    let today = Date { year: 2023, month: 1, day: 10 };
    let ing = IngDiBa::from_text(EXPORT, &today).unwrap();
    assert_eq!(ing.transactions.len(), 2);
    assert_eq!(ing.transactions[0].ts, Date { year: 2023, month: 1, day: 2 });
    assert_eq!(ing.transactions[0].amount, -500000);
    assert_eq!(ing.transactions[0].entity, "ACME GmbH");
    assert_eq!(ing.transactions[0].memo, "Miete Januar");
    assert_eq!(ing.transactions[1].ts, Date { year: 2023, month: 1, day: 1 });
    assert_eq!(ing.transactions[1].balance, 1500000);
    // the window reaches back to the oldest row
    assert_eq!(ing.days_to_sync, 9);
}

#[test]
fn rows_convert_classify_and_reconcile_end_to_end() {
    let today = Date { year: 2023, month: 1, day: 10 };
    let ing = IngDiBa::from_text(EXPORT, &today).unwrap();
    let rules = vec![Rules::Contains {
        value: "miete".to_string(),
        field: TransactionField::Memo,
        category: "Rent".to_string(),
    }];
    let categories = rent_index();
    let proposed: Vec<_> = ing
        .transactions
        .iter()
        .map(|t| convert_transaction("acct-1", t, &rules, &categories))
        .collect();

    // the rent row is categorised and approved
    assert_eq!(proposed[0].category_id.as_deref(), Some("rent-id"));
    assert!(proposed[0].approved);
    assert_eq!(proposed[0].memo.as_deref(), Some("ACME GmbH :: Miete Januar"));
    assert_eq!(proposed[0].date, "2023-01-02");
    assert_eq!(
        proposed[0].import_id.as_deref(),
        Some("d4e8723f01967d107b34e7828e185587945a")
    );

    // the unmatched row is uncategorised and unapproved
    assert_eq!(proposed[1].category_id, None);
    assert!(!proposed[1].approved);
    assert_eq!(
        proposed[1].import_id.as_deref(),
        Some("ce8ce65e172dac669a4b815bb5223f01ace7")
    );

    // both keys are distinct, deterministic 36-character strings
    assert_ne!(proposed[0].import_id, proposed[1].import_id);
    assert_eq!(proposed[0].import_id.as_ref().unwrap().len(), 36);

    // against an empty ledger both are creates
    let (new, update) = reconcile(&proposed, &LedgerIndex::new(vec![]), false);
    assert_eq!(new.len(), 2);
    assert!(update.is_empty());
}

#[test]
fn missing_header_is_a_parse_error() {
    let today = Date { year: 2023, month: 1, day: 10 };
    let r = IngDiBa::from_text("just;some;text\nwithout;a;header\n", &today);
    assert!(matches!(r, Err(ErrorKind::IngDiBaCsvFileParse(_))));
    assert!(IngDiBa::from_text("", &today).is_err());
}

#[test]
fn malformed_rows_are_parse_errors() {
    let today = Date { year: 2023, month: 1, day: 10 };
    let missing_fields = "Buchung;Valuta\n01.01.2023;01.01.2023;x\n";
    assert!(IngDiBa::from_text(missing_fields, &today).is_err());
    let bad_amount = "Buchung;x\n01.01.2023;01.01.2023;e;t;m;1.500,00;EUR;12,,34;EUR\n";
    assert!(IngDiBa::from_text(bad_amount, &today).is_err());
    let bad_date = "Buchung;x\n31.02.2023;01.01.2023;e;t;m;1,00;EUR;1,00;EUR\n";
    assert!(IngDiBa::from_text(bad_date, &today).is_err());
}

#[test]
fn empty_export_after_header_has_no_rows() {
    let today = Date { year: 2023, month: 1, day: 10 };
    let ing = IngDiBa::from_text("Buchung;Valuta;etc\n\n\n", &today).unwrap();
    assert!(ing.transactions.is_empty());
    assert_eq!(ing.days_to_sync, 0);
}

#[test]
fn single_rows_parse_field_by_field() {
    let t = parse_row("03.04.2021;04.04.2021;Entity;Type;Memo text;12,34;EUR;-0,50;EUR").unwrap();
    assert_eq!(t.ts, Date { year: 2021, month: 4, day: 3 });
    assert_eq!(t.currency_ts, Date { year: 2021, month: 4, day: 4 });
    assert_eq!(t.entity, "Entity");
    assert_eq!(t.type_, "Type");
    assert_eq!(t.memo, "Memo text");
    assert_eq!(t.balance, 12340);
    assert_eq!(t.balance_currency, "EUR");
    assert_eq!(t.amount, -500);
    assert_eq!(t.amount_currency, "EUR");
    assert!(parse_row("a;b;c").is_err());
}

#[test]
fn carriage_returns_are_stripped() {
    let today = Date { year: 2023, month: 1, day: 10 };
    let text = "Buchung;x\r\n01.01.2023;01.01.2023;e;t;m;1,00;EUR;2,00;EUR\r\n";
    let ing = IngDiBa::from_text(text, &today).unwrap();
    assert_eq!(ing.transactions.len(), 1);
    assert_eq!(ing.transactions[0].amount_currency, "EUR");
}

#[test]
fn windows_1252_bytes_decode_before_parsing() {
    let today = Date { year: 2023, month: 1, day: 10 };
    // "Käufer" with 0xE4 for ä in Windows-1252
    let mut bytes = Vec::new();
    bytes.extend_from_slice(b"Buchung;x\n01.01.2023;01.01.2023;K");
    bytes.push(0xE4);
    bytes.extend_from_slice(b"ufer;t;m;1,00;EUR;2,00;EUR\n");
    let ing = IngDiBa::from_windows1252(&bytes, &today).unwrap();
    assert_eq!(ing.transactions[0].entity, "Käufer");
}

#[test]
fn sorting_is_a_permutation_newest_first() {
    let rows = vec![
        parse_row("01.01.2023;01.01.2023;a;t;m;1,00;EUR;1,00;EUR").unwrap(),
        parse_row("05.01.2023;05.01.2023;b;t;m;1,00;EUR;2,00;EUR").unwrap(),
        parse_row("03.01.2023;03.01.2023;c;t;m;1,00;EUR;3,00;EUR").unwrap(),
    ];
    let sorted = sort_transactions_desc(&rows);
    let days: Vec<i32> = sorted.iter().map(|t| t.ts.day).collect();
    assert_eq!(days, vec![5, 3, 1]);
    let amounts: Vec<i32> = {
        let mut a: Vec<i32> = sorted.iter().map(|t| t.amount).collect();
        a.sort();
        a
    };
    assert_eq!(amounts, vec![1000, 2000, 3000]);
}

#[test]
fn parse_transactions_keeps_file_order() {
    let ts = parse_transactions(EXPORT).unwrap();
    assert_eq!(ts.len(), 2);
    assert_eq!(ts[0].ts, Date { year: 2023, month: 1, day: 1 });
    assert_eq!(ts[1].ts, Date { year: 2023, month: 1, day: 2 });
}
