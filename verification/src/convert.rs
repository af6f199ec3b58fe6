use vstd::prelude::*;

use crate::dates::{
    date_days_ago, spec_day_number, spec_format_date, format_date, unix_epoch_day, valid_date,
    Date,
};
use crate::identity::{derive_import_id, spec_import_key};
use crate::ingdiba;
use crate::n26;
use crate::rules::{classify, spec_classify, Rules};
use crate::text::str_eq;
use crate::ynab::{spec_cat_lookup, Category, CategoryIndex, Transaction, TransactionCleared};

verus! {

/// The display memo composed from the counterpart entity and the raw memo.
pub open spec fn spec_composed_memo(entity: Seq<char>, memo: Seq<char>) -> Seq<char> {
    entity + " :: "@ + memo
}

/// The category id the rule engine decides for the given memo and entity
/// texts, if a rule matches and its target name is a known category.
pub open spec fn spec_decided_category(
    rules: Seq<Rules>,
    categories: Seq<Category>,
    memo: Seq<char>,
    entity: Seq<char>,
) -> Option<Seq<char>> {
    match spec_classify(rules, memo, Seq::empty(), entity) {
        Option::None => Option::None,
        Option::Some(name) => match spec_cat_lookup(categories, name) {
            Option::None => Option::None,
            Option::Some(c) => Option::Some(c.id@),
        },
    }
}

/// Convert one bank-export row into a proposed ledger transaction: the
/// date is formatted `YYYY-MM-DD`, the memo is composed as
/// `entity :: memo`, the category comes from the rule engine (an
/// unmatched transaction stays uncategorised and unapproved), and the
/// import key is derived from date, amount and composed memo.
pub fn convert_transaction(
    account_id: &str,
    transaction: &ingdiba::Transaction,
    rules: &Vec<Rules>,
    categories: &CategoryIndex,
) -> (r: Transaction)
    requires
        valid_date(transaction.ts),
    ensures
        r.account_id@ == account_id@,
        r.date@ == spec_format_date(transaction.ts),
        r.amount == transaction.amount,
        r.payee_id is None,
        r.payee_name is None,
        (match spec_decided_category(
            rules@,
            categories.entries_seq(),
            transaction.memo@,
            transaction.entity@,
        ) {
            Option::None => r.category_id is None && !r.approved,
            Option::Some(id) => (r.category_id matches Option::Some(c) && c@ == id)
                && r.approved,
        }),
        r.memo matches Option::Some(m) && m@ == spec_composed_memo(
            transaction.entity@,
            transaction.memo@,
        ),
        r.cleared == TransactionCleared::Cleared,
        r.flag_color is None,
        r.import_id matches Option::Some(k) && k@ == spec_import_key(
            spec_format_date(transaction.ts),
            transaction.amount as int,
            spec_composed_memo(transaction.entity@, transaction.memo@),
        ) && k@.len() == 36,
{
    let empty = "";
    proof {
        reveal_strlit("");
        assert(empty@ =~= Seq::<char>::empty());
    }
    let category_id: Option<String> = match classify(
        rules,
        transaction.memo.as_str(),
        empty,
        transaction.entity.as_str(),
    ) {
        Option::Some(name) => match categories.get(name.as_str()) {
            Option::Some(c) => Option::Some(c.id.clone()),
            Option::None => Option::None,
        },
        Option::None => Option::None,
    };
    let approved = category_id.is_some();
    let memo = transaction.entity.clone().concat(" :: ").concat(transaction.memo.as_str());
    proof {
        assert(memo@ =~= spec_composed_memo(transaction.entity@, transaction.memo@));
    }
    let date = format_date(&transaction.ts);
    let import_id = derive_import_id(date.as_str(), transaction.amount, memo.as_str());
    Transaction {
        account_id: account_id.to_owned(),
        date,
        amount: transaction.amount,
        payee_id: Option::None,
        payee_name: Option::None,
        category_id,
        memo: Option::Some(memo),
        cleared: TransactionCleared::Cleared,
        approved,
        flag_color: Option::None,
        import_id: Option::Some(import_id),
    }
}

/// The flat mapping from bank category names to ledger category names;
/// when a name is listed twice, the last entry wins.
pub struct CategoryMapping {
    entries: Vec<(String, String)>,
}

/// The mapped name most recently listed under `key`, if any.
pub open spec fn spec_mapping_lookup(entries: Seq<(String, String)>, key: Seq<char>) -> Option<
    Seq<char>,
>
    decreases entries.len(),
{
    if entries.len() == 0 {
        Option::None
    } else if entries.last().0@ == key {
        Option::Some(entries.last().1@)
    } else {
        spec_mapping_lookup(entries.drop_last(), key)
    }
}

impl CategoryMapping {
    pub closed spec fn entries_seq(self) -> Seq<(String, String)> {
        self.entries@
    }

    pub fn new(entries: Vec<(String, String)>) -> (r: CategoryMapping)
        ensures
            r.entries_seq() == entries@,
    {
        CategoryMapping { entries }
    }

    /// Look a bank category name up; the result is pinned to
    /// `spec_mapping_lookup`.
    pub fn get(&self, key: &str) -> (r: Option<&String>)
        ensures
            match r {
                Option::Some(v) => spec_mapping_lookup(self.entries_seq(), key@)
                    == Option::Some(v@),
                Option::None => spec_mapping_lookup(self.entries_seq(), key@) is None,
            },
    {
        let n = self.entries.len();
        let mut j: usize = n;
        proof {
            assert(self.entries@.subrange(0, n as int) =~= self.entries@);
        }
        while j > 0
            invariant
                j <= n,
                n == self.entries@.len(),
                spec_mapping_lookup(self.entries@, key@) == spec_mapping_lookup(
                    self.entries@.subrange(0, j as int),
                    key@,
                ),
            decreases j,
        {
            proof {
                assert(self.entries@.subrange(0, j as int).drop_last()
                    =~= self.entries@.subrange(0, j - 1));
                assert(self.entries@.subrange(0, j as int).last() == self.entries@[j - 1]);
            }
            let e = &self.entries[j - 1];
            if str_eq(e.0.as_str(), key) {
                return Option::Some(&e.1);
            }
            j = j - 1;
        }
        proof {
            assert(self.entries@.subrange(0, 0) =~= Seq::<(String, String)>::empty());
        }
        Option::None
    }
}

/// The memo a bank transaction yields: the reference text when there is
/// one, else the merchant name with its city when known, else nothing.
pub open spec fn spec_n26_memo(t: n26::Transaction) -> Option<Seq<char>> {
    match t.reference_text {
        Option::Some(r) => Option::Some(r@),
        Option::None => match t.merchant_name {
            Option::Some(name) => match t.merchant_city {
                Option::Some(city) => Option::Some(name@ + " "@ + city@),
                Option::None => Option::Some(name@),
            },
            Option::None => Option::None,
        },
    }
}

/// The category id a bank transaction maps to: its bank category id is
/// resolved to a bank category name, that name through the configured
/// mapping to a ledger category name, and that name in the ledger's
/// category index to an id.
pub open spec fn spec_n26_category(
    t: n26::Transaction,
    names: Seq<n26::Category>,
    mapping: Seq<(String, String)>,
    categories: Seq<Category>,
) -> Option<Seq<char>> {
    match n26::spec_name_lookup(names, t.category@) {
        Option::None => Option::None,
        Option::Some(name) => match spec_mapping_lookup(mapping, name) {
            Option::None => Option::None,
            Option::Some(mapped) => match spec_cat_lookup(categories, mapped) {
                Option::None => Option::None,
                Option::Some(c) => Option::Some(c.id@),
            },
        },
    }
}

/// Convert one bank transaction into a proposed ledger transaction: the
/// date comes from the visible timestamp, the bank's native identifier is
/// the import key, and a transaction whose category cannot be resolved is
/// left uncategorised and unapproved. `None` only when the timestamp lies
/// outside the supported calendar.
pub fn convert_n26_transaction(
    account_id: &str,
    transaction: &n26::Transaction,
    names: &n26::CategoryNames,
    mapping: &CategoryMapping,
    categories: &CategoryIndex,
) -> (r: Option<Transaction>)
    ensures
        match r {
            Option::Some(t) => {
                &&& t.account_id@ == account_id@
                &&& (exists|d: Date|
                    {
                        &&& valid_date(d)
                        &&& spec_day_number(d) == unix_epoch_day() + transaction.visible_ts
                            as int / 86400000
                        &&& #[trigger] t.date@ == spec_format_date(d)
                    })
                &&& t.amount == transaction.amount
                &&& t.payee_id is None
                &&& t.payee_name is None
                &&& (match spec_n26_category(
                    *transaction,
                    names.entries_seq(),
                    mapping.entries_seq(),
                    categories.entries_seq(),
                ) {
                    Option::None => t.category_id is None && !t.approved,
                    Option::Some(id) => (t.category_id matches Option::Some(c) && c@ == id)
                        && t.approved,
                })
                &&& crate::reconcile::opt_str_view(t.memo) == spec_n26_memo(*transaction)
                &&& t.cleared == TransactionCleared::Cleared
                &&& t.flag_color is None
                &&& (t.import_id matches Option::Some(k) && k@ == transaction.id@)
            },
            Option::None => !(0 <= transaction.visible_ts && 0 <= unix_epoch_day()
                + transaction.visible_ts as int / 86400000 <= 3649270),
        },
{
    let date = match date_days_ago(transaction.visible_ts, 0) {
        Option::Some(d) => d,
        Option::None => {
            return Option::None;
        },
    };
    let category_id: Option<String> = match names.get(transaction.category.as_str()) {
        Option::Some(name) => match mapping.get(name.as_str()) {
            Option::Some(mapped) => match categories.get(mapped.as_str()) {
                Option::Some(c) => Option::Some(c.id.clone()),
                Option::None => Option::None,
            },
            Option::None => Option::None,
        },
        Option::None => Option::None,
    };
    let approved = category_id.is_some();
    let memo: Option<String> = match &transaction.reference_text {
        Option::Some(r) => Option::Some(r.clone()),
        Option::None => match &transaction.merchant_name {
            Option::Some(name) => match &transaction.merchant_city {
                Option::Some(city) => {
                    let m = name.clone().concat(" ").concat(city.as_str());
                    proof {
                        assert(m@ =~= transaction.merchant_name->0@ + " "@
                            + transaction.merchant_city->0@);
                    }
                    Option::Some(m)
                },
                Option::None => Option::Some(name.clone()),
            },
            Option::None => Option::None,
        },
    };
    let date_text = format_date(&date);
    Option::Some(
        Transaction {
            account_id: account_id.to_owned(),
            date: date_text,
            amount: transaction.amount,
            payee_id: Option::None,
            payee_name: Option::None,
            category_id,
            memo,
            cleared: TransactionCleared::Cleared,
            approved,
            flag_color: Option::None,
            import_id: Option::Some(transaction.id.clone()),
        },
    )
}

} // verus!
