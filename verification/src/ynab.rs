use vstd::prelude::*;

use crate::error::ErrorKind;
use crate::text::str_eq;

verus! {

/// Client handle for the budgeting service: just the bearer token.
#[derive(Debug)]
pub struct YNAB {
    pub token: String,
}

pub struct CategoriesRequest {
    pub data: CategoriesWrapper,
}

pub struct CategoriesWrapper {
    pub category_groups: Vec<CategoryGroup>,
    pub server_knowledge: i64,
}

pub struct CategoryGroup {
    pub id: String,
    pub name: String,
    pub hidden: bool,
    pub deleted: bool,
    pub categories: Vec<Category>,
}

pub struct Category {
    pub id: String,
    pub category_group_id: String,
    pub name: String,
    pub hidden: bool,
    pub original_category_group_id: Option<String>,
    pub note: Option<String>,
    pub budgeted: i64,
    pub activity: i64,
    pub balance: i64,
    pub goal_creation_month: Option<String>,
    pub goal_target: Option<i64>,
    pub goal_target_month: Option<String>,
    pub goal_percentage_complete: Option<i64>,
    pub deleted: bool,
}

#[derive(Debug, Clone, Copy, PartialEq, Eq, Structural)]
pub enum CategoryGoalType {
    TB,
    TBD,
    MF,
}

pub struct AccountsRequest {
    pub data: AccountsWrapper,
}

pub struct AccountsWrapper {
    pub accounts: Vec<Account>,
    pub server_knowledge: i64,
}

pub struct Account {
    pub id: String,
    pub name: String,
    pub type_: AccountType,
    pub on_budget: bool,
    pub closed: bool,
    pub note: Option<String>,
    pub balance: i64,
    pub cleared_balance: i64,
    pub uncleared_balance: i64,
    pub transfer_payee_id: String,
    pub deleted: bool,
}

#[derive(Debug, Clone, Copy, PartialEq, Eq, Structural)]
pub enum AccountType {
    Checking,
    Savings,
    Cash,
    CreditCard,
    LineOfCredit,
    OtherAsset,
    OtherLiability,
    PayPal,
    MerchantAccount,
    InvestmentAccount,
    Mortgage,
}

pub struct BudgetsRequest {
    pub data: BudgetsWrapper,
}

pub struct BudgetsWrapper {
    pub budgets: Vec<Budget>,
    pub default_budget: Option<Budget>,
}

pub struct Budget {
    pub id: String,
    pub name: String,
    pub last_modified_on: String,
    pub first_month: String,
    pub last_month: String,
    pub date_format: DateFormat,
    pub currency_format: CurrencyFormat,
}

pub struct DateFormat {
    pub format: String,
}

pub struct CurrencyFormat {
    pub iso_code: String,
    pub example_format: String,
    pub decimal_digits: i64,
    pub decimal_separator: String,
    pub symbol_first: bool,
    pub group_separator: String,
    pub currency_symbol: String,
    pub display_symbol: bool,
}

pub struct TransactionsRequest {
    pub data: TransactionsWrapper,
}

pub struct TransactionsWrapper {
    pub transactions: Vec<Transaction>,
}

/// A transaction as the ledger service stores it: the date is a
/// `YYYY-MM-DD` string and the amount is in fixed-point minor units.
#[derive(Debug)]
pub struct Transaction {
    pub account_id: String,
    pub date: String,
    pub amount: i32,
    pub payee_id: Option<String>,
    pub payee_name: Option<String>,
    pub category_id: Option<String>,
    pub memo: Option<String>,
    pub cleared: TransactionCleared,
    pub approved: bool,
    pub flag_color: Option<TransactionFlagColor>,
    pub import_id: Option<String>,
}

#[derive(Debug, Clone, Copy, PartialEq, Eq, Structural)]
pub enum TransactionCleared {
    Cleared,
    Uncleared,
    Reconciled,
}

#[derive(Debug, Clone, Copy, PartialEq, Eq, Structural)]
pub enum TransactionFlagColor {
    Red,
    Orange,
    Yellow,
    Green,
    Blue,
    Purple,
}

pub fn clone_opt_string(o: &Option<String>) -> (r: Option<String>)
    ensures
        r == *o,
{
    match o {
        Option::Some(s) => Option::Some(s.clone()),
        Option::None => Option::None,
    }
}

impl Clone for Transaction {
    fn clone(&self) -> (r: Self)
        ensures
            r == *self,
    {
        Transaction {
            account_id: self.account_id.clone(),
            date: self.date.clone(),
            amount: self.amount,
            payee_id: clone_opt_string(&self.payee_id),
            payee_name: clone_opt_string(&self.payee_name),
            category_id: clone_opt_string(&self.category_id),
            memo: clone_opt_string(&self.memo),
            cleared: self.cleared,
            approved: self.approved,
            flag_color: self.flag_color,
            import_id: clone_opt_string(&self.import_id),
        }
    }
}

impl Clone for Category {
    fn clone(&self) -> (r: Self)
        ensures
            r == *self,
    {
        Category {
            id: self.id.clone(),
            category_group_id: self.category_group_id.clone(),
            name: self.name.clone(),
            hidden: self.hidden,
            original_category_group_id: clone_opt_string(&self.original_category_group_id),
            note: clone_opt_string(&self.note),
            budgeted: self.budgeted,
            activity: self.activity,
            balance: self.balance,
            goal_creation_month: clone_opt_string(&self.goal_creation_month),
            goal_target: self.goal_target,
            goal_target_month: clone_opt_string(&self.goal_target_month),
            goal_percentage_complete: self.goal_percentage_complete,
            deleted: self.deleted,
        }
    }
}

/// The category most recently indexed under `name`, if any: when the
/// ledger lists a name twice, the last one wins.
pub open spec fn spec_cat_lookup(entries: Seq<Category>, name: Seq<char>) -> Option<Category>
    decreases entries.len(),
{
    if entries.len() == 0 {
        Option::None
    } else if entries.last().name@ == name {
        Option::Some(entries.last())
    } else {
        spec_cat_lookup(entries.drop_last(), name)
    }
}

/// All categories of all groups, flattened in listing order.
pub open spec fn spec_flatten_groups(groups: Seq<CategoryGroup>) -> Seq<Category>
    decreases groups.len(),
{
    if groups.len() == 0 {
        Seq::empty()
    } else {
        spec_flatten_groups(groups.drop_last()) + groups.last().categories@
    }
}

/// The ledger's category index, keyed by category name.
pub struct CategoryIndex {
    entries: Vec<Category>,
}

impl CategoryIndex {
    pub closed spec fn entries_seq(self) -> Seq<Category> {
        self.entries@
    }

    /// Index every category of every group, in listing order.
    pub fn new(groups: &Vec<CategoryGroup>) -> (r: CategoryIndex)
        ensures
            r.entries_seq() == spec_flatten_groups(groups@),
    {
        let mut entries: Vec<Category> = Vec::new();
        let n = groups.len();
        let mut i: usize = 0;
        while i < n
            invariant
                i <= n,
                n == groups@.len(),
                entries@ == spec_flatten_groups(groups@.subrange(0, i as int)),
            decreases n - i,
        {
            proof {
                assert(groups@.subrange(0, i + 1).drop_last() =~= groups@.subrange(0, i as int));
                assert(groups@.subrange(0, i + 1).last() == groups@[i as int]);
            }
            let ghost before = entries@;
            let g = &groups[i];
            let m = g.categories.len();
            let mut j: usize = 0;
            while j < m
                invariant
                    j <= m,
                    m == g.categories@.len(),
                    entries@ == before + g.categories@.subrange(0, j as int),
                decreases m - j,
            {
                proof {
                    assert(g.categories@.subrange(0, j + 1) =~= g.categories@.subrange(
                        0,
                        j as int,
                    ).push(g.categories@[j as int]));
                    assert(before + g.categories@.subrange(0, j + 1) =~= (before
                        + g.categories@.subrange(0, j as int)).push(g.categories@[j as int]));
                }
                entries.push(g.categories[j].clone());
                j = j + 1;
            }
            proof {
                assert(g.categories@.subrange(0, m as int) =~= g.categories@);
            }
            i = i + 1;
        }
        proof {
            assert(groups@.subrange(0, n as int) =~= groups@);
        }
        CategoryIndex { entries }
    }

    /// Look a category name up; the result is pinned to `spec_cat_lookup`.
    pub fn get(&self, name: &str) -> (r: Option<&Category>)
        ensures
            match r {
                Option::Some(c) => spec_cat_lookup(self.entries_seq(), name@) == Option::Some(
                    *c,
                ),
                Option::None => spec_cat_lookup(self.entries_seq(), name@) is None,
            },
    {
        let n = self.entries.len();
        let mut j: usize = n;
        proof {
            assert(self.entries@.subrange(0, n as int) =~= self.entries@);
        }
        while j > 0
            invariant
                j <= n,
                n == self.entries@.len(),
                spec_cat_lookup(self.entries@, name@) == spec_cat_lookup(
                    self.entries@.subrange(0, j as int),
                    name@,
                ),
            decreases j,
        {
            proof {
                assert(self.entries@.subrange(0, j as int).drop_last() =~= self.entries@.subrange(
                    0,
                    j - 1,
                ));
                assert(self.entries@.subrange(0, j as int).last() == self.entries@[j - 1]);
            }
            let e = &self.entries[j - 1];
            if str_eq(e.name.as_str(), name) {
                return Option::Some(e);
            }
            j = j - 1;
        }
        proof {
            assert(self.entries@.subrange(0, 0) =~= Seq::<Category>::empty());
        }
        Option::None
    }
}

/// How many of the listed budgets carry the given id.
pub open spec fn spec_count_budgets(budgets: Seq<Budget>, id: Seq<char>) -> int
    decreases budgets.len(),
{
    if budgets.len() == 0 {
        0
    } else {
        spec_count_budgets(budgets.drop_last(), id) + if budgets.last().id@ == id {
            1int
        } else {
            0int
        }
    }
}

/// How many of the listed accounts carry the given id.
pub open spec fn spec_count_accounts(accounts: Seq<Account>, id: Seq<char>) -> int
    decreases accounts.len(),
{
    if accounts.len() == 0 {
        0
    } else {
        spec_count_accounts(accounts.drop_last(), id) + if accounts.last().id@ == id {
            1int
        } else {
            0int
        }
    }
}

pub fn count_budgets(budgets: &Vec<Budget>, id: &str) -> (n: usize)
    ensures
        n == spec_count_budgets(budgets@, id@),
{
    let len = budgets.len();
    let mut n: usize = 0;
    let mut i: usize = 0;
    proof {
        assert(budgets@.subrange(0, 0) =~= Seq::<Budget>::empty());
    }
    while i < len
        invariant
            i <= len,
            len == budgets@.len(),
            n == spec_count_budgets(budgets@.subrange(0, i as int), id@),
            n <= i,
        decreases len - i,
    {
        proof {
            assert(budgets@.subrange(0, i + 1).drop_last() =~= budgets@.subrange(0, i as int));
            assert(budgets@.subrange(0, i + 1).last() == budgets@[i as int]);
        }
        if str_eq(budgets[i].id.as_str(), id) {
            n = n + 1;
        }
        i = i + 1;
    }
    proof {
        assert(budgets@.subrange(0, len as int) =~= budgets@);
    }
    n
}

pub fn count_accounts(accounts: &Vec<Account>, id: &str) -> (n: usize)
    ensures
        n == spec_count_accounts(accounts@, id@),
{
    let len = accounts.len();
    let mut n: usize = 0;
    let mut i: usize = 0;
    proof {
        assert(accounts@.subrange(0, 0) =~= Seq::<Account>::empty());
    }
    while i < len
        invariant
            i <= len,
            len == accounts@.len(),
            n == spec_count_accounts(accounts@.subrange(0, i as int), id@),
            n <= i,
        decreases len - i,
    {
        proof {
            assert(accounts@.subrange(0, i + 1).drop_last() =~= accounts@.subrange(0, i as int));
            assert(accounts@.subrange(0, i + 1).last() == accounts@[i as int]);
        }
        if str_eq(accounts[i].id.as_str(), id) {
            n = n + 1;
        }
        i = i + 1;
    }
    proof {
        assert(accounts@.subrange(0, len as int) =~= accounts@);
    }
    n
}

/// Check that the configured budget id names exactly one listed budget and
/// the account id exactly one listed account: anything else is rejected
/// with the offending id.
pub fn validate_ids(
    budgets: &Vec<Budget>,
    accounts: &Vec<Account>,
    budget_id: &str,
    account_id: &str,
) -> (r: Result<(), ErrorKind>)
    ensures
        match r {
            Ok(_) => spec_count_budgets(budgets@, budget_id@) == 1 && spec_count_accounts(
                accounts@,
                account_id@,
            ) == 1,
            Err(e) => {
                ||| (e matches ErrorKind::WrongBudgetId(b) && b@ == budget_id@
                    && spec_count_budgets(budgets@, budget_id@) != 1)
                ||| (e matches ErrorKind::WrongAccountId(a) && a@ == account_id@
                    && spec_count_budgets(budgets@, budget_id@) == 1 && spec_count_accounts(
                    accounts@,
                    account_id@,
                ) != 1)
            },
        },
{
    if count_budgets(budgets, budget_id) != 1 {
        return Err(ErrorKind::WrongBudgetId(budget_id.to_owned()));
    }
    if count_accounts(accounts, account_id) != 1 {
        return Err(ErrorKind::WrongAccountId(account_id.to_owned()));
    }
    Ok(())
}

impl CategoryGoalType {
    pub open spec fn spec_text(self) -> Seq<char> {
        match self {
            CategoryGoalType::TB => "TB"@,
            CategoryGoalType::TBD => "TBD"@,
            CategoryGoalType::MF => "MF"@,
        }
    }

    pub fn as_str(&self) -> (r: &'static str)
        ensures
            r@ == self.spec_text(),
    {
        match self {
            CategoryGoalType::TB => "TB",
            CategoryGoalType::TBD => "TBD",
            CategoryGoalType::MF => "MF",
        }
    }

    pub fn from_str(s: &str) -> (r: Result<Self, ErrorKind>)
        ensures
            match r {
                Ok(v) => s@ == v.spec_text(),
                Err(e) => e == ErrorKind::YNABCategoryGoalTypeParse && (forall|v:
                    CategoryGoalType| s@ != v.spec_text()),
            },
    {
        if str_eq(s, "TB") {
            Ok(CategoryGoalType::TB)
        } else if str_eq(s, "TBD") {
            Ok(CategoryGoalType::TBD)
        } else if str_eq(s, "MF") {
            Ok(CategoryGoalType::MF)
        } else {
            proof {
                assert forall|v: CategoryGoalType| s@ != v.spec_text() by {
                }
            }
            Err(ErrorKind::YNABCategoryGoalTypeParse)
        }
    }
}

impl AccountType {
    pub open spec fn spec_text(self) -> Seq<char> {
        match self {
            AccountType::Checking => "checking"@,
            AccountType::Savings => "savings"@,
            AccountType::Cash => "cash"@,
            AccountType::CreditCard => "creditCard"@,
            AccountType::LineOfCredit => "lineOfCredit"@,
            AccountType::OtherAsset => "otherAsset"@,
            AccountType::OtherLiability => "otherLiability"@,
            AccountType::PayPal => "payPal"@,
            AccountType::MerchantAccount => "merchantAccount"@,
            AccountType::InvestmentAccount => "investmentAccount"@,
            AccountType::Mortgage => "mortgage"@,
        }
    }

    pub fn as_str(&self) -> (r: &'static str)
        ensures
            r@ == self.spec_text(),
    {
        match self {
            AccountType::Checking => "checking",
            AccountType::Savings => "savings",
            AccountType::Cash => "cash",
            AccountType::CreditCard => "creditCard",
            AccountType::LineOfCredit => "lineOfCredit",
            AccountType::OtherAsset => "otherAsset",
            AccountType::OtherLiability => "otherLiability",
            AccountType::PayPal => "payPal",
            AccountType::MerchantAccount => "merchantAccount",
            AccountType::InvestmentAccount => "investmentAccount",
            AccountType::Mortgage => "mortgage",
        }
    }

    pub fn from_str(s: &str) -> (r: Result<Self, ErrorKind>)
        ensures
            match r {
                Ok(v) => s@ == v.spec_text(),
                Err(e) => e == ErrorKind::YNABAccountTypeParse && (forall|v: AccountType| s@
                    != v.spec_text()),
            },
    {
        if str_eq(s, "checking") {
            Ok(AccountType::Checking)
        } else if str_eq(s, "savings") {
            Ok(AccountType::Savings)
        } else if str_eq(s, "cash") {
            Ok(AccountType::Cash)
        } else if str_eq(s, "creditCard") {
            Ok(AccountType::CreditCard)
        } else if str_eq(s, "lineOfCredit") {
            Ok(AccountType::LineOfCredit)
        } else if str_eq(s, "otherAsset") {
            Ok(AccountType::OtherAsset)
        } else if str_eq(s, "otherLiability") {
            Ok(AccountType::OtherLiability)
        } else if str_eq(s, "payPal") {
            Ok(AccountType::PayPal)
        } else if str_eq(s, "merchantAccount") {
            Ok(AccountType::MerchantAccount)
        } else if str_eq(s, "investmentAccount") {
            Ok(AccountType::InvestmentAccount)
        } else if str_eq(s, "mortgage") {
            Ok(AccountType::Mortgage)
        } else {
            Err(ErrorKind::YNABAccountTypeParse)
        }
    }
}

impl TransactionCleared {
    pub open spec fn spec_text(self) -> Seq<char> {
        match self {
            TransactionCleared::Cleared => "cleared"@,
            TransactionCleared::Uncleared => "uncleared"@,
            TransactionCleared::Reconciled => "reconciled"@,
        }
    }

    pub fn as_str(&self) -> (r: &'static str)
        ensures
            r@ == self.spec_text(),
    {
        match self {
            TransactionCleared::Cleared => "cleared",
            TransactionCleared::Uncleared => "uncleared",
            TransactionCleared::Reconciled => "reconciled",
        }
    }

    pub fn from_str(s: &str) -> (r: Result<Self, ErrorKind>)
        ensures
            match r {
                Ok(v) => s@ == v.spec_text(),
                Err(e) => e == ErrorKind::YNABTransactionClearedParse && (forall|v:
                    TransactionCleared| s@ != v.spec_text()),
            },
    {
        if str_eq(s, "cleared") {
            Ok(TransactionCleared::Cleared)
        } else if str_eq(s, "uncleared") {
            Ok(TransactionCleared::Uncleared)
        } else if str_eq(s, "reconciled") {
            Ok(TransactionCleared::Reconciled)
        } else {
            Err(ErrorKind::YNABTransactionClearedParse)
        }
    }
}

impl TransactionFlagColor {
    pub open spec fn spec_text(self) -> Seq<char> {
        match self {
            TransactionFlagColor::Red => "red"@,
            TransactionFlagColor::Orange => "orange"@,
            TransactionFlagColor::Yellow => "yellow"@,
            TransactionFlagColor::Green => "green"@,
            TransactionFlagColor::Blue => "blue"@,
            TransactionFlagColor::Purple => "purple"@,
        }
    }

    pub fn as_str(&self) -> (r: &'static str)
        ensures
            r@ == self.spec_text(),
    {
        match self {
            TransactionFlagColor::Red => "red",
            TransactionFlagColor::Orange => "orange",
            TransactionFlagColor::Yellow => "yellow",
            TransactionFlagColor::Green => "green",
            TransactionFlagColor::Blue => "blue",
            TransactionFlagColor::Purple => "purple",
        }
    }

    pub fn from_str(s: &str) -> (r: Result<Self, ErrorKind>)
        ensures
            match r {
                Ok(v) => s@ == v.spec_text(),
                Err(e) => e == ErrorKind::YNABTransactionFlagColorParse && (forall|v:
                    TransactionFlagColor| s@ != v.spec_text()),
            },
    {
        if str_eq(s, "red") {
            Ok(TransactionFlagColor::Red)
        } else if str_eq(s, "orange") {
            Ok(TransactionFlagColor::Orange)
        } else if str_eq(s, "yellow") {
            Ok(TransactionFlagColor::Yellow)
        } else if str_eq(s, "green") {
            Ok(TransactionFlagColor::Green)
        } else if str_eq(s, "blue") {
            Ok(TransactionFlagColor::Blue)
        } else if str_eq(s, "purple") {
            Ok(TransactionFlagColor::Purple)
        } else {
            Err(ErrorKind::YNABTransactionFlagColorParse)
        }
    }
}

} // verus!
