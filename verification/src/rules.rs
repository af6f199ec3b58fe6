use vstd::prelude::*;

use crate::error::ErrorKind;
use crate::text::{
    contains_ci, ends_with_ci, lower_of, spec_contains, spec_ends_with, spec_starts_with,
    starts_with_ci, str_eq,
};
use crate::ynab::{Category, CategoryIndex, Transaction};

verus! {

/// Which text field of a transaction a rule inspects.
#[derive(Debug, Clone, Copy, PartialEq, Eq, Structural)]
pub enum TransactionField {
    Memo,
    Payee,
    Entity,
}

impl TransactionField {
    pub open spec fn spec_text(self) -> Seq<char> {
        match self {
            TransactionField::Memo => "memo"@,
            TransactionField::Payee => "payee"@,
            TransactionField::Entity => "entity"@,
        }
    }

    pub fn as_str(&self) -> (r: &'static str)
        ensures
            r@ == self.spec_text(),
    {
        match self {
            TransactionField::Memo => "memo",
            TransactionField::Payee => "payee",
            TransactionField::Entity => "entity",
        }
    }

    /// Only the exact lowercase tokens are accepted; anything else is a
    /// hard parse failure.
    pub fn from_str(s: &str) -> (r: Result<Self, ErrorKind>)
        ensures
            match r {
                Ok(v) => s@ == v.spec_text(),
                Err(e) => e == ErrorKind::YNABAccountTypeParse && (forall|v: TransactionField|
                    s@ != v.spec_text()),
            },
    {
        if str_eq(s, "memo") {
            Ok(TransactionField::Memo)
        } else if str_eq(s, "payee") {
            Ok(TransactionField::Payee)
        } else if str_eq(s, "entity") {
            Ok(TransactionField::Entity)
        } else {
            Err(ErrorKind::YNABAccountTypeParse)
        }
    }
}

/// One category rule: a match kind with its match value, the field it
/// inspects, and the target category name.
#[derive(Debug)]
pub enum Rules {
    Contains { value: String, field: TransactionField, category: String },
    StartsWith { value: String, field: TransactionField, category: String },
    EndsWith { value: String, field: TransactionField, category: String },
}

/// The text the rule's field selector picks from a transaction.
pub open spec fn spec_field_text(
    f: TransactionField,
    memo: Seq<char>,
    payee: Seq<char>,
    entity: Seq<char>,
) -> Seq<char> {
    match f {
        TransactionField::Memo => memo,
        TransactionField::Payee => payee,
        TransactionField::Entity => entity,
    }
}

/// Whether the rule matches: both the field text and the match value are
/// lowercased, then compared by the rule's kind.
pub open spec fn spec_rule_matches(
    r: Rules,
    memo: Seq<char>,
    payee: Seq<char>,
    entity: Seq<char>,
) -> bool {
    match r {
        Rules::Contains { value, field, category } => spec_contains(
            lower_of(spec_field_text(field, memo, payee, entity)),
            lower_of(value@),
        ),
        Rules::StartsWith { value, field, category } => spec_starts_with(
            lower_of(spec_field_text(field, memo, payee, entity)),
            lower_of(value@),
        ),
        Rules::EndsWith { value, field, category } => spec_ends_with(
            lower_of(spec_field_text(field, memo, payee, entity)),
            lower_of(value@),
        ),
    }
}

pub open spec fn spec_rule_category(r: Rules) -> Seq<char> {
    match r {
        Rules::Contains { value, field, category } => category@,
        Rules::StartsWith { value, field, category } => category@,
        Rules::EndsWith { value, field, category } => category@,
    }
}

/// The category name of the first matching rule, in list order: an earlier
/// match always wins, regardless of any later rule.
pub open spec fn spec_classify(
    rules: Seq<Rules>,
    memo: Seq<char>,
    payee: Seq<char>,
    entity: Seq<char>,
) -> Option<Seq<char>>
    decreases rules.len(),
{
    if rules.len() == 0 {
        Option::None
    } else if spec_rule_matches(rules[0], memo, payee, entity) {
        Option::Some(spec_rule_category(rules[0]))
    } else {
        spec_classify(rules.drop_first(), memo, payee, entity)
    }
}

/// Whether one rule matches the given field texts.
pub fn rule_matches(r: &Rules, memo: &str, payee: &str, entity: &str) -> (b: bool)
    ensures
        b == spec_rule_matches(*r, memo@, payee@, entity@),
{
    match r {
        Rules::Contains { value, field, category } => {
            let text = field_text(field, memo, payee, entity);
            contains_ci(text, value.as_str())
        },
        Rules::StartsWith { value, field, category } => {
            let text = field_text(field, memo, payee, entity);
            starts_with_ci(text, value.as_str())
        },
        Rules::EndsWith { value, field, category } => {
            let text = field_text(field, memo, payee, entity);
            ends_with_ci(text, value.as_str())
        },
    }
}

fn field_text<'a>(
    f: &TransactionField,
    memo: &'a str,
    payee: &'a str,
    entity: &'a str,
) -> (r: &'a str)
    ensures
        r@ == spec_field_text(*f, memo@, payee@, entity@),
{
    match f {
        TransactionField::Memo => memo,
        TransactionField::Payee => payee,
        TransactionField::Entity => entity,
    }
}

/// The target category name decided by the first matching rule, if any.
pub fn classify(rules: &Vec<Rules>, memo: &str, payee: &str, entity: &str) -> (r: Option<
    String,
>)
    ensures
        match r {
            Option::Some(c) => spec_classify(rules@, memo@, payee@, entity@) == Option::Some(
                c@,
            ),
            Option::None => spec_classify(rules@, memo@, payee@, entity@) is None,
        },
{
    let n = rules.len();
    let mut i: usize = 0;
    proof {
        assert(rules@.subrange(0, n as int) =~= rules@);
    }
    while i < n
        invariant
            i <= n,
            n == rules@.len(),
            spec_classify(rules@, memo@, payee@, entity@) == spec_classify(
                rules@.subrange(i as int, n as int),
                memo@,
                payee@,
                entity@,
            ),
        decreases n - i,
    {
        proof {
            assert(rules@.subrange(i as int, n as int).drop_first() =~= rules@.subrange(
                i + 1,
                n as int,
            ));
            assert(rules@.subrange(i as int, n as int)[0] == rules@[i as int]);
        }
        let matched = rule_matches(&rules[i], memo, payee, entity);
        if matched {
            let c = match &rules[i] {
                Rules::Contains { value, field, category } => category.clone(),
                Rules::StartsWith { value, field, category } => category.clone(),
                Rules::EndsWith { value, field, category } => category.clone(),
            };
            return Option::Some(c);
        }
        i = i + 1;
    }
    proof {
        assert(rules@.subrange(n as int, n as int) =~= Seq::<Rules>::empty());
    }
    Option::None
}

/// The text of an optional field: absent means empty.
pub open spec fn opt_text(o: Option<String>) -> Seq<char> {
    match o {
        Option::Some(s) => s@,
        Option::None => Seq::empty(),
    }
}

fn opt_field<'a>(o: &'a Option<String>) -> (r: &'a str)
    ensures
        r@ == opt_text(*o),
{
    match o {
        Option::Some(s) => s.as_str(),
        Option::None => {
            let r = "";
            proof {
                reveal_strlit("");
                assert(r@ =~= Seq::<char>::empty());
            }
            r
        },
    }
}

/// Run the ordered rule list over a ledger-style transaction (memo and
/// payee fields; a missing field reads as empty text) and resolve the
/// decided category name in the category index.
pub fn apply_rules(rules: &Vec<Rules>, categories: &CategoryIndex, transaction: &Transaction) -> (r:
    Option<Category>)
    ensures
        match spec_classify(
            rules@,
            opt_text(transaction.memo),
            opt_text(transaction.payee_name),
            Seq::empty(),
        ) {
            Option::None => r is None,
            Option::Some(name) => r == crate::ynab::spec_cat_lookup(
                categories.entries_seq(),
                name,
            ),
        },
{
    let memo = opt_field(&transaction.memo);
    let payee = opt_field(&transaction.payee_name);
    let empty = "";
    proof {
        reveal_strlit("");
        assert(empty@ =~= Seq::<char>::empty());
    }
    match classify(rules, memo, payee, empty) {
        Option::Some(name) => {
            match categories.get(name.as_str()) {
                Option::Some(c) => Option::Some(c.clone()),
                Option::None => Option::None,
            }
        },
        Option::None => Option::None,
    }
}

} // verus!
