use vstd::prelude::*;

use crate::text::str_eq;
use crate::ynab::Transaction;

verus! {

/// The write the differ decides for one proposed transaction.
#[derive(Debug, Clone, Copy, PartialEq, Eq, Structural)]
pub enum Action {
    New,
    Update,
    Skip,
}

pub open spec fn opt_str_view(o: Option<String>) -> Option<Seq<char>> {
    match o {
        Option::Some(s) => Option::Some(s@),
        Option::None => Option::None,
    }
}

/// Option-of-string equality on the character level.
pub fn opt_str_eq(a: &Option<String>, b: &Option<String>) -> (r: bool)
    ensures
        r == (opt_str_view(*a) == opt_str_view(*b)),
{
    match (a, b) {
        (Option::None, Option::None) => true,
        (Option::Some(x), Option::Some(y)) => str_eq(x.as_str(), y.as_str()),
        _ => false,
    }
}

/// The ledger entry most recently indexed under import key `k`, if any:
/// entries without an import key are never indexed, and when several
/// entries carry the same key the last one wins.
pub open spec fn spec_lookup(entries: Seq<Transaction>, k: Seq<char>) -> Option<Transaction>
    decreases entries.len(),
{
    if entries.len() == 0 {
        Option::None
    } else if entries.last().import_id is Some && entries.last().import_id->0@ == k {
        Option::Some(entries.last())
    } else {
        spec_lookup(entries.drop_last(), k)
    }
}

/// Only the entries that carry an import key.
pub open spec fn spec_keyed(entries: Seq<Transaction>) -> Seq<Transaction>
    decreases entries.len(),
{
    if entries.len() == 0 {
        Seq::empty()
    } else if entries.last().import_id is Some {
        spec_keyed(entries.drop_last()).push(entries.last())
    } else {
        spec_keyed(entries.drop_last())
    }
}

/// The ledger's dedup index over import keys.
pub struct LedgerIndex {
    entries: Vec<Transaction>,
}

impl LedgerIndex {
    pub closed spec fn entries_seq(self) -> Seq<Transaction> {
        self.entries@
    }

    /// An index over exactly the given ledger entries: entries lacking an
    /// import key are excluded.
    pub fn new(entries: Vec<Transaction>) -> (r: LedgerIndex)
        ensures
            r.entries_seq() == spec_keyed(entries@),
    {
        let mut kept: Vec<Transaction> = Vec::new();
        let n = entries.len();
        let mut i: usize = 0;
        while i < n
            invariant
                i <= n,
                n == entries@.len(),
                kept@ == spec_keyed(entries@.subrange(0, i as int)),
            decreases n - i,
        {
            proof {
                assert(entries@.subrange(0, i + 1).drop_last() =~= entries@.subrange(0, i as int));
                assert(entries@.subrange(0, i + 1).last() == entries@[i as int]);
            }
            if entries[i].import_id.is_some() {
                kept.push(entries[i].clone());
            }
            i = i + 1;
        }
        proof {
            assert(entries@.subrange(0, n as int) =~= entries@);
        }
        LedgerIndex { entries: kept }
    }

    /// Look an import key up; the result is pinned to `spec_lookup`.
    pub fn get(&self, k: &str) -> (r: Option<&Transaction>)
        ensures
            match r {
                Option::Some(t) => spec_lookup(self.entries_seq(), k@) == Option::Some(*t),
                Option::None => spec_lookup(self.entries_seq(), k@) is None,
            },
    {
        let n = self.entries.len();
        let mut j: usize = n;
        proof {
            assert(self.entries@.subrange(0, n as int) =~= self.entries@);
        }
        while j > 0
            invariant
                j <= n,
                n == self.entries@.len(),
                spec_lookup(self.entries@, k@) == spec_lookup(
                    self.entries@.subrange(0, j as int),
                    k@,
                ),
            decreases j,
        {
            proof {
                assert(self.entries@.subrange(0, j as int).drop_last() =~= self.entries@.subrange(
                    0,
                    j - 1,
                ));
                assert(self.entries@.subrange(0, j as int).last() == self.entries@[j - 1]);
            }
            let e = &self.entries[j - 1];
            match &e.import_id {
                Option::Some(id) => {
                    if str_eq(id.as_str(), k) {
                        return Option::Some(e);
                    }
                },
                Option::None => {},
            }
            j = j - 1;
        }
        proof {
            assert(self.entries@.subrange(0, 0) =~= Seq::<Transaction>::empty());
        }
        Option::None
    }
}

/// What the differ decides for `t` against the indexed ledger: no import
/// key or an unknown one means a create; a known key with equal amount and
/// date is skipped, unless `force` also demands an equal category; anything
/// else is an update.
pub open spec fn spec_action(t: Transaction, ledger: Seq<Transaction>, force: bool) -> Action {
    match t.import_id {
        Option::None => Action::New,
        Option::Some(k) => match spec_lookup(ledger, k@) {
            Option::None => Action::New,
            Option::Some(e) => if e.amount == t.amount && e.date@ == t.date@ && (!force
                || opt_str_view(e.category_id) == opt_str_view(t.category_id)) {
                Action::Skip
            } else {
                Action::Update
            },
        },
    }
}

/// The subsequence of `ts`, in input order, whose decided action is `a`.
pub open spec fn spec_selected(
    ts: Seq<Transaction>,
    ledger: Seq<Transaction>,
    force: bool,
    a: Action,
) -> Seq<Transaction>
    decreases ts.len(),
{
    if ts.len() == 0 {
        Seq::empty()
    } else {
        let rest = spec_selected(ts.drop_last(), ledger, force, a);
        if spec_action(ts.last(), ledger, force) == a {
            rest.push(ts.last())
        } else {
            rest
        }
    }
}

/// The decision for one proposed transaction.
pub fn classify_action(t: &Transaction, existing: &LedgerIndex, force_update: bool) -> (a: Action)
    ensures
        a == spec_action(*t, existing.entries_seq(), force_update),
{
    match &t.import_id {
        Option::None => Action::New,
        Option::Some(id) => match existing.get(id.as_str()) {
            Option::None => Action::New,
            Option::Some(e) => {
                if e.amount == t.amount && str_eq(e.date.as_str(), t.date.as_str()) && (!force_update
                    || opt_str_eq(&e.category_id, &t.category_id)) {
                    Action::Skip
                } else {
                    Action::Update
                }
            },
        },
    }
}

/// Diff the proposed transactions against the ledger index: the first
/// result lists the creates and the second the updates, both in input
/// order; transactions whose action is `Skip` appear in neither.
pub fn reconcile(
    transactions: &Vec<Transaction>,
    existing: &LedgerIndex,
    force_update: bool,
) -> (r: (Vec<Transaction>, Vec<Transaction>))
    ensures
        r.0@ == spec_selected(
            transactions@,
            existing.entries_seq(),
            force_update,
            Action::New,
        ),
        r.1@ == spec_selected(
            transactions@,
            existing.entries_seq(),
            force_update,
            Action::Update,
        ),
{
    let mut new_transactions: Vec<Transaction> = Vec::new();
    let mut update_transactions: Vec<Transaction> = Vec::new();
    let n = transactions.len();
    let mut i: usize = 0;
    while i < n
        invariant
            i <= n,
            n == transactions@.len(),
            new_transactions@ == spec_selected(
                transactions@.subrange(0, i as int),
                existing.entries_seq(),
                force_update,
                Action::New,
            ),
            update_transactions@ == spec_selected(
                transactions@.subrange(0, i as int),
                existing.entries_seq(),
                force_update,
                Action::Update,
            ),
        decreases n - i,
    {
        proof {
            assert(transactions@.subrange(0, i + 1).drop_last() =~= transactions@.subrange(
                0,
                i as int,
            ));
            assert(transactions@.subrange(0, i + 1).last() == transactions@[i as int]);
        }
        let t = &transactions[i];
        let action = classify_action(t, existing, force_update);
        match action {
            Action::New => new_transactions.push(t.clone()),
            Action::Update => update_transactions.push(t.clone()),
            Action::Skip => {},
        }
        i = i + 1;
    }
    proof {
        assert(transactions@.subrange(0, n as int) =~= transactions@);
    }
    (new_transactions, update_transactions)
}

} // verus!
