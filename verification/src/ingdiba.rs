use vstd::prelude::*;

use vstd::seq_lib::group_to_multiset_ensures;

use crate::amounts::{parse_eu_amount, spec_eu_amount};
use crate::dates::{
    date_le, parse_date_dmy, spec_date_le, spec_day_number, spec_parse_dmy, valid_date,
    day_number, Date,
};
use crate::error::ErrorKind;
use crate::text::{spec_split, spec_starts_with, split_str, str_starts_with};

verus! {

/// One bank-export row: dates are calendar dates, amounts fixed-point
/// integers in thousandths.
#[derive(Debug)]
pub struct Transaction {
    pub ts: Date,
    pub currency_ts: Date,
    pub entity: String,
    pub type_: String,
    pub memo: String,
    pub balance: i32,
    pub balance_currency: String,
    pub amount: i32,
    pub amount_currency: String,
}

impl Clone for Transaction {
    fn clone(&self) -> (r: Self)
        ensures
            r == *self,
    {
        Transaction {
            ts: self.ts,
            currency_ts: self.currency_ts,
            entity: self.entity.clone(),
            type_: self.type_.clone(),
            memo: self.memo.clone(),
            balance: self.balance,
            balance_currency: self.balance_currency.clone(),
            amount: self.amount,
            amount_currency: self.amount_currency.clone(),
        }
    }
}

/// The parsed export and the sync window its oldest row implies.
#[derive(Debug)]
pub struct IngDiBa {
    pub transactions: Vec<Transaction>,
    pub days_to_sync: i64,
}

/// What `encoding_rs::WINDOWS_1252.decode` returns for the given bytes.
pub uninterp spec fn windows1252_of(b: Seq<u8>) -> Seq<char>;

/// Relies on encoding_rs::WINDOWS_1252.decode: the decoded text is a
/// function of the bytes alone.
#[verifier::external_body]
pub(crate) fn decode_windows1252(bytes: &Vec<u8>) -> (r: String)
    ensures
        r@ == windows1252_of(bytes@),
{
    encoding_rs::WINDOWS_1252.decode(bytes.as_slice()).0.into_owned()
}

/// A line with one trailing carriage return removed.
pub open spec fn spec_strip_cr(l: Seq<char>) -> Seq<char> {
    if l.len() > 0 && l.last() == '\r' {
        l.drop_last()
    } else {
        l
    }
}

/// The text split into lines, each stripped of a trailing carriage return.
pub open spec fn spec_lines(text: Seq<char>) -> Seq<Seq<char>> {
    spec_split(text, '\n').map_values(|l: Seq<char>| spec_strip_cr(l))
}

/// The lines after the first one that starts with the header marker, if
/// any line does.
pub open spec fn spec_data_lines(lines: Seq<Seq<char>>) -> Option<Seq<Seq<char>>>
    decreases lines.len(),
{
    if lines.len() == 0 {
        Option::None
    } else if spec_starts_with(lines[0], "Buchung"@) {
        Option::Some(lines.drop_first())
    } else {
        spec_data_lines(lines.drop_first())
    }
}

/// The nonempty data rows of the export text.
pub open spec fn spec_rows(text: Seq<char>) -> Option<Seq<Seq<char>>> {
    match spec_data_lines(spec_lines(text)) {
        Option::None => Option::None,
        Option::Some(d) => Option::Some(d.filter(|l: Seq<char>| l.len() > 0)),
    }
}

/// A well-formed row: nine semicolon-separated fields, two well-formed
/// dates, and two well-formed amounts that fit the fixed-point range.
pub open spec fn spec_row_ok(l: Seq<char>) -> bool {
    let parts = spec_split(l, ';');
    &&& parts.len() == 9
    &&& spec_parse_dmy(parts[0]) is Some
    &&& spec_parse_dmy(parts[1]) is Some
    &&& (spec_eu_amount(parts[5]) matches Option::Some(b) && i32::MIN <= b <= i32::MAX)
    &&& (spec_eu_amount(parts[7]) matches Option::Some(a) && i32::MIN <= a <= i32::MAX)
}

/// The transaction a well-formed row denotes, field by field.
pub open spec fn row_matches(t: Transaction, l: Seq<char>) -> bool {
    let parts = spec_split(l, ';');
    &&& spec_row_ok(l)
    &&& Option::Some(t.ts) == spec_parse_dmy(parts[0])
    &&& Option::Some(t.currency_ts) == spec_parse_dmy(parts[1])
    &&& t.entity@ == parts[2]
    &&& t.type_@ == parts[3]
    &&& t.memo@ == parts[4]
    &&& Option::Some(t.balance as int) == spec_eu_amount(parts[5])
    &&& t.balance_currency@ == parts[6]
    &&& Option::Some(t.amount as int) == spec_eu_amount(parts[7])
    &&& t.amount_currency@ == parts[8]
}

/// A whole export parses: the header marker occurs and every nonempty row
/// after it is well-formed.
pub open spec fn spec_source_ok(text: Seq<char>) -> bool {
    match spec_rows(text) {
        Option::None => false,
        Option::Some(rows) => forall|i: int| 0 <= i < rows.len() ==> spec_row_ok(
            #[trigger] rows[i],
        ),
    }
}

/// Parse one semicolon-separated export row.
pub fn parse_row(line: &str) -> (r: Result<Transaction, ErrorKind>)
    ensures
        match r {
            Ok(t) => row_matches(t, line@),
            Err(e) => !spec_row_ok(line@) && e matches ErrorKind::IngDiBaCsvFileParse(_),
        },
{
    let parts = split_str(line, ';');
    proof {
        assert(parts.deep_view().len() == parts@.len());
        assert(forall|i: int| 0 <= i < parts@.len() ==> parts.deep_view()[i] == parts@[i]@);
    }
    if parts.len() != 9 {
        return Err(ErrorKind::IngDiBaCsvFileParse(line.to_owned()));
    }
    let ts = match parse_date_dmy(parts[0].as_str()) {
        Option::Some(d) => d,
        Option::None => {
            return Err(ErrorKind::IngDiBaCsvFileParse(line.to_owned()));
        },
    };
    let currency_ts = match parse_date_dmy(parts[1].as_str()) {
        Option::Some(d) => d,
        Option::None => {
            return Err(ErrorKind::IngDiBaCsvFileParse(line.to_owned()));
        },
    };
    let balance = match parse_eu_amount(parts[5].as_str()) {
        Ok(v) => v,
        Err(e) => {
            return Err(e);
        },
    };
    let amount = match parse_eu_amount(parts[7].as_str()) {
        Ok(v) => v,
        Err(e) => {
            return Err(e);
        },
    };
    Ok(
        Transaction {
            ts,
            currency_ts,
            entity: parts[2].clone(),
            type_: parts[3].clone(),
            memo: parts[4].clone(),
            balance,
            balance_currency: parts[6].clone(),
            amount,
            amount_currency: parts[8].clone(),
        },
    )
}

/// Parse the export text: find the header, then parse every nonempty row
/// after it, in order. `Err` comes exactly when the text is not a
/// well-formed export.
pub fn parse_transactions(text: &str) -> (r: Result<Vec<Transaction>, ErrorKind>)
    ensures
        match r {
            Ok(ts) => {
                &&& spec_source_ok(text@)
                &&& spec_rows(text@) matches Option::Some(rows) && ts@.len() == rows.len()
                    && (forall|i: int| 0 <= i < rows.len() ==> row_matches(
                    ts@[i],
                    #[trigger] rows[i],
                ))
            },
            Err(e) => !spec_source_ok(text@) && e matches ErrorKind::IngDiBaCsvFileParse(_),
        },
{
    let raw_lines = split_str(text, '\n');
    let n = raw_lines.len();
    let mut lines: Vec<String> = Vec::new();
    let mut i: usize = 0;
    while i < n
        invariant
            i <= n,
            n == raw_lines@.len(),
            raw_lines.deep_view() == spec_split(text@, '\n'),
            lines@.len() == i,
            forall|k: int| 0 <= k < i ==> #[trigger] lines@[k]@ == spec_lines(text@)[k],
        decreases n - i,
    {
        let l = &raw_lines[i];
        let len = l.as_str().unicode_len();
        if len > 0 && l.as_str().get_char(len - 1) == '\r' {
            let stripped = l.as_str().substring_char(0, len - 1).to_owned();
            proof {
                assert(stripped@ =~= spec_strip_cr(raw_lines.deep_view()[i as int]));
            }
            lines.push(stripped);
        } else {
            proof {
                assert(l@ =~= spec_strip_cr(raw_lines.deep_view()[i as int]));
            }
            lines.push(l.clone());
        }
        i = i + 1;
    }
    proof {
        assert(lines@.len() == spec_lines(text@).len());
    }
    // find the header line
    let mut h: usize = 0;
    let found: bool;
    proof {
        assert(spec_lines(text@).subrange(0, n as int) =~= spec_lines(text@));
    }
    loop
        invariant
            h <= n,
            n == lines@.len(),
            n == spec_lines(text@).len(),
            forall|k: int| 0 <= k < n ==> #[trigger] lines@[k]@ == spec_lines(text@)[k],
            spec_data_lines(spec_lines(text@)) == spec_data_lines(
                spec_lines(text@).subrange(h as int, n as int),
            ),
        ensures
            h <= n,
            n == lines@.len(),
            n == spec_lines(text@).len(),
            forall|k: int| 0 <= k < n ==> #[trigger] lines@[k]@ == spec_lines(text@)[k],
            found ==> h < n && spec_data_lines(spec_lines(text@)) == Option::Some(
                spec_lines(text@).subrange(h + 1, n as int),
            ),
            !found ==> spec_data_lines(spec_lines(text@)) is None,
        decreases n - h,
    {
        if h >= n {
            found = false;
            proof {
                assert(spec_lines(text@).subrange(n as int, n as int) =~= Seq::<
                    Seq<char>,
                >::empty());
            }
            break ;
        }
        proof {
            assert(spec_lines(text@).subrange(h as int, n as int).drop_first()
                =~= spec_lines(text@).subrange(h + 1, n as int));
            assert(spec_lines(text@).subrange(h as int, n as int)[0] == spec_lines(text@)[
                h as int
            ]);
        }
        if str_starts_with(lines[h].as_str(), "Buchung") {
            found = true;
            break ;
        }
        h = h + 1;
    }
    if !found {
        return Err(ErrorKind::IngDiBaCsvFileParse(text.to_owned()));
    }
    // parse the nonempty rows after the header
    let ghost data = spec_lines(text@).subrange(h + 1, n as int);
    let ghost rows = data.filter(|l: Seq<char>| l.len() > 0);
    let mut out: Vec<Transaction> = Vec::new();
    let mut j: usize = h + 1;
    proof {
        assert(data.subrange(0, 0) =~= Seq::<Seq<char>>::empty());
        assert(data.subrange(0, 0).filter(|l: Seq<char>| l.len() > 0) =~= Seq::<
            Seq<char>,
        >::empty()) by {
            reveal(Seq::filter);
        }
    }
    while j < n
        invariant
            h + 1 <= j <= n,
            n == lines@.len(),
            n == spec_lines(text@).len(),
            forall|k: int| 0 <= k < n ==> #[trigger] lines@[k]@ == spec_lines(text@)[k],
            data == spec_lines(text@).subrange(h + 1, n as int),
            spec_data_lines(spec_lines(text@)) == Option::Some(data),
            rows == data.filter(|l: Seq<char>| l.len() > 0),
            out@.len() == data.subrange(0, j - h - 1).filter(|l: Seq<char>| l.len() > 0).len(),
            forall|k: int| 0 <= k < out@.len() ==> row_matches(
                #[trigger] out@[k],
                data.subrange(0, j - h - 1).filter(|l: Seq<char>| l.len() > 0)[k],
            ),
        decreases n - j,
    {
        let ghost prefix = data.subrange(0, j - h - 1);
        proof {
            assert(data.subrange(0, j - h) =~= prefix.push(data[j - h - 1]));
            assert(data[j - h - 1] == spec_lines(text@)[j as int]);
            reveal(Seq::filter);
            assert(prefix.push(data[j - h - 1]).drop_last() =~= prefix);
            if data[j - h - 1].len() > 0 {
                assert(data.subrange(0, j - h).filter(|l: Seq<char>| l.len() > 0)
                    =~= prefix.filter(|l: Seq<char>| l.len() > 0).push(data[j - h - 1]));
            } else {
                assert(data.subrange(0, j - h).filter(|l: Seq<char>| l.len() > 0)
                    =~= prefix.filter(|l: Seq<char>| l.len() > 0));
            }
        }
        let line = &lines[j];
        if line.as_str().unicode_len() > 0 {
            match parse_row(line.as_str()) {
                Ok(t) => {
                    out.push(t);
                },
                Err(e) => {
                    proof {
                        let p = |l: Seq<char>| l.len() > 0;
                        let fprefix = data.subrange(0, j - h).filter(p);
                        assert(fprefix.last() == data[j - h - 1]);
                        lemma_filter_prefix_extends(data, p, j - h);
                        assert(rows[fprefix.len() - 1] == data[j - h - 1]);
                        assert(!spec_row_ok(rows[fprefix.len() - 1]));
                    }
                    return Err(e);
                },
            }
        }
        j = j + 1;
    }
    proof {
        assert(data.subrange(0, n - h - 1) =~= data);
        assert forall|k: int| 0 <= k < rows.len() implies spec_row_ok(#[trigger] rows[k]) by {
            assert(row_matches(out@[k], rows[k]));
        }
    }
    Ok(out)
}

/// A filtered prefix is a prefix of the filtered whole.
proof fn lemma_filter_prefix_extends(
    data: Seq<Seq<char>>,
    p: spec_fn(Seq<char>) -> bool,
    k: int,
)
    requires
        0 <= k <= data.len(),
    ensures
        data.subrange(0, k).filter(p).len() <= data.filter(p).len(),
        forall|i: int| 0 <= i < data.subrange(0, k).filter(p).len() ==> #[trigger] data.filter(
            p,
        )[i] == data.subrange(0, k).filter(p)[i],
    decreases data.len() - k,
{
    if k < data.len() {
        lemma_filter_prefix_extends(data, p, k + 1);
        let prefix = data.subrange(0, k);
        let next = data.subrange(0, k + 1);
        reveal(Seq::filter);
        assert(next.drop_last() =~= prefix);
        assert(next.last() == data[k]);
        if p(data[k]) {
            assert(next.filter(p) =~= prefix.filter(p).push(data[k]));
        } else {
            assert(next.filter(p) =~= prefix.filter(p));
        }
    } else {
        assert(data.subrange(0, data.len() as int) =~= data);
    }
}

/// Descending date order, newest first.
pub open spec fn sorted_desc(s: Seq<Transaction>) -> bool {
    forall|i: int, j: int| 0 <= i <= j < s.len() ==> spec_date_le(
        #[trigger] s[j].ts,
        #[trigger] s[i].ts,
    )
}

/// Inserting into a sequence adds the element to its multiset.
proof fn lemma_insert_to_multiset(s: Seq<Transaction>, pos: int, e: Transaction)
    requires
        0 <= pos <= s.len(),
    ensures
        s.insert(pos, e).to_multiset() == s.to_multiset().insert(e),
{
    broadcast use group_to_multiset_ensures;

    let ins = s.insert(pos, e);
    s.insert_ensures(pos, e);
    assert(ins.remove(pos) =~= s);
    assert(ins.to_multiset().remove(e) =~= s.to_multiset());
    assert(ins.to_multiset().contains(e));
    assert(ins.to_multiset() =~= s.to_multiset().insert(e));
}

fn insert_sorted_desc(out: &mut Vec<Transaction>, t: Transaction)
    requires
        sorted_desc(old(out)@),
    ensures
        sorted_desc(final(out)@),
        final(out)@.to_multiset() == old(out)@.to_multiset().insert(t),
        final(out)@.len() == old(out)@.len() + 1,
{
    let n = out.len();
    let mut pos: usize = 0;
    while pos < n && date_le(&t.ts, &out[pos].ts)
        invariant
            pos <= n,
            n == out@.len(),
            forall|k: int| 0 <= k < pos ==> spec_date_le(t.ts, #[trigger] out@[k].ts),
        decreases n - pos,
    {
        pos = pos + 1;
    }
    proof {
        out@.insert_ensures(pos as int, t);
        lemma_insert_to_multiset(out@, pos as int, t);
    }
    let ghost before = out@;
    out.insert(pos, t);
    proof {
        assert forall|a: int, b: int| 0 <= a <= b < out@.len() implies spec_date_le(
            out@[b].ts,
            out@[a].ts,
        ) by {
            if a < pos && b == pos {
            } else if a == pos && b > pos {
                assert(!spec_date_le(t.ts, before[b - 1].ts));
            } else if a < pos && b > pos {
                assert(spec_date_le(before[b - 1].ts, before[a].ts));
            } else if a == pos && b == pos {
            } else if b < pos {
                assert(spec_date_le(before[b].ts, before[a].ts));
            } else {
                assert(spec_date_le(before[b - 1].ts, before[a - 1].ts));
            }
        }
    }
}

/// The transactions sorted by date, newest first; the contents are kept
/// exactly.
pub fn sort_transactions_desc(input: &Vec<Transaction>) -> (r: Vec<Transaction>)
    ensures
        sorted_desc(r@),
        r@.to_multiset() == input@.to_multiset(),
        r@.len() == input@.len(),
{
    broadcast use group_to_multiset_ensures;

    let n = input.len();
    let mut out: Vec<Transaction> = Vec::new();
    let mut i: usize = 0;
    proof {
        assert(input@.subrange(0, 0) =~= Seq::<Transaction>::empty());
        assert(Seq::<Transaction>::empty().to_multiset() =~= out@.to_multiset());
    }
    while i < n
        invariant
            i <= n,
            n == input@.len(),
            sorted_desc(out@),
            out@.to_multiset() == input@.subrange(0, i as int).to_multiset(),
            out@.len() == i,
        decreases n - i,
    {
        proof {
            broadcast use group_to_multiset_ensures;

            assert(input@.subrange(0, i + 1) =~= input@.subrange(0, i as int).push(
                input@[i as int],
            ));
            assert(input@.subrange(0, i + 1).to_multiset() =~= input@.subrange(
                0,
                i as int,
            ).to_multiset().insert(input@[i as int]));
        }
        insert_sorted_desc(&mut out, input[i].clone());
        i = i + 1;
    }
    proof {
        assert(input@.subrange(0, n as int) =~= input@);
    }
    out
}

/// The sync window: how many days ago the oldest (last, after the
/// descending sort) transaction lies from today; zero when there are none.
pub fn days_to_sync_of(transactions: &Vec<Transaction>, today: &Date) -> (r: i64)
    requires
        valid_date(*today),
        forall|i: int| 0 <= i < transactions@.len() ==> valid_date(
            (#[trigger] transactions@[i]).ts,
        ),
    ensures
        r == if transactions@.len() == 0 {
            0int
        } else {
            spec_day_number(*today) - spec_day_number(transactions@.last().ts)
        },
{
    let n = transactions.len();
    if n == 0 {
        return 0;
    }
    let today_n = day_number(today);
    let oldest = day_number(&transactions[n - 1].ts);
    today_n - oldest
}

impl IngDiBa {
    /// Parse a decoded export: rows sorted newest first, and the sync
    /// window taken from the oldest row's distance to `today`.
    pub fn from_text(text: &str, today: &Date) -> (r: Result<IngDiBa, ErrorKind>)
        requires
            valid_date(*today),
        ensures
            match r {
                Ok(ing) => {
                    &&& spec_source_ok(text@)
                    &&& sorted_desc(ing.transactions@)
                    &&& (forall|i: int| 0 <= i < ing.transactions@.len() ==> valid_date(
                        (#[trigger] ing.transactions@[i]).ts,
                    ))
                    &&& (spec_rows(text@) matches Option::Some(rows)
                        && ing.transactions@.len() == rows.len())
                    &&& (exists|p: Seq<Transaction>|
                        {
                            &&& #[trigger] p.to_multiset() == ing.transactions@.to_multiset()
                            &&& p.len() == spec_rows(text@)->0.len()
                            &&& (forall|i: int| 0 <= i < p.len() ==> row_matches(
                                #[trigger] p[i],
                                spec_rows(text@)->0[i],
                            ))
                        })
                    &&& ing.days_to_sync == if ing.transactions@.len() == 0 {
                        0int
                    } else {
                        spec_day_number(*today) - spec_day_number(
                            ing.transactions@.last().ts,
                        )
                    }
                },
                Err(e) => !spec_source_ok(text@) && e matches ErrorKind::IngDiBaCsvFileParse(
                    _,
                ),
            },
    {
        let parsed = match parse_transactions(text) {
            Ok(ts) => ts,
            Err(e) => {
                return Err(e);
            },
        };
        let transactions = sort_transactions_desc(&parsed);
        proof {
            broadcast use group_to_multiset_ensures;

            assert forall|i: int| 0 <= i < transactions@.len() implies valid_date(
                (#[trigger] transactions@[i]).ts,
            ) by {
                assert(transactions@.to_multiset().contains(transactions@[i]));
                assert(parsed@.contains(transactions@[i]));
                let k = choose|k: int| 0 <= k < parsed@.len() && parsed@[k]
                    == transactions@[i];
                assert(row_matches(parsed@[k], spec_rows(text@)->0[k]));
            }
        }
        let days_to_sync = days_to_sync_of(&transactions, today);
        Ok(IngDiBa { transactions, days_to_sync })
    }

    /// Decode a raw export from the bank's encoding, then parse it.
    pub fn from_windows1252(bytes: &Vec<u8>, today: &Date) -> (r: Result<IngDiBa, ErrorKind>)
        requires
            valid_date(*today),
        ensures
            match r {
                Ok(ing) => {
                    &&& spec_source_ok(windows1252_of(bytes@))
                    &&& sorted_desc(ing.transactions@)
                    &&& (spec_rows(windows1252_of(bytes@)) matches Option::Some(rows)
                        && ing.transactions@.len() == rows.len())
                    &&& ing.days_to_sync == if ing.transactions@.len() == 0 {
                        0int
                    } else {
                        spec_day_number(*today) - spec_day_number(
                            ing.transactions@.last().ts,
                        )
                    }
                },
                Err(e) => !spec_source_ok(windows1252_of(bytes@)) && e matches
                    ErrorKind::IngDiBaCsvFileParse(_),
            },
    {
        let text = decode_windows1252(bytes);
        IngDiBa::from_text(text.as_str(), today)
    }
}

} // verus!
