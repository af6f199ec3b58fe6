use vstd::prelude::*;

use crate::numbers::{
    all_digits, digits_val, is_digit, digit_value, spec_digits, u64_to_string,
};
use crate::text::{spec_split, split_str};

verus! {

/// A calendar date in the proleptic Gregorian calendar.
#[derive(Debug, Clone, Copy, PartialEq, Eq, Structural)]
pub struct Date {
    pub year: i32,
    pub month: i32,
    pub day: i32,
}

pub open spec fn is_leap_year(y: int) -> bool {
    y % 4 == 0 && (y % 100 != 0 || y % 400 == 0)
}

pub open spec fn spec_days_in_month(y: int, m: int) -> int {
    if m == 2 {
        if is_leap_year(y) {
            29
        } else {
            28
        }
    } else if m == 4 || m == 6 || m == 9 || m == 11 {
        30
    } else {
        31
    }
}

pub open spec fn spec_days_in_year(y: int) -> int {
    if is_leap_year(y) {
        366
    } else {
        365
    }
}

/// A real calendar date in the supported year range.
pub open spec fn valid_date(d: Date) -> bool {
    1 <= d.year <= 9999 && 1 <= d.month <= 12 && 1 <= d.day <= spec_days_in_month(
        d.year as int,
        d.month as int,
    )
}

/// Days in all years from year 1 (inclusive) up to `y` (exclusive).
pub open spec fn days_before_year(y: int) -> int
    decreases y,
{
    if y <= 1 {
        0
    } else {
        days_before_year(y - 1) + spec_days_in_year(y - 1)
    }
}

/// Days in all months of year `y` before month `m`.
pub open spec fn days_before_month(y: int, m: int) -> int
    decreases m,
{
    if m <= 1 {
        0
    } else {
        days_before_month(y, m - 1) + spec_days_in_month(y, m - 1)
    }
}

/// The date's distance in days from January 1st of year 1.
pub open spec fn spec_day_number(d: Date) -> int {
    days_before_year(d.year as int) + days_before_month(d.year as int, d.month as int) + d.day - 1
}

pub fn leap_year(y: i32) -> (r: bool)
    requires
        y >= 1,
    ensures
        r == is_leap_year(y as int),
{
    y % 4 == 0 && (y % 100 != 0 || y % 400 == 0)
}

pub fn days_in_month(y: i32, m: i32) -> (r: i32)
    requires
        y >= 1,
    ensures
        r == spec_days_in_month(y as int, m as int),
{
    if m == 2 {
        if leap_year(y) {
            29
        } else {
            28
        }
    } else if m == 4 || m == 6 || m == 9 || m == 11 {
        30
    } else {
        31
    }
}

/// Whether the value denotes a real calendar date in the supported range.
pub fn is_valid_date(d: &Date) -> (r: bool)
    ensures
        r == valid_date(*d),
{
    1 <= d.year && d.year <= 9999 && 1 <= d.month && d.month <= 12 && 1 <= d.day && d.day
        <= days_in_month(d.year, d.month)
}

/// Every year holds at least 365 days.
pub proof fn lemma_days_before_year_lower(y: int)
    requires
        y >= 1,
    ensures
        days_before_year(y) >= 365 * (y - 1),
    decreases y,
{
    if y > 1 {
        lemma_days_before_year_lower(y - 1);
    }
}

/// The date's day number, counted from January 1st of year 1.
pub fn day_number(d: &Date) -> (n: i64)
    requires
        valid_date(*d),
    ensures
        n == spec_day_number(*d),
        0 <= n <= 3660000,
{
    let mut y: i32 = 1;
    let mut acc: i64 = 0;
    while y < d.year
        invariant
            1 <= y <= d.year <= 9999,
            acc == days_before_year(y as int),
            0 <= acc <= 366 * (y - 1),
        decreases d.year - y,
    {
        acc = acc + if leap_year(y) {
            366
        } else {
            365
        };
        y = y + 1;
    }
    let mut m: i32 = 1;
    let mut macc: i32 = 0;
    while m < d.month
        invariant
            1 <= m <= d.month <= 12,
            1 <= d.year <= 9999,
            macc == days_before_month(d.year as int, m as int),
            0 <= macc <= 31 * (m - 1),
        decreases d.month - m,
    {
        macc = macc + days_in_month(d.year, m);
        m = m + 1;
    }
    acc + macc as i64 + d.day as i64 - 1
}

/// The date `n` days after January 1st of year 1.
pub fn civil_from_days(n: i64) -> (d: Date)
    requires
        0 <= n <= 3649270,
    ensures
        valid_date(d),
        spec_day_number(d) == n,
{
    let mut y: i32 = 1;
    let mut rem: i64 = n;
    loop
        invariant
            1 <= y <= 9999,
            rem == n - days_before_year(y as int),
            0 <= rem,
            0 <= days_before_year(y as int),
            n <= 3649270,
        ensures
            1 <= y <= 9999,
            rem == n - days_before_year(y as int),
            0 <= rem < spec_days_in_year(y as int),
        decreases 3649270 - days_before_year(y as int),
    {
        let ylen: i64 = if leap_year(y) {
            366
        } else {
            365
        };
        if rem < ylen {
            break ;
        }
        proof {
            lemma_days_before_year_lower(y as int + 1);
            assert(days_before_year(y as int + 1) <= n);
            assert(365 * (y as int) <= 3649270);
            assert(y as int <= 9998);
        }
        rem = rem - ylen;
        y = y + 1;
    }
    let mut m: i32 = 1;
    loop
        invariant
            1 <= y <= 9999,
            1 <= m <= 12,
            rem == n - days_before_year(y as int) - days_before_month(y as int, m as int),
            0 <= rem,
            rem < spec_days_in_year(y as int) - days_before_month(y as int, m as int),
        ensures
            1 <= y <= 9999,
            1 <= m <= 12,
            rem == n - days_before_year(y as int) - days_before_month(y as int, m as int),
            0 <= rem < spec_days_in_month(y as int, m as int),
        decreases 12 - m,
    {
        let mlen = days_in_month(y, m);
        if rem < mlen as i64 {
            break ;
        }
        proof {
            if m as int + 1 > 12 {
                lemma_months_fill_year(y as int);
                assert(false);
            }
        }
        rem = rem - mlen as i64;
        m = m + 1;
    }
    Date { year: y, month: m, day: (rem as i32) + 1 }
}

/// The twelve months together hold the whole year.
proof fn lemma_months_fill_year(y: int)
    ensures
        days_before_month(y, 13) == spec_days_in_year(y),
{
    reveal_with_fuel(days_before_month, 13);
}

/// The day number of 1970-01-01, the epoch of machine clocks.
pub open spec fn unix_epoch_day() -> int {
    days_before_year(1970)
}

/// The calendar date reached by going `days` back from the given epoch
/// millisecond; `None` when the clock reading is negative or the target
/// leaves the supported calendar.
pub fn date_days_ago(now_millis: i64, days: i64) -> (r: Option<Date>)
    ensures
        match r {
            Option::Some(d) => {
                &&& valid_date(d)
                &&& spec_day_number(d) == unix_epoch_day() + now_millis as int / 86400000
                    - days
                &&& 0 <= now_millis
                &&& -1000000 <= days <= 1000000000000
            },
            Option::None => !(0 <= now_millis && -1000000 <= days <= 1000000000000 && 0
                <= unix_epoch_day() + now_millis as int / 86400000 - days <= 3649270),
        },
{
    if now_millis < 0 || days < -1000000 || days > 1000000000000 {
        return Option::None;
    }
    let epoch = Date { year: 1970, month: 1, day: 1 };
    let epoch_day = day_number(&epoch);
    let q = now_millis / 86400000;
    let target = epoch_day + q - days;
    if target < 0 || target > 3649270 {
        return Option::None;
    }
    Option::Some(civil_from_days(target))
}

/// Lexicographic order on dates, oldest first.
pub open spec fn spec_date_le(a: Date, b: Date) -> bool {
    if a.year != b.year {
        a.year < b.year
    } else if a.month != b.month {
        a.month < b.month
    } else {
        a.day <= b.day
    }
}

pub fn date_le(a: &Date, b: &Date) -> (r: bool)
    ensures
        r == spec_date_le(*a, *b),
{
    if a.year != b.year {
        a.year < b.year
    } else if a.month != b.month {
        a.month < b.month
    } else {
        a.day <= b.day
    }
}

/// `s` left-padded with zeros up to width `w`.
pub open spec fn spec_zero_pad(s: Seq<char>, w: int) -> Seq<char> {
    if s.len() >= w {
        s
    } else {
        Seq::new((w - s.len()) as nat, |i: int| '0') + s
    }
}

/// The date as `YYYY-MM-DD`, each part zero-padded.
pub open spec fn spec_format_date(d: Date) -> Seq<char> {
    spec_zero_pad(spec_digits(d.year as int), 4) + seq!['-'] + spec_zero_pad(
        spec_digits(d.month as int),
        2,
    ) + seq!['-'] + spec_zero_pad(spec_digits(d.day as int), 2)
}

fn zero_pad(s: String, w: usize) -> (r: String)
    ensures
        r@ == spec_zero_pad(s@, w as int),
{
    let len = s.as_str().unicode_len();
    if len >= w {
        proof {
            assert(spec_zero_pad(s@, w as int) == s@);
        }
        return s;
    }
    let mut r = s;
    let mut k = len;
    proof {
        assert(r@ =~= Seq::new((len - len) as nat, |i: int| '0') + r@);
    }
    while k < w
        invariant
            len <= k <= w,
            r@.len() == s@.len() + (k - len),
            r@ == Seq::new((k - len) as nat, |i: int| '0') + s@,
            len == s@.len(),
            w <= usize::MAX,
        decreases w - k,
    {
        let r2 = String::from_str("0").concat(r.as_str());
        proof {
            reveal_strlit("0");
            assert(r2@ =~= Seq::new((k + 1 - len) as nat, |i: int| '0') + s@);
        }
        r = r2;
        k = k + 1;
    }
    r
}

/// Format a date as `YYYY-MM-DD`.
pub fn format_date(d: &Date) -> (r: String)
    requires
        valid_date(*d),
    ensures
        r@ == spec_format_date(*d),
{
    let y = zero_pad(u64_to_string(d.year as u64), 4);
    let m = zero_pad(u64_to_string(d.month as u64), 2);
    let day = zero_pad(u64_to_string(d.day as u64), 2);
    let r = y.concat("-").concat(m.as_str()).concat("-").concat(day.as_str());
    proof {
        reveal_strlit("-");
        assert(r@ =~= spec_format_date(*d));
    }
    r
}

/// What `DD.MM.YYYY` text denotes, if it is well-formed: one-or-two-digit
/// day and month, four-digit year, dots between, and a real calendar date.
pub open spec fn spec_parse_dmy(s: Seq<char>) -> Option<Date> {
    let parts = spec_split(s, '.');
    if parts.len() == 3 && 1 <= parts[0].len() <= 2 && 1 <= parts[1].len() <= 2 && parts[2].len()
        == 4 && all_digits(parts[0]) && all_digits(parts[1]) && all_digits(parts[2]) {
        let d = Date {
            year: digits_val(parts[2]) as i32,
            month: digits_val(parts[1]) as i32,
            day: digits_val(parts[0]) as i32,
        };
        if valid_date(d) {
            Option::Some(d)
        } else {
            Option::None
        }
    } else {
        Option::None
    }
}

/// The numeric value of a short, all-digit field.
fn parse_digit_field(s: &String) -> (r: Option<u32>)
    ensures
        match r {
            Option::Some(v) => 1 <= s@.len() <= 4 && all_digits(s@) && v == digits_val(s@) && v
                <= 9999,
            Option::None => !(1 <= s@.len() <= 4 && all_digits(s@)),
        },
{
    let len = s.as_str().unicode_len();
    if len < 1 || len > 4 {
        return Option::None;
    }
    let mut v: u32 = 0;
    let mut i: usize = 0;
    proof {
        assert(s@.subrange(0, 0) =~= Seq::<char>::empty());
    }
    while i < len
        invariant
            i <= len,
            1 <= len <= 4,
            len == s@.len(),
            all_digits(s@.subrange(0, i as int)),
            v == digits_val(s@.subrange(0, i as int)),
            v < pow10_bound(i as int),
        decreases len - i,
    {
        let c = s.as_str().get_char(i);
        if !is_digit(c) {
            proof {
                assert(!all_digits(s@));
            }
            return Option::None;
        }
        proof {
            assert(s@.subrange(0, i + 1).drop_last() =~= s@.subrange(0, i as int));
            assert(s@.subrange(0, i + 1).last() == s@[i as int]);
        }
        v = v * 10 + digit_value(c);
        i = i + 1;
    }
    proof {
        assert(s@.subrange(0, len as int) =~= s@);
    }
    Option::Some(v)
}

spec fn pow10_bound(k: int) -> int {
    if k <= 0 {
        1
    } else if k == 1 {
        10
    } else if k == 2 {
        100
    } else if k == 3 {
        1000
    } else {
        10000
    }
}

/// Parse `DD.MM.YYYY` text into a date; the result is pinned to
/// `spec_parse_dmy`.
pub fn parse_date_dmy(s: &str) -> (r: Option<Date>)
    ensures
        r == spec_parse_dmy(s@),
{
    let parts = split_str(s, '.');
    proof {
        assert(parts.deep_view().len() == parts@.len());
        assert(forall|i: int| 0 <= i < parts@.len() ==> parts.deep_view()[i] == parts@[i]@);
    }
    if parts.len() != 3 {
        return Option::None;
    }
    let day_len = parts[0].as_str().unicode_len();
    let month_len = parts[1].as_str().unicode_len();
    let year_len = parts[2].as_str().unicode_len();
    if day_len < 1 || day_len > 2 || month_len < 1 || month_len > 2 || year_len != 4 {
        return Option::None;
    }
    let day_v = match parse_digit_field(&parts[0]) {
        Option::Some(v) => v,
        Option::None => {
            return Option::None;
        },
    };
    let month_v = match parse_digit_field(&parts[1]) {
        Option::Some(v) => v,
        Option::None => {
            return Option::None;
        },
    };
    let year_v = match parse_digit_field(&parts[2]) {
        Option::Some(v) => v,
        Option::None => {
            return Option::None;
        },
    };
    let d = Date { year: year_v as i32, month: month_v as i32, day: day_v as i32 };
    if d.year < 1 {
        return Option::None;
    }
    if d.month < 1 || d.month > 12 {
        return Option::None;
    }
    if d.day < 1 || d.day > days_in_month(d.year, d.month) {
        return Option::None;
    }
    Option::Some(d)
}

} // verus!
