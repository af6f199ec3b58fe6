use vstd::prelude::*;

use crate::error::ErrorKind;
use crate::numbers::{
    all_digits, digit_val, digit_value, digits_val, is_digit, lemma_digits_val_bound, pow10,
};
use crate::text::{spec_split, split_str};

verus! {

/// The text with every thousands dot removed.
pub open spec fn strip_dots(s: Seq<char>) -> Seq<char> {
    s.filter(|c: char| c != '.')
}

/// The fraction digits scaled to thousandths, rounded half away from zero
/// at the fourth digit.
pub open spec fn spec_frac_milli(f: Seq<char>) -> int {
    if f.len() <= 3 {
        digits_val(f) * pow10(3 - f.len())
    } else {
        digits_val(f.take(3)) + if digit_val(f[3]) >= 5 {
            1int
        } else {
            0int
        }
    }
}

/// The unsigned value, in thousandths, of digit text with at most one
/// decimal comma and at least one digit.
pub open spec fn spec_eu_magnitude(t: Seq<char>) -> Option<int> {
    let parts = spec_split(t, ',');
    if parts.len() == 1 && all_digits(parts[0]) && parts[0].len() >= 1 {
        Option::Some(digits_val(parts[0]) * 1000)
    } else if parts.len() == 2 && all_digits(parts[0]) && all_digits(parts[1]) && parts[0].len()
        + parts[1].len() >= 1 {
        Option::Some(digits_val(parts[0]) * 1000 + spec_frac_milli(parts[1]))
    } else {
        Option::None
    }
}

/// What European-style amount text denotes in thousandths of the unit:
/// dots are thousands separators and are ignored wherever they stand, the
/// comma is the decimal separator, and an optional sign leads.
pub open spec fn spec_eu_amount(s: Seq<char>) -> Option<int> {
    let t = strip_dots(s);
    if t.len() > 0 && (t[0] == '+' || t[0] == '-') {
        match spec_eu_magnitude(t.drop_first()) {
            Option::Some(m) => Option::Some(
                if t[0] == '-' {
                    -m
                } else {
                    m
                },
            ),
            Option::None => Option::None,
        }
    } else {
        spec_eu_magnitude(t)
    }
}

/// A digit string's value, clamped just above ten billion so that the
/// overflow check below stays exact.
fn digits_clamped(s: &str) -> (r: Option<i64>)
    ensures
        match r {
            Option::Some(v) => all_digits(s@) && (digits_val(s@) <= 10000000000 ==> v
                == digits_val(s@)) && (digits_val(s@) > 10000000000 ==> v == 10000000001) && 0
                <= v <= 10000000001,
            Option::None => !all_digits(s@),
        },
{
    let len = s.unicode_len();
    let mut v: i64 = 0;
    let mut i: usize = 0;
    proof {
        assert(s@.subrange(0, 0) =~= Seq::<char>::empty());
    }
    while i < len
        invariant
            i <= len,
            len == s@.len(),
            all_digits(s@.subrange(0, i as int)),
            digits_val(s@.subrange(0, i as int)) <= 10000000000 ==> v == digits_val(
                s@.subrange(0, i as int),
            ),
            digits_val(s@.subrange(0, i as int)) > 10000000000 ==> v == 10000000001,
            0 <= v <= 10000000001,
            0 <= digits_val(s@.subrange(0, i as int)),
        decreases len - i,
    {
        let c = s.get_char(i);
        if !is_digit(c) {
            proof {
                assert(!all_digits(s@));
            }
            return Option::None;
        }
        proof {
            assert(s@.subrange(0, i + 1).drop_last() =~= s@.subrange(0, i as int));
            assert(s@.subrange(0, i + 1).last() == s@[i as int]);
        }
        let d = digit_value(c) as i64;
        let next = v * 10 + d;
        if next > 10000000000 {
            v = 10000000001;
        } else {
            v = next;
        }
        i = i + 1;
    }
    proof {
        assert(s@.subrange(0, len as int) =~= s@);
    }
    Option::Some(v)
}

/// The scaled fraction part, if the text is all digits.
fn frac_milli(s: &str) -> (r: Option<i64>)
    ensures
        match r {
            Option::Some(v) => all_digits(s@) && v == spec_frac_milli(s@) && 0 <= v <= 1000,
            Option::None => !all_digits(s@),
        },
{
    let len = s.unicode_len();
    let head_len: usize = if len <= 3 {
        len
    } else {
        3
    };
    let mut v: i64 = 0;
    let mut i: usize = 0;
    proof {
        assert(s@.subrange(0, 0) =~= Seq::<char>::empty());
    }
    while i < head_len
        invariant
            i <= head_len <= 3,
            head_len <= len,
            len == s@.len(),
            all_digits(s@.subrange(0, i as int)),
            v == digits_val(s@.subrange(0, i as int)),
            0 <= v <= 999,
        decreases head_len - i,
    {
        let c = s.get_char(i);
        if !is_digit(c) {
            proof {
                assert(!all_digits(s@));
            }
            return Option::None;
        }
        proof {
            assert(s@.subrange(0, i + 1).drop_last() =~= s@.subrange(0, i as int));
            assert(s@.subrange(0, i + 1).last() == s@[i as int]);
            lemma_digits_val_bound(s@.subrange(0, i + 1));
            assert(pow10(0) == 1);
            assert(pow10(1) == 10);
            assert(pow10(2) == 100);
            assert(pow10(3) == 1000);
        }
        v = v * 10 + digit_value(c) as i64;
        i = i + 1;
    }
    // check the remaining digits and remember whether the fourth rounds up
    let mut round_up = false;
    let mut j: usize = head_len;
    while j < len
        invariant
            head_len <= j <= len,
            head_len <= 3,
            head_len == if len <= 3 { len as int } else { 3int },
            len == s@.len(),
            all_digits(s@.subrange(0, j as int)),
            v == digits_val(s@.subrange(0, head_len as int)),
            0 <= v <= 999,
            round_up == (len > 3 && j > 3 && digit_val(s@[3]) >= 5),
        decreases len - j,
    {
        let c = s.get_char(j);
        if !is_digit(c) {
            proof {
                assert(!all_digits(s@));
            }
            return Option::None;
        }
        proof {
            assert(s@.subrange(0, j + 1).drop_last() =~= s@.subrange(0, j as int));
            assert(s@.subrange(0, j + 1).last() == s@[j as int]);
        }
        if j == 3 {
            round_up = c >= '5';
        }
        j = j + 1;
    }
    proof {
        assert(s@.subrange(0, len as int) =~= s@);
    }
    proof {
        assert(pow10(0) == 1);
        assert(pow10(1) == 10);
        assert(pow10(2) == 100);
        assert(pow10(3) == 1000);
    }
    if len <= 3 {
        proof {
            assert(s@.subrange(0, head_len as int) =~= s@);
            lemma_digits_val_bound(s@);
        }
        if len == 0 {
            Option::Some(v * 1000)
        } else if len == 1 {
            Option::Some(v * 100)
        } else if len == 2 {
            Option::Some(v * 10)
        } else {
            Option::Some(v)
        }
    } else {
        proof {
            assert(s@.take(3) =~= s@.subrange(0, head_len as int));
            lemma_digits_val_bound(s@.take(3));
        }
        Option::Some(v + if round_up {
            1
        } else {
            0
        })
    }
}

/// The unsigned magnitude in thousandths, exact up to ten billion and
/// clamped above it.
fn eu_magnitude(t: &str) -> (r: Option<i64>)
    ensures
        match r {
            Option::Some(v) => {
                &&& spec_eu_magnitude(t@) is Some
                &&& (spec_eu_magnitude(t@)->0 <= 10000000000000 ==> v == spec_eu_magnitude(
                    t@,
                )->0)
                &&& (spec_eu_magnitude(t@)->0 > 10000000000000 ==> v > 10000000000000)
                &&& 0 <= v <= 10000000002000
            },
            Option::None => spec_eu_magnitude(t@) is None,
        },
{
    let parts = split_str(t, ',');
    proof {
        assert(parts.deep_view().len() == parts@.len());
        assert(forall|i: int| 0 <= i < parts@.len() ==> parts.deep_view()[i] == parts@[i]@);
    }
    if parts.len() == 1 {
        let len0 = parts[0].as_str().unicode_len();
        if len0 < 1 {
            return Option::None;
        }
        match digits_clamped(parts[0].as_str()) {
            Option::Some(v) => {
                proof {
                    lemma_digits_val_bound(parts@[0]@);
                }
                Option::Some(v * 1000)
            },
            Option::None => Option::None,
        }
    } else if parts.len() == 2 {
        let len0 = parts[0].as_str().unicode_len();
        let len1 = parts[1].as_str().unicode_len();
        if len0 == 0 && len1 == 0 {
            return Option::None;
        }
        let iv = match digits_clamped(parts[0].as_str()) {
            Option::Some(v) => v,
            Option::None => {
                return Option::None;
            },
        };
        let fv = match frac_milli(parts[1].as_str()) {
            Option::Some(v) => v,
            Option::None => {
                return Option::None;
            },
        };
        proof {
            lemma_digits_val_bound(parts@[0]@);
        }
        Option::Some(iv * 1000 + fv)
    } else {
        Option::None
    }
}

/// Parse European-style amount text into thousandths of the unit.
///
/// The result is `Ok` exactly when the text matches the grammar of
/// `spec_eu_amount` and its value fits the fixed-point range; otherwise the
/// offending text is reported as a source-parse failure.
pub fn parse_eu_amount(s: &str) -> (r: Result<i32, ErrorKind>)
    ensures
        match r {
            Ok(v) => spec_eu_amount(s@) == Option::Some(v as int),
            Err(e) => {
                &&& (e matches ErrorKind::IngDiBaCsvFileParse(t) && t@ == s@)
                &&& (spec_eu_amount(s@) matches Option::Some(m) ==> !(i32::MIN <= m
                    <= i32::MAX))
            },
        },
{
    let len = s.unicode_len();
    let mut stripped = String::new();
    let mut i: usize = 0;
    proof {
        assert(s@.subrange(0, 0) =~= Seq::<char>::empty());
        assert(stripped@ =~= strip_dots(s@.subrange(0, 0))) by {
            reveal(Seq::filter);
        }
    }
    while i < len
        invariant
            i <= len,
            len == s@.len(),
            stripped@ == strip_dots(s@.subrange(0, i as int)),
        decreases len - i,
    {
        let c = s.get_char(i);
        proof {
            let prefix = s@.subrange(0, i as int);
            assert(s@.subrange(0, i + 1) =~= prefix.push(s@[i as int]));
            reveal(Seq::filter);
            assert(prefix.push(c).drop_last() =~= prefix);
            if c != '.' {
                assert(strip_dots(prefix.push(c)) =~= strip_dots(prefix).push(c));
            } else {
                assert(strip_dots(prefix.push(c)) =~= strip_dots(prefix));
            }
        }
        if c != '.' {
            stripped.append(s.substring_char(i, i + 1));
        }
        i = i + 1;
    }
    proof {
        assert(s@.subrange(0, len as int) =~= s@);
    }
    let slen = stripped.as_str().unicode_len();
    let negative: bool;
    let body: &str;
    if slen > 0 && (stripped.as_str().get_char(0) == '+' || stripped.as_str().get_char(0) == '-') {
        negative = stripped.as_str().get_char(0) == '-';
        body = stripped.as_str().substring_char(1, slen);
        proof {
            assert(body@ =~= strip_dots(s@).drop_first());
        }
    } else {
        negative = false;
        body = stripped.as_str();
    }
    let mag = match eu_magnitude(body) {
        Option::Some(m) => m,
        Option::None => {
            return Err(ErrorKind::IngDiBaCsvFileParse(s.to_owned()));
        },
    };
    let value: i64 = if negative {
        -mag
    } else {
        mag
    };
    if value < -2147483648 || value > 2147483647 {
        return Err(ErrorKind::IngDiBaCsvFileParse(s.to_owned()));
    }
    Ok(value as i32)
}

} // verus!
