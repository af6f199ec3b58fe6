use vstd::prelude::*;

use crypto::digest::Digest;

use crate::numbers::{i64_to_string, spec_int_string};

verus! {

/// What the SHA-1 hex digest of a character sequence is.
pub uninterp spec fn sha1_hex_of(s: Seq<char>) -> Seq<char>;

/// Relies on crypto::sha1::Sha1 through crypto::digest::Digest: input_str
/// feeds the UTF-8 bytes of the text and result_str returns the 160-bit
/// digest as 40 ASCII hex digits, a function of the input alone.
#[verifier::external_body]
pub(crate) fn sha1_hex(s: &str) -> (r: String)
    ensures
        r@ == sha1_hex_of(s@),
        r@.len() == 40,
        r.is_ascii(),
{
    let mut h = crypto::sha1::Sha1::new();
    h.input_str(s);
    h.result_str()
}

/// The import key: the SHA-1 hex digest of date text, decimal amount and
/// composed memo, truncated to 36 characters.
pub open spec fn spec_import_key(date: Seq<char>, amount: int, memo: Seq<char>) -> Seq<char> {
    sha1_hex_of(date + spec_int_string(amount) + memo).take(36)
}

/// Derive the dedup key for a transaction without a native identifier.
pub fn derive_import_id(date: &str, amount: i32, memo: &str) -> (r: String)
    ensures
        r@ == spec_import_key(date@, amount as int, memo@),
        r@.len() == 36,
{
    let amount_text = i64_to_string(amount as i64);
    let input = date.to_owned().concat(amount_text.as_str()).concat(memo);
    let hex = sha1_hex(input.as_str());
    let key = hex.as_str().substring_ascii(0, 36);
    let r = key.to_owned();
    proof {
        assert(input@ =~= date@ + spec_int_string(amount as int) + memo@);
        assert(r@ =~= spec_import_key(date@, amount as int, memo@));
    }
    r
}

/// Identity determinism: any two keys derived from the same date, amount
/// and composed memo are the same string.
pub proof fn lemma_import_key_deterministic(
    k1: Seq<char>,
    k2: Seq<char>,
    date: Seq<char>,
    amount: int,
    memo: Seq<char>,
)
    requires
        k1 == spec_import_key(date, amount, memo),
        k2 == spec_import_key(date, amount, memo),
    ensures
        k1 == k2,
{
}

} // verus!
