use vstd::prelude::*;

use crate::error::ErrorKind;
use crate::text::str_eq;

verus! {

/// An authenticated bank session: bearer token, refresh token and the
/// epoch second at which the access token expires.
#[derive(Debug)]
pub struct N26 {
    pub expiration_time: i64,
    pub access_token: String,
    pub refresh_token: String,
}

/// The body of a password-grant rejection that demands multi-factor
/// approval.
#[derive(Debug)]
pub struct MFAToken {
    pub error: String,
    pub mfa_token: String,
}

/// A successful token response from the bank.
#[derive(Debug)]
pub struct TokenData {
    pub access_token: String,
    pub token_type: String,
    pub refresh_token: String,
    pub expires_in: i64,
}

/// A bank-side spending category.
#[derive(Debug)]
pub struct Category {
    pub id: String,
    pub name: String,
}

/// A bank transaction, reduced to the fields the sync pipeline reads: the
/// amount in fixed-point minor units and the visible timestamp in epoch
/// milliseconds.
#[derive(Debug)]
pub struct Transaction {
    pub id: String,
    pub amount: i32,
    pub category: String,
    pub reference_text: Option<String>,
    pub merchant_name: Option<String>,
    pub merchant_city: Option<String>,
    pub visible_ts: i64,
}

/// The bank category name most recently listed under `id`, if any.
pub open spec fn spec_name_lookup(entries: Seq<Category>, id: Seq<char>) -> Option<Seq<char>>
    decreases entries.len(),
{
    if entries.len() == 0 {
        Option::None
    } else if entries.last().id@ == id {
        Option::Some(entries.last().name@)
    } else {
        spec_name_lookup(entries.drop_last(), id)
    }
}

/// The bank's categories, indexed by category id; when an id is listed
/// twice, the last entry wins.
pub struct CategoryNames {
    entries: Vec<Category>,
}

impl CategoryNames {
    pub closed spec fn entries_seq(self) -> Seq<Category> {
        self.entries@
    }

    pub fn new(entries: Vec<Category>) -> (r: CategoryNames)
        ensures
            r.entries_seq() == entries@,
    {
        CategoryNames { entries }
    }

    /// Look a bank category id up; the result is pinned to
    /// `spec_name_lookup`.
    pub fn get(&self, id: &str) -> (r: Option<&String>)
        ensures
            match r {
                Option::Some(name) => spec_name_lookup(self.entries_seq(), id@)
                    == Option::Some(name@),
                Option::None => spec_name_lookup(self.entries_seq(), id@) is None,
            },
    {
        let n = self.entries.len();
        let mut j: usize = n;
        proof {
            assert(self.entries@.subrange(0, n as int) =~= self.entries@);
        }
        while j > 0
            invariant
                j <= n,
                n == self.entries@.len(),
                spec_name_lookup(self.entries@, id@) == spec_name_lookup(
                    self.entries@.subrange(0, j as int),
                    id@,
                ),
            decreases j,
        {
            proof {
                assert(self.entries@.subrange(0, j as int).drop_last()
                    =~= self.entries@.subrange(0, j - 1));
                assert(self.entries@.subrange(0, j as int).last() == self.entries@[j - 1]);
            }
            let e = &self.entries[j - 1];
            if str_eq(e.id.as_str(), id) {
                return Option::Some(&e.name);
            }
            j = j - 1;
        }
        proof {
            assert(self.entries@.subrange(0, 0) =~= Seq::<Category>::empty());
        }
        Option::None
    }
}

/// Relies on chrono::Utc::now: the machine clock in epoch milliseconds;
/// nothing is promised of its value.
#[verifier::external_body]
pub(crate) fn now_millis() -> i64 {
    chrono::Utc::now().timestamp_millis()
}

/// The expiry epoch second: now plus the server-reported lifetime,
/// saturated at the integer bounds.
pub open spec fn spec_expiry(now: int, lifetime: int) -> int {
    if now + lifetime > i64::MAX {
        i64::MAX as int
    } else if now + lifetime < i64::MIN {
        i64::MIN as int
    } else {
        now + lifetime
    }
}

fn saturating_add(a: i64, b: i64) -> (r: i64)
    ensures
        r == spec_expiry(a as int, b as int),
{
    if b >= 0 {
        if a > i64::MAX - b {
            i64::MAX
        } else {
            a + b
        }
    } else {
        if a < i64::MIN - b {
            i64::MIN
        } else {
            a + b
        }
    }
}

/// The session a fresh token response denotes at time `now`.
pub open spec fn spec_session(data: TokenData, now: int) -> N26 {
    N26 {
        expiration_time: spec_expiry(now, data.expires_in as int) as i64,
        access_token: data.access_token,
        refresh_token: data.refresh_token,
    }
}

/// Build a session from a token response; the expiry is now plus the
/// reported lifetime.
pub fn session_from_token_data(data: TokenData, now: i64) -> (s: N26)
    ensures
        s == spec_session(data, now as int),
{
    let expiration_time = saturating_add(now, data.expires_in);
    N26 { expiration_time, access_token: data.access_token, refresh_token: data.refresh_token }
}

/// A cached session is valid while the clock has not reached its expiry.
pub open spec fn spec_session_valid(s: N26, now: int) -> bool {
    now < s.expiration_time
}

impl N26 {
    /// Whether the session is valid at the given epoch second.
    pub fn valid_at(&self, now: i64) -> (r: bool)
        ensures
            r == spec_session_valid(*self, now as int),
    {
        now < self.expiration_time
    }

    /// Whether the session is valid right now, by the machine clock.
    pub fn is_valid(&self) -> bool {
        let now = now_millis();
        self.valid_at(now / 1000)
    }
}

/// What to do on process start, given the cached session if any.
#[derive(Debug)]
pub enum StartAction {
    /// The cached session is unexpired: reuse it, no network call.
    UseCached(N26),
    /// The cached session expired: try a refresh grant with its token.
    TryRefresh(String),
    /// No cached session: run the password grant from the start.
    PasswordGrant,
}

/// Decide how authentication starts: an unexpired cached session is reused
/// without any network call, an expired one leads to a refresh attempt,
/// and no cache at all means a full password grant.
pub fn decide_start(cached: Option<N26>, now: i64) -> (r: StartAction)
    ensures
        match cached {
            Option::Some(s) => {
                &&& spec_session_valid(s, now as int) ==> r == StartAction::UseCached(s)
                &&& !spec_session_valid(s, now as int) ==> (r matches StartAction::TryRefresh(t)
                    && t@ == s.refresh_token@)
            },
            Option::None => r == StartAction::PasswordGrant,
        },
{
    match cached {
        Option::Some(s) => {
            if s.valid_at(now) {
                StartAction::UseCached(s)
            } else {
                StartAction::TryRefresh(s.refresh_token)
            }
        },
        Option::None => StartAction::PasswordGrant,
    }
}

/// A response body, as far as the caller could parse it.
#[derive(Debug)]
pub enum ResponseBody {
    /// A well-formed token response.
    Token(TokenData),
    /// A well-formed multi-factor challenge demand.
    Mfa(MFAToken),
    /// Anything that parsed as neither; carries the parse failure text.
    Invalid(String),
}

/// The outcome of the password-grant exchange.
#[derive(Debug)]
pub enum PasswordOutcome {
    Authenticated(N26),
    /// Multi-factor approval is demanded; carries the challenge token.
    MfaRequired(String),
    Fatal(ErrorKind),
}

/// Decide the password-grant response: a success status with a token body
/// authenticates directly; the provider-specific rejection (status 403
/// with error `mfa_required`) demands multi-factor approval; every other
/// rejection, and every malformed body, is fatal.
pub fn on_password_response(status: u16, body: ResponseBody, now: i64) -> (r: PasswordOutcome)
    ensures
        match r {
            PasswordOutcome::Authenticated(s) => 200 <= status < 300 && (body matches
                ResponseBody::Token(d) && s == spec_session(d, now as int)),
            PasswordOutcome::MfaRequired(t) => status == 403 && (body matches ResponseBody::Mfa(m)
                && m.error@ == "mfa_required"@ && t@ == m.mfa_token@),
            PasswordOutcome::Fatal(e) => {
                ||| (200 <= status < 300 && !(body is Token) && password_fatal_matches_body(
                    e,
                    body,
                ))
                ||| (status == 403 && (body matches ResponseBody::Mfa(m) && m.error@
                    != "mfa_required"@) && e == ErrorKind::N26AuthenticateNew)
                ||| (status == 403 && body is Token && e == ErrorKind::N26AuthenticateNew)
                ||| (status == 403 && (body matches ResponseBody::Invalid(m) && e
                    == ErrorKind::N26AuthenticateNewParse(m)))
                ||| (!(200 <= status < 300) && status != 403 && e
                    == ErrorKind::N26AuthenticateNew)
            },
        },
{
    if 200 <= status && status < 300 {
        match body {
            ResponseBody::Token(d) => PasswordOutcome::Authenticated(
                session_from_token_data(d, now),
            ),
            ResponseBody::Mfa(_) => PasswordOutcome::Fatal(ErrorKind::N26AuthenticateNew),
            ResponseBody::Invalid(m) => PasswordOutcome::Fatal(
                ErrorKind::N26AuthenticateNewParse(m),
            ),
        }
    } else if status == 403 {
        match body {
            ResponseBody::Mfa(m) => {
                if str_eq(m.error.as_str(), "mfa_required") {
                    PasswordOutcome::MfaRequired(m.mfa_token)
                } else {
                    PasswordOutcome::Fatal(ErrorKind::N26AuthenticateNew)
                }
            },
            ResponseBody::Token(_) => PasswordOutcome::Fatal(ErrorKind::N26AuthenticateNew),
            ResponseBody::Invalid(m) => PasswordOutcome::Fatal(
                ErrorKind::N26AuthenticateNewParse(m),
            ),
        }
    } else {
        PasswordOutcome::Fatal(ErrorKind::N26AuthenticateNew)
    }
}

/// Whether a fatal password-grant error on a success status matches the
/// body that caused it.
pub open spec fn password_fatal_matches_body(e: ErrorKind, body: ResponseBody) -> bool {
    match body {
        ResponseBody::Invalid(m) => e == ErrorKind::N26AuthenticateNewParse(m),
        _ => e == ErrorKind::N26AuthenticateNew,
    }
}

/// Decide the out-of-band challenge response: only status 201 lets the
/// poll begin; anything else is fatal.
pub fn on_challenge_response(status: u16) -> (r: Result<(), ErrorKind>)
    ensures
        status == 201 ==> r is Ok,
        status != 201 ==> r == Result::<(), ErrorKind>::Err(
            ErrorKind::N26AuthenticateMfaApproval,
        ),
{
    if status == 201 {
        Ok(())
    } else {
        Err(ErrorKind::N26AuthenticateMfaApproval)
    }
}

/// The bounded multi-factor poll: it counts the completion attempts made
/// and never allows a thirteenth.
#[derive(Debug, Clone, Copy, PartialEq, Eq, Structural)]
pub struct MfaPoll {
    pub attempts_made: u32,
}

/// What the poll does next.
#[derive(Debug, Clone, Copy, PartialEq, Eq, Structural)]
pub enum PollAction {
    /// Make a completion attempt after waiting this many seconds.
    Attempt { delay_secs: u32 },
    /// The attempt budget is spent: stop with a timeout.
    GiveUp,
}

impl MfaPoll {
    pub fn new() -> (r: MfaPoll)
        ensures
            r.attempts_made == 0,
    {
        MfaPoll { attempts_made: 0 }
    }

    /// The first attempt is immediate, the next eleven follow after a
    /// five-second wait each, and after the twelfth the poll gives up.
    pub open spec fn spec_next_action(self) -> PollAction {
        if self.attempts_made == 0 {
            PollAction::Attempt { delay_secs: 0 }
        } else if self.attempts_made < 12 {
            PollAction::Attempt { delay_secs: 5 }
        } else {
            PollAction::GiveUp
        }
    }

    pub fn next_action(&self) -> (a: PollAction)
        ensures
            a == self.spec_next_action(),
    {
        if self.attempts_made == 0 {
            PollAction::Attempt { delay_secs: 0 }
        } else if self.attempts_made < 12 {
            PollAction::Attempt { delay_secs: 5 }
        } else {
            PollAction::GiveUp
        }
    }

    /// Count one completion attempt; no attempt beyond the twelfth can be
    /// recorded.
    pub fn record_attempt(&mut self)
        requires
            old(self).attempts_made < 12,
        ensures
            final(self).attempts_made == old(self).attempts_made + 1,
    {
        self.attempts_made = self.attempts_made + 1;
    }
}

/// The poll state after `k` failed completion attempts from a fresh poll.
pub open spec fn spec_poll_after_failures(k: nat) -> MfaPoll
    decreases k,
{
    if k == 0 {
        MfaPoll { attempts_made: 0 }
    } else if spec_poll_after_failures((k - 1) as nat).spec_next_action() is Attempt {
        MfaPoll { attempts_made: (spec_poll_after_failures((k - 1) as nat).attempts_made + 1) as u32 }
    } else {
        spec_poll_after_failures((k - 1) as nat)
    }
}

/// The poll bound: a completion endpoint that never succeeds is tried
/// exactly twelve times — the first immediately, each later one after a
/// five-second wait — and then the poll gives up; no thirteenth attempt
/// happens, however long the failures continue.
pub proof fn lemma_mfa_poll_bound(k: nat)
    ensures
        spec_poll_after_failures(k).attempts_made == if k < 12 {
            k as int
        } else {
            12int
        },
        k < 12 ==> spec_poll_after_failures(k).spec_next_action() == (PollAction::Attempt {
            delay_secs: if k == 0 {
                0u32
            } else {
                5u32
            },
        }),
        k >= 12 ==> spec_poll_after_failures(k).spec_next_action() == PollAction::GiveUp,
    decreases k,
{
    if k > 0 {
        lemma_mfa_poll_bound((k - 1) as nat);
    }
}

/// Decide one completion response: a success status with a token body
/// authenticates; everything else is a failed attempt, reported with the
/// completion error that caused it, and the poll may retry it while its
/// budget lasts.
pub fn on_completion_response(status: u16, body: ResponseBody, now: i64) -> (r: Result<
    N26,
    ErrorKind,
>)
    ensures
        match r {
            Ok(s) => status == 200 && (body matches ResponseBody::Token(d) && s == spec_session(
                d,
                now as int,
            )),
            Err(e) => {
                ||| (status == 200 && (body matches ResponseBody::Invalid(m) && e
                    == ErrorKind::N26AuthenticateCompleteMFAParse(m)))
                ||| (status == 200 && body is Mfa && e
                    == ErrorKind::N26AuthenticateCompleteMFA)
                ||| (status != 200 && e == ErrorKind::N26AuthenticateCompleteMFA)
            },
        },
{
    if status == 200 {
        match body {
            ResponseBody::Token(d) => Ok(session_from_token_data(d, now)),
            ResponseBody::Mfa(_) => Err(ErrorKind::N26AuthenticateCompleteMFA),
            ResponseBody::Invalid(m) => Err(ErrorKind::N26AuthenticateCompleteMFAParse(m)),
        }
    } else {
        Err(ErrorKind::N26AuthenticateCompleteMFA)
    }
}

/// The outcome of a refresh-grant exchange.
#[derive(Debug)]
pub enum RefreshOutcome {
    Refreshed(N26),
    /// The refresh token was rejected: restart with the password grant.
    FallbackToPassword,
    Fatal(ErrorKind),
}

/// Decide the refresh-grant response: a 403 rejection restarts the full
/// password grant; any other status must carry a token body, and a
/// malformed one is fatal.
pub fn on_refresh_response(status: u16, body: ResponseBody, now: i64) -> (r: RefreshOutcome)
    ensures
        match r {
            RefreshOutcome::Refreshed(s) => status != 403 && (body matches ResponseBody::Token(d)
                && s == spec_session(d, now as int)),
            RefreshOutcome::FallbackToPassword => status == 403,
            RefreshOutcome::Fatal(e) => status != 403 && match body {
                ResponseBody::Invalid(m) => e == ErrorKind::N26AuthenticateRefreshTokenParse(m),
                ResponseBody::Mfa(_) => e == ErrorKind::N26AuthenticateRefreshToken,
                ResponseBody::Token(_) => false,
            },
        },
{
    if status == 403 {
        RefreshOutcome::FallbackToPassword
    } else {
        match body {
            ResponseBody::Token(d) => RefreshOutcome::Refreshed(session_from_token_data(d, now)),
            ResponseBody::Mfa(_) => RefreshOutcome::Fatal(ErrorKind::N26AuthenticateRefreshToken),
            ResponseBody::Invalid(m) => RefreshOutcome::Fatal(
                ErrorKind::N26AuthenticateRefreshTokenParse(m),
            ),
        }
    }
}

/// The epoch-millisecond window for a transactions query reaching back the
/// given number of days from now; rejected when the inputs would overflow
/// the arithmetic.
pub fn transaction_window(now_millis: i64, days: i64) -> (r: Option<(i64, i64)>)
    ensures
        match r {
            Option::Some(w) => {
                &&& 0 <= now_millis
                &&& 0 <= days <= 100000
                &&& w.0 == now_millis - days * 86400000
                &&& w.1 == now_millis
            },
            Option::None => !(0 <= now_millis && 0 <= days <= 100000),
        },
{
    if now_millis < 0 || days < 0 || days > 100000 {
        return Option::None;
    }
    Option::Some((now_millis - days * 86400000, now_millis))
}

} // verus!
