use ynab_sync::n26::{
    decide_start, on_challenge_response, on_completion_response, on_password_response,
    on_refresh_response, session_from_token_data, transaction_window, MFAToken, MfaPoll,
    PasswordOutcome, PollAction, RefreshOutcome, ResponseBody, StartAction, TokenData, N26,
};
use ynab_sync::ErrorKind;

fn token_data(expires_in: i64) -> TokenData {
    TokenData {
        access_token: "acc".to_string(),
        token_type: "bearer".to_string(),
        refresh_token: "ref".to_string(),
        expires_in,
    }
}

fn session(expiration_time: i64) -> N26 {
    N26 {
        expiration_time,
        access_token: "acc".to_string(),
        refresh_token: "ref".to_string(),
    }
}

#[test]
fn twelve_attempts_then_give_up() {
    // a completion endpoint that never succeeds
    let mut poll = MfaPoll::new();
    let mut attempts = 0;
    let mut delays = Vec::new();
    loop {
        match poll.next_action() {
            PollAction::Attempt { delay_secs } => {
                delays.push(delay_secs);
                attempts += 1;
                assert!(attempts <= 12, "a thirteenth attempt was allowed");
                poll.record_attempt();
            }
            PollAction::GiveUp => break,
        }
    }
    assert_eq!(attempts, 12);
    assert_eq!(delays[0], 0);
    assert!(delays[1..].iter().all(|d| *d == 5));
    assert_eq!(delays.len(), 12);
    assert_eq!(poll.next_action(), PollAction::GiveUp);
}

#[test]
fn first_success_stops_the_poll() {
    let mut poll = MfaPoll::new();
    assert!(matches!(poll.next_action(), PollAction::Attempt { delay_secs: 0 }));
    poll.record_attempt();
    let r = on_completion_response(200, ResponseBody::Token(token_data(60)), 1000);
    assert!(r.is_ok());
}

#[test]
fn completion_failures_carry_the_completion_error() {
    let r = on_completion_response(500, ResponseBody::Invalid("x".to_string()), 0);
    assert!(matches!(r, Err(ErrorKind::N26AuthenticateCompleteMFA)));
    let r2 = on_completion_response(200, ResponseBody::Invalid("bad json".to_string()), 0);
    assert!(matches!(r2, Err(ErrorKind::N26AuthenticateCompleteMFAParse(_))));
}

#[test]
fn completion_success_builds_the_session() {
    let r = on_completion_response(200, ResponseBody::Token(token_data(1800)), 1000);
    let s = r.unwrap();
    assert_eq!(s.expiration_time, 2800);
    assert_eq!(s.access_token, "acc");
    assert_eq!(s.refresh_token, "ref");
}

#[test]
fn unexpired_cache_is_reused_without_network() {
    let r = decide_start(Some(session(2000)), 1000);
    match r {
        StartAction::UseCached(s) => assert_eq!(s.expiration_time, 2000),
        _ => panic!("expected the cached session to be reused"),
    }
}

#[test]
fn expired_cache_leads_to_a_refresh_attempt() {
    let r = decide_start(Some(session(1000)), 1000);
    match r {
        StartAction::TryRefresh(t) => assert_eq!(t, "ref"),
        _ => panic!("expected a refresh attempt"),
    }
}

#[test]
fn no_cache_leads_to_the_password_grant() {
    assert!(matches!(decide_start(None, 1000), StartAction::PasswordGrant));
}

#[test]
fn password_rejection_with_mfa_demand() {
    let body = ResponseBody::Mfa(MFAToken {
        error: "mfa_required".to_string(),
        mfa_token: "tok-1".to_string(),
    });
    match on_password_response(403, body, 0) {
        PasswordOutcome::MfaRequired(t) => assert_eq!(t, "tok-1"),
        _ => panic!("expected the multi-factor path"),
    }
}

#[test]
fn password_rejection_without_mfa_demand_is_fatal() {
    let body = ResponseBody::Mfa(MFAToken {
        error: "invalid_grant".to_string(),
        mfa_token: "tok-1".to_string(),
    });
    assert!(matches!(
        on_password_response(403, body, 0),
        PasswordOutcome::Fatal(ErrorKind::N26AuthenticateNew)
    ));
    assert!(matches!(
        on_password_response(500, ResponseBody::Invalid("x".to_string()), 0),
        PasswordOutcome::Fatal(ErrorKind::N26AuthenticateNew)
    ));
    assert!(matches!(
        on_password_response(403, ResponseBody::Invalid("bad".to_string()), 0),
        PasswordOutcome::Fatal(ErrorKind::N26AuthenticateNewParse(_))
    ));
}

#[test]
fn direct_password_success_authenticates() {
    match on_password_response(200, ResponseBody::Token(token_data(60)), 100) {
        PasswordOutcome::Authenticated(s) => assert_eq!(s.expiration_time, 160),
        _ => panic!("expected direct authentication"),
    }
}

#[test]
fn challenge_needs_status_201() {
    assert!(on_challenge_response(201).is_ok());
    assert!(matches!(
        on_challenge_response(200),
        Err(ErrorKind::N26AuthenticateMfaApproval)
    ));
    assert!(matches!(
        on_challenge_response(500),
        Err(ErrorKind::N26AuthenticateMfaApproval)
    ));
}

#[test]
fn refresh_rejection_falls_back_to_the_password_grant() {
    assert!(matches!(
        on_refresh_response(403, ResponseBody::Invalid("ignored".to_string()), 0),
        RefreshOutcome::FallbackToPassword
    ));
}

#[test]
fn refresh_success_and_parse_failure() {
    match on_refresh_response(200, ResponseBody::Token(token_data(60)), 40) {
        RefreshOutcome::Refreshed(s) => assert_eq!(s.expiration_time, 100),
        _ => panic!("expected a refreshed session"),
    }
    assert!(matches!(
        on_refresh_response(500, ResponseBody::Invalid("bad".to_string()), 0),
        RefreshOutcome::Fatal(ErrorKind::N26AuthenticateRefreshTokenParse(_))
    ));
}

#[test]
fn unexpected_bodies_are_fatal() {
    let mfa = |t: &str| {
        ResponseBody::Mfa(MFAToken { error: "mfa_required".to_string(), mfa_token: t.to_string() })
    };
    assert!(matches!(
        on_refresh_response(200, mfa("t"), 0),
        RefreshOutcome::Fatal(ErrorKind::N26AuthenticateRefreshToken)
    ));
    assert!(matches!(
        on_password_response(403, ResponseBody::Token(token_data(60)), 0),
        PasswordOutcome::Fatal(ErrorKind::N26AuthenticateNew)
    ));
    assert!(matches!(
        on_completion_response(200, mfa("t"), 0),
        Err(ErrorKind::N26AuthenticateCompleteMFA)
    ));
}

#[test]
fn session_validity_is_strict() {
    assert!(session(1001).valid_at(1000));
    assert!(!session(1000).valid_at(1000));
    assert!(!session(999).valid_at(1000));
}

#[test]
fn expiry_saturates_at_the_integer_bounds() {
    let s = session_from_token_data(token_data(i64::MAX), 10);
    assert_eq!(s.expiration_time, i64::MAX);
    let t = session_from_token_data(token_data(60), 100);
    assert_eq!(t.expiration_time, 160);
}

#[test]
fn transaction_windows_count_back_in_days() {
    assert_eq!(
        transaction_window(1672531200000, 30),
        Some((1672531200000 - 30 * 86400000, 1672531200000))
    );
    assert_eq!(transaction_window(-1, 3), None);
    assert_eq!(transaction_window(1000, -1), None);
    assert_eq!(transaction_window(1000, 100001), None);
}
