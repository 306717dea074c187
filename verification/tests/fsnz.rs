use base64::Engine;
use shopping_apis::fsnz::auth::session::{renewal, renewal_at, Renewal, Session, StoredLogin};
use shopping_apis::net_kit::jwt::now_ms;

fn login(refreshed: Option<u64>) -> StoredLogin {
    StoredLogin {
        email: "shopper@example.test".into(),
        access_token: "secret-access".into(),
        refresh_token: Some("secret-refresh".into()),
        refreshed_at_ms: refreshed,
    }
}

#[test]
fn a_stored_login_does_not_print_its_tokens() {
    let text = login(None).describe();
    assert!(text.contains("shopper@example.test"));
    assert!(!text.contains("secret-access"), "{text}");
    assert!(!text.contains("secret-refresh"), "{text}");
}

#[test]
fn a_session_does_not_print_its_tokens() {
    let session = Session {
        access_token: "secret-access".into(),
        refresh_token: Some("secret-refresh".into()),
    };
    let text = session.describe();
    assert!(!text.contains("secret-access"), "{text}");
    assert!(!text.contains("secret-refresh"), "{text}");
    assert!(text.contains("redacted"), "{text}");
}

#[test]
fn a_stored_login_says_when_it_was_refreshed() {
    assert_eq!(
        login(Some(42)).describe(),
        "StoredLogin { email: \"shopper@example.test\", refreshed_at_ms: Some(42), .. }"
    );
    let bare = Session { access_token: "a".into(), refresh_token: None };
    assert_eq!(bare.describe(), "Session { access_token: <redacted>, refresh_token: None }");
}

#[test]
fn a_login_hands_over_its_tokens_and_renews_only_with_a_refresh_token() {
    let l = login(None);
    let s = l.session();
    assert_eq!(s.access_token, "secret-access");
    assert_eq!(s.refresh_token.as_deref(), Some("secret-refresh"));
    assert!(l.can_renew());
    let mut no_refresh = login(None);
    no_refresh.refresh_token = None;
    assert!(!no_refresh.can_renew());
}

#[test]
fn an_unreadable_token_is_stale() {
    let l = login(None);
    assert_eq!(l.expires_at_ms(), None);
    assert!(!l.is_fresh_at(0));
    assert!(!l.is_fresh());
}

#[test]
fn a_readable_token_is_fresh_until_a_minute_before_it_expires() {
    // {"alg":"none"} . {"exp":1700000000}
    let mut l = login(None);
    l.access_token = "eyJhbGciOiJub25lIn0.eyJleHAiOjE3MDAwMDAwMDB9.sig".into();
    assert_eq!(l.expires_at_ms(), Some(1_700_000_000_000));
    assert!(l.is_fresh_at(1_700_000_000_000 - 60_001));
    assert!(!l.is_fresh_at(1_700_000_000_000 - 60_000));
}

/// An unsigned token that expires at `exp`, in seconds.
fn jwt(exp: u64) -> String {
    let b64 = base64::engine::general_purpose::URL_SAFE_NO_PAD;
    format!("{}.{}.sig", b64.encode(r#"{"alg":"none"}"#), b64.encode(format!(r#"{{"exp":{exp}}}"#)))
}

fn token_login(access_token: String) -> StoredLogin {
    StoredLogin { access_token, refresh_token: None, ..login(None) }
}

#[test]
fn freshness_is_read_off_the_token_and_an_unreadable_one_is_stale() {
    let future = now_ms() / 1000 + 3600;
    assert!(token_login(jwt(future)).is_fresh());
    assert!(!token_login(jwt(1)).is_fresh(), "expired");
    assert!(!token_login("not-a-jwt".into()).is_fresh(), "unreadable counts as stale so the renewal path runs");
}

#[test]
fn a_fresh_login_is_used_as_it_is_and_a_stale_one_spends_its_refresh_token() {
    // {"alg":"none"} . {"exp":1700000000}
    let mut l = login(None);
    l.access_token = "eyJhbGciOiJub25lIn0.eyJleHAiOjE3MDAwMDAwMDB9.sig".into();
    let before = 1_700_000_000_000 - 120_000;
    match renewal_at(Some(&l), false, before) {
        Renewal::Use(s) => assert_eq!(s.refresh_token.as_deref(), Some("secret-refresh")),
        _ => panic!("a fresh login is used"),
    }
    assert!(matches!(renewal_at(Some(&l), true, before), Renewal::Refresh(t) if t == "secret-refresh"));
    assert!(matches!(renewal_at(Some(&l), false, 1_700_000_000_000), Renewal::Refresh(_)));
    l.refresh_token = None;
    assert!(matches!(renewal_at(Some(&l), false, 1_700_000_000_000), Renewal::SignIn));
    assert!(matches!(renewal_at(None, false, 0), Renewal::NotLoggedIn));
}

#[test]
fn an_unreadable_token_is_renewed_whatever_the_clock_says() {
    let l = login(None);
    assert!(matches!(renewal(Some(&l), false), Renewal::Refresh(t) if t == "secret-refresh"));
    assert!(matches!(renewal(None, true), Renewal::NotLoggedIn));
}
