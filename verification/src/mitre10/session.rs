//! What is worth keeping between runs: two tokens, earned once and refreshed
//! forever. The refresh token comes from one sign-in with a password and
//! lasts until it is revoked; the access token is minted from it and lasts
//! `expires_in`, three hours. Only the refresh token is precious.

use vstd::prelude::*;
use crate::net_kit::jwt::{claim_of, claim_str, expiry_ms, expiry_of, fresh_at, fresh_at_exec, now_ms};
use crate::text::{chars_of, extend_str, opt_str, string_of};

verus! {

/// How long before its expiry a token stops counting as fresh, in
/// milliseconds.
pub const SKEW_MS: u64 = 60_000;

/// How long an access token is taken to last when nothing says, in seconds.
pub const ASSUMED_LIFETIME_SECS: u64 = 3 * 60 * 60;

/// Where the session is filed in the credential store.
pub const ACCOUNT: &'static str = "session";

/// The tokens a request is made with.
#[derive(Clone, Debug)]
pub struct Session {
    pub access_token: Option<String>,
    pub refresh_token: Option<String>,
    /// When the access token expires, in milliseconds since the epoch.
    pub expires_at: Option<u64>,
    pub email: Option<String>,
}

/// Whether a session's bearer is good at `now`: one with a known expiry is
/// good until shortly before it, and one whose expiry cannot be read is
/// worth one attempt.
pub open spec fn fresh_session(s: Session, now: u64) -> bool {
    match (s.access_token, s.expires_at) {
        (Some(_), Some(at)) => fresh_at(at, SKEW_MS, now),
        (Some(_), None) => true,
        _ => false,
    }
}

/// When a new access token expires, read at `now`: what the token says, or
/// else `expires_in` seconds (three hours when that is missing) from now.
pub open spec fn expiry_after(access: Seq<char>, expires_in: Option<u64>, now: u64) -> u64 {
    match expiry_of(access) {
        Some(at) => at,
        None => {
            let secs = match expires_in {
                Some(s) => s,
                None => ASSUMED_LIFETIME_SECS,
            };
            let ms = if secs * 1000 > u64::MAX {
                u64::MAX as int
            } else {
                secs * 1000
            };
            if now + ms > u64::MAX {
                u64::MAX
            } else {
                (now + ms) as u64
            }
        },
    }
}

impl Session {
    /// No tokens and no email.
    pub fn empty() -> (s: Session)
        ensures
            s.access_token is None,
            s.refresh_token is None,
            s.expires_at is None,
            s.email is None,
    {
        Session { access_token: None, refresh_token: None, expires_at: None, email: None }
    }

    /// Whether the bearer is good at a given moment, in milliseconds.
    pub fn token_fresh_at(&self, now: u64) -> (r: bool)
        ensures
            r == fresh_session(*self, now),
    {
        match (&self.access_token, self.expires_at) {
            (Some(_), Some(at)) => fresh_at_exec(at, SKEW_MS, now),
            (Some(_), None) => true,
            _ => false,
        }
    }

    /// Whether the bearer is good now.
    pub fn token_fresh(&self) -> (r: bool)
        ensures
            exists|now: u64| r == fresh_session(*self, now),
    {
        let now = now_ms();
        self.token_fresh_at(now)
    }

    /// Whether a new bearer can be minted without a password.
    pub fn can_refresh(&self) -> (r: bool)
        ensures
            r == self.refresh_token is Some,
    {
        self.refresh_token.is_some()
    }

    /// The `Authorization` header value, where there is a bearer.
    pub fn bearer(&self) -> (r: Option<String>)
        ensures
            opt_str(r) == match self.access_token {
                Some(t) => Some("Bearer "@ + t@),
                None => None,
            },
    {
        match &self.access_token {
            Some(t) => {
                let mut v = chars_of("Bearer ");
                extend_str(&mut v, t.as_str());
                Some(string_of(&v))
            },
            None => None,
        }
    }

    /// Take what a token exchange answered, at a given moment. The
    /// storefront reissues a refresh token on every exchange, but one that
    /// answers without must not clear the one that worked; and the email is
    /// the token's subject where it names one.
    pub fn set_tokens_at(
        &mut self,
        access: String,
        refresh: Option<String>,
        expires_in: Option<u64>,
        now: u64,
    )
        ensures
            final(self).access_token matches Some(a) && a@ == access@,
            final(self).expires_at == Some(expiry_after(access@, expires_in, now)),
            refresh is Some ==> final(self).refresh_token == refresh,
            refresh is None ==> final(self).refresh_token == old(self).refresh_token,
            opt_str(final(self).email) == match claim_of(access@, "sub"@) {
                Some(sub) => Some(sub),
                None => opt_str(old(self).email),
            },
    {
        let at = match expiry_ms(access.as_str()) {
            Some(at) => at,
            None => {
                let secs = match expires_in {
                    Some(s) => s,
                    None => ASSUMED_LIFETIME_SECS,
                };
                let ms: u64 = if secs > u64::MAX / 1000 {
                    u64::MAX
                } else {
                    secs * 1000
                };
                if ms > u64::MAX - now {
                    u64::MAX
                } else {
                    now + ms
                }
            },
        };
        self.expires_at = Some(at);
        if refresh.is_some() {
            self.refresh_token = refresh;
        }
        match claim_str(access.as_str(), "sub") {
            Some(sub) => self.email = Some(sub),
            None => {},
        }
        self.access_token = Some(access);
    }

    /// Take what a token exchange answered, now.
    pub fn set_tokens(&mut self, access: String, refresh: Option<String>, expires_in: Option<u64>)
        ensures
            final(self).access_token matches Some(a) && a@ == access@,
            exists|now: u64| final(self).expires_at == Some(expiry_after(access@, expires_in, now)),
            refresh is Some ==> final(self).refresh_token == refresh,
            refresh is None ==> final(self).refresh_token == old(self).refresh_token,
            opt_str(final(self).email) == match claim_of(access@, "sub"@) {
                Some(sub) => Some(sub),
                None => opt_str(old(self).email),
            },
    {
        let now = now_ms();
        self.set_tokens_at(access, refresh, expires_in, now);
    }

    /// Forget the bearer, keeping the token that can mint another: a 401
    /// must not cost the sign-in.
    pub fn clear_token(&mut self)
        ensures
            final(self).access_token is None,
            final(self).expires_at is None,
            final(self).refresh_token == old(self).refresh_token,
            final(self).email == old(self).email,
    {
        self.access_token = None;
        self.expires_at = None;
    }
}

impl Default for Session {
    /// No tokens and no email.
    fn default() -> (s: Session)
        ensures
            s.access_token is None,
            s.refresh_token is None,
            s.expires_at is None,
            s.email is None,
    {
        Session::empty()
    }
}

/// A session as it is filed.
#[derive(Clone, Debug)]
pub struct StoredSession {
    pub session: Session,
}

impl StoredSession {
    /// The session that was filed.
    pub fn session(&self) -> (s: Session)
        ensures
            opt_str(s.access_token) == opt_str(self.session.access_token),
            opt_str(s.refresh_token) == opt_str(self.session.refresh_token),
            s.expires_at == self.session.expires_at,
            opt_str(s.email) == opt_str(self.session.email),
    {
        Session {
            access_token: copy_opt(&self.session.access_token),
            refresh_token: copy_opt(&self.session.refresh_token),
            expires_at: self.session.expires_at,
            email: copy_opt(&self.session.email),
        }
    }
}

/// A copy of an optional string.
fn copy_opt(o: &Option<String>) -> (r: Option<String>)
    ensures
        opt_str(r) == opt_str(*o),
{
    match o {
        Some(s) => Some(s.clone()),
        None => None,
    }
}

/// Clearing the bearer never costs the sign-in: whatever could refresh
/// before can refresh after.
pub proof fn lemma_clearing_keeps_refresh(before: Session, after: Session)
    requires
        after.refresh_token == before.refresh_token,
        after.access_token is None,
    ensures
        (after.refresh_token is Some) == (before.refresh_token is Some),
        !fresh_session(after, 0),
{
}

/// A fresh bearer from an exchange is fresh at the moment it was taken,
/// unless what it says of itself is already past: an unreadable one is
/// worth one attempt, and one that expires `expires_in` from now has more
/// than the skew to spare when `expires_in` does.
pub proof fn lemma_new_bearer_is_fresh(s: Session, access: Seq<char>, expires_in: u64, now: u64)
    requires
        expiry_of(access) is None,
        s.access_token is Some,
        s.expires_at == Some(expiry_after(access, Some(expires_in), now)),
        expires_in * 1000 > SKEW_MS,
        now + expires_in * 1000 <= u64::MAX,
    ensures
        fresh_session(s, now),
{
}

} // verus!
