//! The Club Plus login as this crate keeps it: the credential blob and what
//! it says about its own freshness.

use vstd::prelude::*;
use crate::net_kit::jwt::{expiry_ms, expiry_of, fresh_at, fresh_at_exec, now_ms};
use crate::text::{chars_of, extend, extend_str, opt_str, string_of};

verus! {

/// Where the login is filed in the credential store.
pub const ACCOUNT: &'static str = "clubplus";

/// How long before its expiry a token stops counting as fresh, in
/// milliseconds.
pub const SKEW_MS: u64 = 60_000;

/// The tokens a request is made with.
#[derive(Clone)]
pub struct Session {
    pub access_token: String,
    pub refresh_token: Option<String>,
}

/// How a session describes itself: never a token.
pub open spec fn session_text(has_refresh: bool) -> Seq<char> {
    "Session { access_token: <redacted>, refresh_token: "@ + if has_refresh {
        "Some(<redacted>)"@
    } else {
        "None"@
    } + " }"@
}

impl Session {
    /// What the session says of itself: that it has tokens, never what they
    /// are.
    pub fn describe(&self) -> (r: String)
        ensures
            r@ == session_text(self.refresh_token is Some),
    {
        let mut v = chars_of("Session { access_token: <redacted>, refresh_token: ");
        if self.refresh_token.is_some() {
            extend_str(&mut v, "Some(<redacted>)");
        } else {
            extend_str(&mut v, "None");
        }
        extend_str(&mut v, " }");
        string_of(&v)
    }
}

/// A login as it is filed.
#[derive(Clone)]
pub struct StoredLogin {
    pub email: String,
    pub access_token: String,
    pub refresh_token: Option<String>,
    pub refreshed_at_ms: Option<u64>,
}

/// How a stored login describes itself: the email and when it was
/// refreshed, never a token.
pub open spec fn login_text(email: Seq<char>, refreshed: Option<u64>) -> Seq<char> {
    "StoredLogin { email: \""@ + email + "\", refreshed_at_ms: "@ + match refreshed {
        Some(ms) => "Some("@ + crate::text::decimal(ms as nat) + ")"@,
        None => "None"@,
    } + ", .. }"@
}

/// Whether a login whose token expires when `expiry` says is good at `now`.
pub open spec fn login_fresh(expiry: Option<u64>, now: u64) -> bool {
    match expiry {
        Some(at) => fresh_at(at, SKEW_MS, now),
        None => false,
    }
}

impl StoredLogin {
    /// The tokens to make requests with.
    pub fn session(&self) -> (s: Session)
        ensures
            s.access_token@ == self.access_token@,
            opt_str(s.refresh_token) == opt_str(self.refresh_token),
    {
        let refresh_token = match &self.refresh_token {
            Some(r) => Some(r.clone()),
            None => None,
        };
        Session { access_token: self.access_token.clone(), refresh_token }
    }

    /// When the access token expires, where it says.
    pub fn expires_at_ms(&self) -> (r: Option<u64>)
        ensures
            r == expiry_of(self.access_token@),
    {
        expiry_ms(self.access_token.as_str())
    }

    /// Whether the access token is good at a given moment; one whose expiry
    /// cannot be read is not.
    pub fn is_fresh_at(&self, now: u64) -> (r: bool)
        ensures
            r == login_fresh(expiry_of(self.access_token@), now),
    {
        match self.expires_at_ms() {
            Some(at) => fresh_at_exec(at, SKEW_MS, now),
            None => false,
        }
    }

    /// Whether the access token is good now.
    pub fn is_fresh(&self) -> (r: bool)
        ensures
            exists|now: u64| r == login_fresh(expiry_of(self.access_token@), now),
    {
        let now = now_ms();
        self.is_fresh_at(now)
    }

    /// Whether a lapsed login can be renewed without a password.
    pub fn can_renew(&self) -> (r: bool)
        ensures
            r == self.refresh_token is Some,
    {
        self.refresh_token.is_some()
    }

    /// What the login says of itself: the email and when it was refreshed,
    /// never a token.
    pub fn describe(&self) -> (r: String)
        ensures
            r@ == login_text(self.email@, self.refreshed_at_ms),
    {
        let mut v = chars_of("StoredLogin { email: \"");
        extend_str(&mut v, self.email.as_str());
        extend_str(&mut v, "\", refreshed_at_ms: ");
        match self.refreshed_at_ms {
            Some(ms) => {
                extend_str(&mut v, "Some(");
                let d = crate::text::decimal_exec(ms);
                extend(&mut v, &d);
                extend_str(&mut v, ")");
            },
            None => extend_str(&mut v, "None"),
        }
        extend_str(&mut v, ", .. }");
        string_of(&v)
    }
}

/// A session to make requests with, and whether it had to be renewed to
/// get it.
pub struct ActiveSession {
    pub session: Session,
    pub renewed: bool,
}

/// What getting a session to make requests with does first.
pub enum Renewal {
    /// Nothing is filed: the caller is not logged in.
    NotLoggedIn,
    /// The filed session is good; hand it back unrenewed.
    Use(Session),
    /// Spend the filed refresh token. If it is refused, the refusal is kept
    /// and a password is the way on.
    Refresh(String),
    /// There is no refresh token: only a password signs in again.
    SignIn,
}

/// The step past a filed session that cannot be used as it is: its refresh
/// token where it has one, a password where it has not.
pub open spec fn renewing(l: StoredLogin, r: Renewal) -> bool {
    match l.refresh_token {
        Some(t) => r matches Renewal::Refresh(u) && u@ == t@,
        None => r is SignIn,
    }
}

/// Handing back the filed session as it is.
pub open spec fn using(l: StoredLogin, r: Renewal) -> bool {
    r matches Renewal::Use(s) && s.access_token@ == l.access_token@ && opt_str(s.refresh_token)
        == opt_str(l.refresh_token)
}

/// The first step of getting a session at `now`: nothing filed is not
/// logged in; a fresh filed session is used unless a renewal is forced;
/// otherwise the refresh token is spent where there is one, and a password
/// is asked for where there is not.
pub fn renewal_at(stored: Option<&StoredLogin>, force: bool, now: u64) -> (r: Renewal)
    ensures
        stored is None ==> r is NotLoggedIn,
        stored matches Some(l) ==> if !force && login_fresh(expiry_of(l.access_token@), now) {
            using(*l, r)
        } else {
            renewing(*l, r)
        },
{
    let l = match stored {
        Some(l) => l,
        None => return Renewal::NotLoggedIn,
    };
    if !force && l.is_fresh_at(now) {
        return Renewal::Use(l.session());
    }
    match &l.refresh_token {
        Some(t) => Renewal::Refresh(t.clone()),
        None => Renewal::SignIn,
    }
}

/// The first step of getting a session now, by the clock: as
/// [`renewal_at`] says for the moment the clock gave.
pub fn renewal(stored: Option<&StoredLogin>, force: bool) -> (r: Renewal)
    ensures
        stored is None ==> r is NotLoggedIn,
        stored matches Some(l) ==> exists|now: u64|
            if !force && #[trigger] login_fresh(expiry_of(l.access_token@), now) {
                using(*l, r)
            } else {
                renewing(*l, r)
            },
{
    let now = now_ms();
    renewal_at(stored, force, now)
}

} // verus!
