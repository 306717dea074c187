//! The tokens a Kmart session holds, and how they are renewed.
//!
//! Renewal is cheap: `offline_access` means a lapsed token is one POST away
//! from a fresh one. The password is only needed when the refresh token
//! itself is refused.

use vstd::prelude::*;
use crate::kmart::error::Error;
use crate::text::{opt_str, owned};

verus! {

/// An access token, the refresh token that renews it where there is one,
/// and when it lapses.
#[derive(Debug)]
pub struct Tokens {
    pub access: String,
    pub refresh: Option<String>,
    pub expires_at: Option<u64>,
}

/// The first move of a renewal, cheapest first.
#[derive(Debug)]
pub enum RenewStep {
    /// The tokens held have not lapsed: use them.
    Use,
    /// They have, and carry a refresh token: ask for a fresh grant with it.
    Refresh(String),
    /// There is nothing to refresh with: sign in.
    SignIn,
}

/// Where a renewal starts, given the tokens held and whether they have
/// lapsed.
pub fn renew_step(held: &Option<Tokens>, lapsed: bool) -> (step: RenewStep)
    ensures
        held is Some && !lapsed ==> step is Use,
        held is Some && lapsed && held->0.refresh is Some ==> (step matches RenewStep::Refresh(r)
            && Some(r@) == opt_str(held->0.refresh)),
        !(held is Some && !lapsed) && !(held is Some && lapsed && held->0.refresh is Some) ==> step is SignIn,
{
    match held {
        Some(t) => {
            if !lapsed {
                return RenewStep::Use;
            }
            match &t.refresh {
                Some(r) => RenewStep::Refresh(owned(r.as_str())),
                None => RenewStep::SignIn,
            }
        },
        None => RenewStep::SignIn,
    }
}

/// A fresh grant, keeping the refresh token it was asked with where it
/// brought none: Auth0 may or may not rotate it, and keeping the old one is
/// the difference between a session that renews forever and one that dies
/// in fifteen minutes.
pub fn refreshed(fresh: Tokens, old_refresh: &str) -> (t: Tokens)
    ensures
        t.access@ == fresh.access@,
        t.expires_at == fresh.expires_at,
        opt_str(t.refresh) == match fresh.refresh {
            Some(r) => Some(r@),
            None => Some(old_refresh@),
        },
{
    match fresh.refresh {
        Some(r) => Tokens { access: fresh.access, refresh: Some(r), expires_at: fresh.expires_at },
        None => Tokens { access: fresh.access, refresh: Some(owned(old_refresh)), expires_at: fresh.expires_at },
    }
}

/// What a refused refresh comes to: the end of the road without a password
/// to sign in with, and a sign-in with one.
pub fn refresh_refused(e: Error, can_sign_in: bool) -> (r: Result<(), Error>)
    ensures
        can_sign_in ==> r is Ok,
        !can_sign_in ==> r == Err::<(), Error>(e),
{
    if can_sign_in {
        Ok(())
    } else {
        Err(e)
    }
}

/// The dead end of a renewal: the same whether there are no credentials or
/// a named password has nothing behind it. A session was held and has
/// lapsed, or there never was one.
pub fn unrenewable(held: bool) -> (e: Error)
    ensures
        held ==> e is SessionExpired,
        !held ==> e is NotSignedIn,
{
    if held {
        Error::SessionExpired
    } else {
        Error::NotSignedIn
    }
}

/// The password a renewal signs in with: none to sign in with, or none
/// behind the source, is the dead end.
pub fn sign_in_password(held: bool, can_sign_in: bool, password: Option<String>) -> (r: Result<String, Error>)
    ensures
        can_sign_in && password is Some ==> (r matches Ok(p) && p@ == password->0@),
        !(can_sign_in && password is Some) ==> (r matches Err(e) && (held ==> e is SessionExpired) && (!held
            ==> e is NotSignedIn)),
{
    if !can_sign_in {
        return Err(unrenewable(held));
    }
    match password {
        Some(p) => Ok(p),
        None => Err(unrenewable(held)),
    }
}

} // verus!
