//! How this client presents itself.
//!
//! The bot manager scores the TLS handshake and the HTTP/2 settings as well
//! as the headers, so the transport emulates a browser at every layer. Which
//! browser is a profile of the HTTP client crate; this module only picks one
//! by name, for the `FMNZ_EMULATION` escape hatch.

use vstd::prelude::*;
use crate::net_kit::http::ClientSpec;
use crate::text::{alnum_lower, find_named, first_named, str_views};

verus! {

/// The profile this client presents as unless told otherwise.
pub const EMULATION: &'static str = "Firefox139";

/// A profile by name, among the names the HTTP client crate gives its
/// profiles. Punctuation and case are ignored, so `Firefox_139` and
/// `FIREFOX-139` both find `Firefox139`; an unknown name is `None` rather
/// than a silent default.
pub fn profile(name: &str, profiles: &[&'static str]) -> (r: Option<&'static str>)
    ensures
        r matches Some(n) ==> first_named(str_views(profiles@), alnum_lower(name@), 0) matches Some(
            i,
        ) && n@ == profiles@[i]@,
        r is None ==> first_named(str_views(profiles@), alnum_lower(name@), 0) is None,
{
    find_named(name, profiles)
}

/// The client, presenting as [`EMULATION`] and **not following redirects**:
/// the sign-in POST answers `302` to `/account`, and that redirect is the
/// success signal, which following it would lose; and the cookies are carried
/// by hand, so a followed redirect would replay the request without the
/// cookies the first hop set.
pub fn client_spec() -> (c: ClientSpec)
    ensures
        c.profile == EMULATION,
        !c.follows_redirects,
{
    client_spec_for(EMULATION)
}

/// The same client, presenting as some other browser.
pub fn client_spec_for(profile: &'static str) -> (c: ClientSpec)
    ensures
        c.profile == profile,
        !c.follows_redirects,
{
    ClientSpec::new(profile, false)
}

} // verus!
