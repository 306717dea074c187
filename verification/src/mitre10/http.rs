//! How this client presents itself.
//!
//! Cloudflare fronts the API but only sets `__cf_bm`, so the browser profile
//! is insurance rather than load-bearing. What is required is `Origin` and
//! `Referer`: the API's CORS rules refuse a request without them. This module
//! picks a profile by name, for the `M10_EMULATION` escape hatch.

use vstd::prelude::*;
use crate::net_kit::http::ClientSpec;
use crate::text::{alnum_lower, find_named, first_named, str_views};

verus! {

/// The profile this client presents as unless told otherwise.
pub const EMULATION: &'static str = "Firefox139";

/// A profile by name, among the names the HTTP client crate gives its
/// profiles, ignoring punctuation and case.
pub fn profile(name: &str, profiles: &[&'static str]) -> (r: Option<&'static str>)
    ensures
        r matches Some(n) ==> first_named(str_views(profiles@), alnum_lower(name@), 0) matches Some(
            i,
        ) && n@ == profiles@[i]@,
        r is None ==> first_named(str_views(profiles@), alnum_lower(name@), 0) is None,
{
    find_named(name, profiles)
}

/// The client, presenting as [`EMULATION`] and **not following redirects**:
/// `/oauth/authorize` answers `302` with the authorization code in its
/// `Location`, which following it would discard.
pub fn client_spec() -> (c: ClientSpec)
    ensures
        c.profile == EMULATION,
        !c.follows_redirects,
{
    client_spec_for(EMULATION)
}

/// The same client, presenting as some other browser.
pub fn client_spec_for(profile: &'static str) -> (c: ClientSpec)
    ensures
        c.profile == profile,
        !c.follows_redirects,
{
    ClientSpec::new(profile, false)
}

} // verus!
