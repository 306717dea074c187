//! What every storefront's HTTP client is built from, and the words for an
//! HTTP failure, shared by every storefront's errors.

use vstd::prelude::*;
use crate::text::{chars_of, decimal, decimal_exec, extend};

verus! {

/// How an HTTP client is to be built: the browser it presents as, and
/// whether it follows a redirect or hands the `3xx` back to its caller.
pub struct ClientSpec {
    pub profile: &'static str,
    pub follows_redirects: bool,
}

impl ClientSpec {
    pub fn new(profile: &'static str, follows_redirects: bool) -> (c: ClientSpec)
        ensures
            c.profile == profile,
            c.follows_redirects == follows_redirects,
    {
        ClientSpec { profile, follows_redirects }
    }
}

/// What an HTTP failure says: the status the server answered, or that it
/// could not be reached.
pub open spec fn http_text(status: Option<u16>) -> Seq<char> {
    match status {
        Some(n) => "the server answered HTTP "@ + decimal(n as nat),
        None => "the server could not be reached"@,
    }
}

/// An HTTP failure's words.
pub fn http_message(status: Option<u16>) -> (r: Vec<char>)
    ensures
        r@ == http_text(status),
{
    match status {
        Some(n) => {
            let mut v = chars_of("the server answered HTTP ");
            let d = decimal_exec(n as u64);
            extend(&mut v, &d);
            v
        },
        None => chars_of("the server could not be reached"),
    }
}

} // verus!
