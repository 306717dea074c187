//! What Kmart said no with.
//!
//! The gateway sits behind Akamai, which answers a bot with a challenge --
//! a `429` or `403` carrying a JSON marker, or a bare `403` -- rather than
//! with anything that reads as a refusal. Those arrive as
//! [`Error::Challenged`], and are neither rate limiting nor a permission
//! problem.

use vstd::prelude::*;
use crate::net_kit::http::{http_message, http_text};
use crate::text::{chars_of, contains, contains_exec, decimal, decimal_exec, extend, extend_str, owned, string_of};

verus! {

#[derive(Debug)]
pub enum Error {
    /// The server answered with an error status, or nothing came back
    /// (`status` is `None`). The body is kept for diagnosis.
    Http { status: Option<u16>, body: String },
    /// Akamai wants a browser: the session has not been admitted, or the
    /// gateway at `host` answered with a challenge.
    Challenged { host: String },
    /// The gateway is rate-limiting this client, and may say for how many
    /// seconds.
    RateLimited { retry_after: Option<u64> },
    /// The stored session has lapsed.
    SessionExpired,
    NotSignedIn,
    /// The cart changed between the read and the write.
    CartConflict,
    /// A GraphQL operation came back with an error, in the gateway's words.
    Graphql { operation: &'static str, message: String },
    NoSuchProduct(String),
    NoSuchStore(String),
    /// The answer parsed but did not contain what was asked for.
    Shape(String),
    /// The answer did not decode: what was being decoded, and what the
    /// decoder said.
    Decode { context: String, detail: String },
}

/// The marker Akamai's challenge answer carries.
pub const CHALLENGE_MARKER: &'static str = "cpr_chlge";

/// Whether a body is Akamai's challenge rather than an answer.
pub open spec fn challenge_body(body: Seq<char>) -> bool {
    contains(body, CHALLENGE_MARKER@)
}

/// Whether a body is Akamai's challenge rather than an answer.
pub fn is_challenge_body(body: &str) -> (r: bool)
    ensures
        r == challenge_body(body@),
{
    let cs = chars_of(body);
    let m = chars_of(CHALLENGE_MARKER);
    contains_exec(&cs, &m)
}

/// What a failure says to the person who ran the command.
pub open spec fn error_text(e: Error) -> Seq<char> {
    match e {
        Error::Http { status, .. } => http_text(status),
        Error::Challenged { host } => host@ + " wants a browser: import its cookies and try again"@,
        Error::RateLimited { retry_after } => "Kmart is rate-limiting this client"@ + match retry_after {
            Some(s) => "; it asked for "@ + decimal(s as nat) + "s before the next request"@,
            None => Seq::empty(),
        },
        Error::SessionExpired => "the Kmart session has expired"@,
        Error::NotSignedIn => "not signed in to Kmart"@,
        Error::CartConflict => "the cart changed while it was being updated; try again"@,
        Error::Graphql { operation, message } => operation@ + " failed: "@ + message@,
        Error::NoSuchProduct(s) => "no product called "@ + s@,
        Error::NoSuchStore(s) => "no store called "@ + s@,
        Error::Shape(s) => s@,
        Error::Decode { context, .. } => context@,
    }
}

/// Text and then more text.
fn joined(a: &str, b: &str) -> (r: String)
    ensures
        r@ == a@ + b@,
{
    let mut v = chars_of(a);
    extend_str(&mut v, b);
    string_of(&v)
}

impl Error {
    /// Whether signing in again is the fix.
    pub fn is_lapsed(&self) -> (r: bool)
        ensures
            r == (*self is SessionExpired || *self is NotSignedIn),
    {
        match self {
            Error::SessionExpired | Error::NotSignedIn => true,
            _ => false,
        }
    }

    /// What this failure says to the person who ran the command.
    pub fn message(&self) -> (r: String)
        ensures
            r@ == error_text(*self),
    {
        match self {
            Error::Http { status, .. } => {
                let v = http_message(*status);
                string_of(&v)
            },
            Error::Challenged { host } => joined(host.as_str(), " wants a browser: import its cookies and try again"),
            Error::RateLimited { retry_after } => {
                let mut v = chars_of("Kmart is rate-limiting this client");
                match retry_after {
                    Some(secs) => {
                        extend_str(&mut v, "; it asked for ");
                        let d = decimal_exec(*secs);
                        extend(&mut v, &d);
                        extend_str(&mut v, "s before the next request");
                    },
                    None => {},
                }
                string_of(&v)
            },
            Error::SessionExpired => owned("the Kmart session has expired"),
            Error::NotSignedIn => owned("not signed in to Kmart"),
            Error::CartConflict => owned("the cart changed while it was being updated; try again"),
            Error::Graphql { operation, message } => {
                let mut v = chars_of(operation);
                extend_str(&mut v, " failed: ");
                extend_str(&mut v, message.as_str());
                string_of(&v)
            },
            Error::NoSuchProduct(s) => joined("no product called ", s.as_str()),
            Error::NoSuchStore(s) => joined("no store called ", s.as_str()),
            Error::Shape(s) => owned(s.as_str()),
            Error::Decode { context, .. } => owned(context.as_str()),
        }
    }
}

} // verus!
