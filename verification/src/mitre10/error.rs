//! What Mitre 10 said no with.

use vstd::prelude::*;
use crate::net_kit::http::{http_message, http_text};
use crate::text::{chars_of, contains, contains_exec, decimal, decimal_exec, extend, extend_str, owned, string_of};

verus! {

#[derive(Debug)]
pub enum Error {
    /// The server answered with an error status, or nothing came back
    /// (`status` is `None`). The body is kept for diagnosis.
    Http { status: Option<u16>, body: String },
    /// Cloudflare is rate-limiting this client, for this many seconds where
    /// it said.
    RateLimited { retry_after: Option<u64> },
    /// An OCC operation was refused, with the storefront's own message.
    Occ { operation: &'static str, message: String },
    /// The request's origin was refused; the session may have been started
    /// elsewhere.
    Cors,
    SessionExpired,
    NotSignedIn,
    /// The stored login has lapsed and a new sign-in is needed.
    LoginLapsed,
    BadCredentials,
    /// The sign-in endpoint refused a client with no storefront session.
    LoginUnavailable,
    NoSuchProduct(String),
    NoSuchStore(String),
    NoSuchCategory(String),
    /// The answer parsed but did not contain what was asked for.
    Shape(String),
    /// The answer did not decode: what was being decoded, and what the
    /// decoder said.
    Decode { context: String, detail: String },
}

impl Error {
    /// A decoding failure, with what was being decoded and what the decoder
    /// said of it.
    pub fn decode(context: &str, detail: &str) -> (e: Error)
        ensures
            e matches Error::Decode { context: c, detail: d } && c@ == context@ && d@ == detail@,
    {
        Error::Decode { context: owned(context), detail: owned(detail) }
    }

    /// The body of an HTTP failure; empty for anything else.
    pub fn body(&self) -> (r: &str)
        ensures
            self matches Error::Http { body: b, .. } ==> r@ == b@,
            !(self is Http) ==> r@.len() == 0,
    {
        match self {
            Error::Http { body, .. } => body.as_str(),
            _ => {
                proof {
                    reveal_strlit("");
                }
                ""
            },
        }
    }

    pub fn is_rate_limited(&self) -> (r: bool)
        ensures
            r == self is RateLimited,
    {
        match self {
            Error::RateLimited { .. } => true,
            _ => false,
        }
    }

    /// Whether a refresh can fix this: the bearer expired, or there was none.
    pub fn is_lapsed(&self) -> (r: bool)
        ensures
            r == (self is SessionExpired || self is NotSignedIn),
    {
        match self {
            Error::SessionExpired | Error::NotSignedIn => true,
            _ => false,
        }
    }

    /// Whether only a sign-in with a password can fix this.
    pub fn needs_login(&self) -> (r: bool)
        ensures
            r == (self is LoginLapsed || self is BadCredentials),
    {
        match self {
            Error::LoginLapsed | Error::BadCredentials => true,
            _ => false,
        }
    }

    /// Whether the sign-in endpoint itself is unavailable to this client.
    pub fn is_login_unavailable(&self) -> (r: bool)
        ensures
            r == self is LoginUnavailable,
    {
        match self {
            Error::LoginUnavailable => true,
            _ => false,
        }
    }

    /// What an error status means when it means something in particular: a
    /// 401 is an expired bearer, a 403 saying `Invalid CORS request` is the
    /// origin, and a 429 is a rate limit.
    pub fn from_status(status: u16, body: &str) -> (r: Option<Error>)
        ensures
            status == 401 ==> r matches Some(Error::SessionExpired),
            status == 403 && contains(body@, "Invalid CORS request"@) ==> r matches Some(Error::Cors),
            status == 403 && !contains(body@, "Invalid CORS request"@) ==> r is None,
            status == 429 ==> r matches Some(Error::RateLimited { retry_after: None }),
            status != 401 && status != 403 && status != 429 ==> r is None,
    {
        if status == 401 {
            return Some(Error::SessionExpired);
        }
        if status == 403 {
            let b = chars_of(body);
            let m = chars_of("Invalid CORS request");
            if contains_exec(&b, &m) {
                return Some(Error::Cors);
            }
            return None;
        }
        if status == 429 {
            return Some(Error::RateLimited { retry_after: None });
        }
        None
    }
}

/// A lapsed bearer is fixed by a refresh and a lapsed login only by a
/// sign-in: no error asks for both.
pub proof fn lemma_refresh_and_sign_in_are_apart(e: Error)
    ensures
        !((e is SessionExpired || e is NotSignedIn) && (e is LoginLapsed || e is BadCredentials)),
{
}

/// What each failure says to the person who ran the command.
pub open spec fn error_text(e: Error) -> Seq<char> {
    match e {
        Error::Http { status, .. } => http_text(status),
        Error::RateLimited { retry_after } => "Mitre 10 is rate-limiting this client"@ + match retry_after {
            Some(secs) => "; it asked for "@ + decimal(secs as nat) + "s before the next request"@,
            None => Seq::empty(),
        },
        Error::Occ { operation, message } => operation@ + " was refused: "@ + message@,
        Error::Cors => "Mitre 10 refused the request's origin; the session may have been started elsewhere"@,
        Error::SessionExpired => "the Mitre 10 session has expired"@,
        Error::NotSignedIn => "not signed in to Mitre 10"@,
        Error::LoginLapsed => "the stored Mitre 10 login has lapsed and a new sign-in is needed"@,
        Error::BadCredentials => "Mitre 10 rejected those credentials"@,
        Error::LoginUnavailable => "Mitre 10's sign-in endpoint refused a client with no storefront session"@,
        Error::NoSuchProduct(s) => "no product called "@ + s@,
        Error::NoSuchStore(s) => "no store called "@ + s@,
        Error::NoSuchCategory(s) => "no category called "@ + s@,
        Error::Shape(s) => s@,
        Error::Decode { context, .. } => context@,
    }
}

/// Text and then more text.
fn joined(a: &str, b: &str) -> (r: String)
    ensures
        r@ == a@ + b@,
{
    let mut v = chars_of(a);
    extend_str(&mut v, b);
    string_of(&v)
}

impl Error {
    /// What this failure says to the person who ran the command.
    pub fn message(&self) -> (r: String)
        ensures
            r@ == error_text(*self),
    {
        match self {
            Error::Http { status, .. } => {
                let v = http_message(*status);
                string_of(&v)
            },
            Error::RateLimited { retry_after } => {
                let mut v = chars_of("Mitre 10 is rate-limiting this client");
                match retry_after {
                    Some(secs) => {
                        extend_str(&mut v, "; it asked for ");
                        let d = decimal_exec(*secs);
                        extend(&mut v, &d);
                        extend_str(&mut v, "s before the next request");
                    },
                    None => {},
                }
                string_of(&v)
            },
            Error::Occ { operation, message } => {
                let mut v = chars_of(operation);
                extend_str(&mut v, " was refused: ");
                extend_str(&mut v, message.as_str());
                string_of(&v)
            },
            Error::Cors => owned(
                "Mitre 10 refused the request's origin; the session may have been started elsewhere",
            ),
            Error::SessionExpired => owned("the Mitre 10 session has expired"),
            Error::NotSignedIn => owned("not signed in to Mitre 10"),
            Error::LoginLapsed => owned("the stored Mitre 10 login has lapsed and a new sign-in is needed"),
            Error::BadCredentials => owned("Mitre 10 rejected those credentials"),
            Error::LoginUnavailable => owned(
                "Mitre 10's sign-in endpoint refused a client with no storefront session",
            ),
            Error::NoSuchProduct(s) => joined("no product called ", s.as_str()),
            Error::NoSuchStore(s) => joined("no store called ", s.as_str()),
            Error::NoSuchCategory(s) => joined("no category called ", s.as_str()),
            Error::Shape(s) => s.clone(),
            Error::Decode { context, .. } => context.clone(),
        }
    }
}

} // verus!
