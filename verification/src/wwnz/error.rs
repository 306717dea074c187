//! What the Woolworths API said no with.

use vstd::prelude::*;
use crate::net_kit::http::{http_message, http_text};
use crate::text::{chars_of, extend_str, owned, string_of};

verus! {

#[derive(Debug)]
pub enum Error {
    /// The server answered with an error status, or nothing usable came back
    /// (`status` is `None` where nothing did). The body is kept for
    /// diagnosis.
    Http { status: Option<u16>, body: String },
    /// The stored session has lapsed; its fix is a sign-in, not a first one.
    SessionExpired,
    /// The API answered that nobody is signed in.
    NotSignedIn,
    /// A GraphQL operation came back with errors, in the API's own words.
    Graphql { operation: &'static str, message: String },
    /// The answer parsed but did not contain what was asked for.
    Shape(String),
}

/// What a failure says to the person who ran the command.
pub open spec fn error_text(e: Error) -> Seq<char> {
    match e {
        Error::Http { status, .. } => http_text(status),
        Error::SessionExpired => "the Woolworths session has expired"@,
        Error::NotSignedIn => "not signed in to Woolworths"@,
        Error::Graphql { operation, message } => operation@ + " failed: "@ + message@,
        Error::Shape(s) => s@,
    }
}

impl Error {
    /// Whether signing in again is the fix.
    pub fn is_lapsed(&self) -> (r: bool)
        ensures
            r == (*self is SessionExpired || *self is NotSignedIn),
    {
        match self {
            Error::SessionExpired | Error::NotSignedIn => true,
            _ => false,
        }
    }

    /// What this failure says to the person who ran the command.
    pub fn message(&self) -> (r: String)
        ensures
            r@ == error_text(*self),
    {
        match self {
            Error::Http { status, .. } => {
                let v = http_message(*status);
                string_of(&v)
            },
            Error::SessionExpired => owned("the Woolworths session has expired"),
            Error::NotSignedIn => owned("not signed in to Woolworths"),
            Error::Graphql { operation, message } => {
                let mut v = chars_of(operation);
                extend_str(&mut v, " failed: ");
                extend_str(&mut v, message.as_str());
                string_of(&v)
            },
            Error::Shape(s) => owned(s.as_str()),
        }
    }
}

} // verus!
