//! What Farmers said no with.
//!
//! Akamai denies with a 200: the body is a `WAF_Deny_Page`, the status is
//! success, and every JSON decode against it fails with something that reads
//! like a schema change. The refusal has four shapes -- that 200, a `403
//! Access Denied` from a `ViewX-` pipeline, `429 {"cpr_chlge":"true"}`, and
//! the interstitial challenge page -- and all of them arrive as
//! [`Error::Denied`] or [`Error::Challenged`]. None is about credentials, and
//! the `429` is not about rate.

use vstd::prelude::*;
use vstd::utf8::{encode_utf8, is_continuation_byte};
use crate::net_kit::http::{http_message, http_text};
use crate::text::{chars_of, contains, contains_bytes, extend_str, owned, string_of};

verus! {

/// How many bytes of a body are looked at for the refusal markers.
pub const WINDOW: usize = 4096;

#[derive(Debug)]
pub enum Error {
    /// The server answered with an error status, or nothing came back
    /// (`status` is `None`). The body is kept for diagnosis.
    Http { status: Option<u16>, body: String },
    /// Akamai Bot Manager served its deny page; `warmed` says whether it was
    /// refused again after a fresh warm-up.
    Denied { warmed: bool },
    /// Akamai demanded a JavaScript proof-of-work this client cannot answer.
    Challenged,
    /// The session was never warmed and a REST call was made anyway.
    NotWarmed,
    /// The sign-in page refused a step.
    LoginRefused { step: &'static str, detail: String },
    /// Signing in did not produce a session.
    NoSession { detail: String },
    SessionExpired,
    NotSignedIn,
    /// The page parsed, but what was being looked for was not in it.
    NotInPage { what: String, detail: String },
    NoSuchProduct(String),
    NoSuchCategory(String),
    NoSuchRegion(String),
    /// The answer parsed but did not contain what was asked for.
    Shape(String),
    /// The answer did not decode: what was being decoded, and what the
    /// decoder said.
    Decode { context: String, detail: String },
}

/// Where a window of at most `k` bytes ends: `k` itself when it is the end
/// of the bytes or a character starts there, else one byte further back,
/// so the window never ends inside a character.
pub open spec fn boundary_at_or_before(bytes: Seq<u8>, k: int) -> int
    decreases k,
{
    if k <= 0 || k >= bytes.len() || !is_continuation_byte(bytes[k]) {
        k
    } else {
        boundary_at_or_before(bytes, k - 1)
    }
}

/// The window of a body: its first `WINDOW` bytes, or all of it when it is
/// shorter, cut back to the last character boundary.
pub open spec fn head(body: Seq<char>) -> Seq<u8> {
    let bytes = encode_utf8(body);
    let k = if bytes.len() <= WINDOW { bytes.len() as int } else { WINDOW as int };
    bytes.take(boundary_at_or_before(bytes, k))
}

/// Whether a body's window carries one of the deny page's markers.
pub open spec fn deny_page(body: Seq<char>) -> bool {
    ||| contains(head(body), encode_utf8("WAF_Deny_Page"@))
    ||| contains(head(body), encode_utf8("Access Denied"@))
    ||| contains(head(body), encode_utf8("Reference&#32;&#35;18"@))
}

/// Whether a body's window carries one of the interstitial challenge's
/// markers.
pub open spec fn challenge_page(body: Seq<char>) -> bool {
    ||| contains(head(body), encode_utf8("sec-if-cpt-container"@))
    ||| contains(head(body), encode_utf8("sec-bc-tile-container"@))
    ||| contains(head(body), encode_utf8("scf-akamai-logo"@))
}

/// Any one of the interstitial's three markers in a body's window makes it
/// a challenge page, and nothing else does; the deny page likewise, by its
/// three markers.
pub proof fn lemma_each_marker_is_read(body: Seq<char>)
    ensures
        contains(head(body), encode_utf8("sec-if-cpt-container"@)) ==> challenge_page(body),
        contains(head(body), encode_utf8("sec-bc-tile-container"@)) ==> challenge_page(body),
        contains(head(body), encode_utf8("scf-akamai-logo"@)) ==> challenge_page(body),
        challenge_page(body) ==> contains(head(body), encode_utf8("sec-if-cpt-container"@))
            || contains(head(body), encode_utf8("sec-bc-tile-container"@)) || contains(
            head(body),
            encode_utf8("scf-akamai-logo"@),
        ),
        contains(head(body), encode_utf8("WAF_Deny_Page"@)) ==> deny_page(body),
        contains(head(body), encode_utf8("Access Denied"@)) ==> deny_page(body),
        contains(head(body), encode_utf8("Reference&#32;&#35;18"@)) ==> deny_page(body),
        deny_page(body) ==> contains(head(body), encode_utf8("WAF_Deny_Page"@)) || contains(
            head(body),
            encode_utf8("Access Denied"@),
        ) || contains(head(body), encode_utf8("Reference&#32;&#35;18"@)),
{
}

/// The window of a body, and its length.
fn window(body: &str) -> (r: (&[u8], usize))
    ensures
        r.0@ == encode_utf8(body@),
        r.1 <= r.0@.len(),
        r.0@.take(r.1 as int) == head(body@),
{
    let bytes = body.as_bytes();
    let mut n = if bytes.len() < WINDOW {
        bytes.len()
    } else {
        WINDOW
    };
    let ghost k0 = n as int;
    while n > 0 && n < bytes.len() && 0x80u8 <= bytes[n] && bytes[n] <= 0xbfu8
        invariant
            n <= bytes@.len(),
            bytes@ == encode_utf8(body@),
            boundary_at_or_before(bytes@, n as int) == boundary_at_or_before(bytes@, k0),
        decreases n,
    {
        n -= 1;
    }
    (bytes, n)
}

/// Whether this body is Akamai's interstitial challenge rather than an
/// answer: a 200 that carries none of the deny markers, and the one shape
/// that can pass for a successful fetch of an empty page.
pub fn is_challenge_page(body: &str) -> (r: bool)
    ensures
        r == challenge_page(body@),
{
    let (bytes, n) = window(body);
    contains_bytes(bytes, n, "sec-if-cpt-container".as_bytes()) || contains_bytes(
        bytes,
        n,
        "sec-bc-tile-container".as_bytes(),
    ) || contains_bytes(bytes, n, "scf-akamai-logo".as_bytes())
}

/// Whether a body is the bot manager's deny page rather than an answer.
///
/// Read the body, never the status: the same page arrives as a `200` from the
/// REST API and as a `403` from a `ViewX-` pipeline. Only the first
/// [`WINDOW`] bytes are looked at, so a long document that merely mentions a
/// marker is not misread.
pub fn is_deny_page(body: &str) -> (r: bool)
    ensures
        r == deny_page(body@),
{
    let (bytes, n) = window(body);
    contains_bytes(bytes, n, "WAF_Deny_Page".as_bytes()) || contains_bytes(
        bytes,
        n,
        "Access Denied".as_bytes(),
    ) || contains_bytes(bytes, n, "Reference&#32;&#35;18".as_bytes())
}

/// Reclassify a transport failure that is really the bot manager: a `403`
/// carrying the deny page, or a `429` asking for `cpr_chlge`.
pub fn from_http(status: Option<u16>, body: String) -> (e: Error)
    ensures
        status == Some(403u16) && deny_page(body@) ==> e == (Error::Denied { warmed: false }),
        !(status == Some(403u16) && deny_page(body@)) && status == Some(429u16) && contains(
            body@,
            "cpr_chlge"@,
        ) ==> e == Error::Challenged,
        !(status == Some(403u16) && deny_page(body@)) && !(status == Some(429u16) && contains(
            body@,
            "cpr_chlge"@,
        )) ==> (e matches Error::Http { status: s, body: b } && s == status && b@ == body@),
{
    if status == Some(403u16) && is_deny_page(body.as_str()) {
        return Error::Denied { warmed: false };
    }
    if status == Some(429u16) {
        let cs = crate::text::chars_of(body.as_str());
        let marker = crate::text::chars_of("cpr_chlge");
        if crate::text::contains_exec(&cs, &marker) {
            return Error::Challenged;
        }
    }
    Error::Http { status, body }
}

impl Error {
    /// A decoding failure, with what was being decoded and what the decoder
    /// said of it.
    pub fn decode(context: &str, detail: &str) -> (e: Error)
        ensures
            e matches Error::Decode { context: c, detail: d } && c@ == context@ && d@ == detail@,
    {
        Error::Decode { context: crate::text::owned(context), detail: crate::text::owned(detail) }
    }

    /// Something looked for in a page and not found there.
    pub fn not_in_page(what: &str) -> (e: Error)
        ensures
            e matches Error::NotInPage { what: w, detail: d } && w@ == what@ && d@.len() == 0,
    {
        Error::NotInPage { what: crate::text::owned(what), detail: String::new() }
    }

    /// The body of an HTTP failure; empty for anything else.
    pub fn body(&self) -> (r: &str)
        ensures
            self matches Error::Http { body: b, .. } ==> r@ == b@,
            !(self is Http) ==> r@.len() == 0,
    {
        match self {
            Error::Http { body, .. } => body.as_str(),
            _ => {
                proof {
                    reveal_strlit("");
                }
                ""
            },
        }
    }

    /// Whether the bot manager refused this, in any of its shapes.
    pub fn is_denied(&self) -> (r: bool)
        ensures
            r == (self is Denied || self is Challenged),
    {
        match self {
            Error::Denied { .. } | Error::Challenged => true,
            _ => false,
        }
    }

    /// Whether a caller holding a password should try signing in again.
    pub fn is_lapsed(&self) -> (r: bool)
        ensures
            r == (self is SessionExpired || self is NotSignedIn),
    {
        match self {
            Error::SessionExpired | Error::NotSignedIn => true,
            _ => false,
        }
    }

    /// Whether the only way forward is a fresh sign-in with a password.
    pub fn needs_login(&self) -> (r: bool)
        ensures
            r == (self is LoginRefused || self is NoSession),
    {
        match self {
            Error::LoginRefused { .. } | Error::NoSession { .. } => true,
            _ => false,
        }
    }
}

/// A refusal by the bot manager is never a reason to sign in again, and a
/// lapse is never a refusal: the three questions have disjoint answers.
pub proof fn lemma_refusal_lapse_and_login_are_apart(e: Error)
    ensures
        !((e is Denied || e is Challenged) && (e is SessionExpired || e is NotSignedIn)),
        !((e is Denied || e is Challenged) && (e is LoginRefused || e is NoSession)),
        !((e is SessionExpired || e is NotSignedIn) && (e is LoginRefused || e is NoSession)),
{
}

} // verus!

verus! {

/// What each failure says to the person who ran the command.
pub open spec fn error_text(e: Error) -> Seq<char> {
    match e {
        Error::Http { status, .. } => http_text(status),
        Error::Denied { warmed } => "Farmers' bot protection refused this request"@ + (if warmed {
            ", and it was refused again after a fresh warm-up"@
        } else {
            Seq::empty()
        }),
        Error::Challenged => "Farmers' bot protection demanded a browser challenge this client cannot answer"@,
        Error::NotWarmed => "this client has not been warmed against the Farmers home page yet"@,
        Error::LoginRefused { step, detail } => "the sign-in page refused the "@ + step@ + detail@,
        Error::NoSession { detail } => "signing in did not produce a session"@ + detail@,
        Error::SessionExpired => "the Farmers session has expired"@,
        Error::NotSignedIn => "not signed in to Farmers"@,
        Error::NotInPage { what, detail } => what@ + " was not found in the page"@ + detail@,
        Error::NoSuchProduct(s) => "no product called "@ + s@,
        Error::NoSuchCategory(s) => "no category called "@ + s@,
        Error::NoSuchRegion(s) => "no region called "@ + s@,
        Error::Shape(s) => s@,
        Error::Decode { context, .. } => context@,
    }
}

/// Text and then more text.
fn joined(a: &str, b: &str) -> (r: String)
    ensures
        r@ == a@ + b@,
{
    let mut v = chars_of(a);
    extend_str(&mut v, b);
    string_of(&v)
}

impl Error {
    /// What this failure says to the person who ran the command.
    pub fn message(&self) -> (r: String)
        ensures
            r@ == error_text(*self),
    {
        match self {
            Error::Http { status, .. } => {
                let v = http_message(*status);
                string_of(&v)
            },
            Error::Denied { warmed } => {
                if *warmed {
                    joined(
                        "Farmers' bot protection refused this request",
                        ", and it was refused again after a fresh warm-up",
                    )
                } else {
                    proof {
                        assert("Farmers' bot protection refused this request"@ + Seq::<char>::empty()
                            =~= "Farmers' bot protection refused this request"@);
                    }
                    owned("Farmers' bot protection refused this request")
                }
            },
            Error::Challenged => owned(
                "Farmers' bot protection demanded a browser challenge this client cannot answer",
            ),
            Error::NotWarmed => owned("this client has not been warmed against the Farmers home page yet"),
            Error::LoginRefused { step, detail } => {
                let mut v = chars_of("the sign-in page refused the ");
                extend_str(&mut v, step);
                extend_str(&mut v, detail.as_str());
                string_of(&v)
            },
            Error::NoSession { detail } => joined("signing in did not produce a session", detail.as_str()),
            Error::SessionExpired => owned("the Farmers session has expired"),
            Error::NotSignedIn => owned("not signed in to Farmers"),
            Error::NotInPage { what, detail } => {
                let mut v = chars_of(what.as_str());
                extend_str(&mut v, " was not found in the page");
                extend_str(&mut v, detail.as_str());
                string_of(&v)
            },
            Error::NoSuchProduct(s) => joined("no product called ", s.as_str()),
            Error::NoSuchCategory(s) => joined("no category called ", s.as_str()),
            Error::NoSuchRegion(s) => joined("no region called ", s.as_str()),
            Error::Shape(s) => s.clone(),
            Error::Decode { context, .. } => context.clone(),
        }
    }
}

} // verus!
