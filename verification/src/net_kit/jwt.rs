//! The clock, and what a JSON Web Token says about itself.
//!
//! A token is `header.payload.signature`, the payload URL-safe base64
//! without padding over a JSON object. Only two claims are read: `exp`, the
//! expiry in seconds since the epoch, and a string claim by name. Nothing is
//! verified: the signature is the issuer's business, and a token that does
//! not read is simply one whose expiry is unknown.

use vstd::prelude::*;
use base64::Engine;
use crate::text::{chars_of, opt_str, split, split_exec, string_of, views};

verus! {

/// Milliseconds since the Unix epoch, now.
///
/// Reads `std::time::SystemTime::now()` and measures it from `UNIX_EPOCH`;
/// a clock set before the epoch reads as zero. What the clock says is not
/// stated: it changes from call to call.
#[verifier::external_body]
pub fn now_ms() -> (ms: u64) {
    std::time::SystemTime::now()
        .duration_since(std::time::UNIX_EPOCH)
        .map(|d| d.as_millis() as u64)
        .unwrap_or(0)
}

/// Seconds since the Unix epoch, now.
pub fn now_secs() -> (s: u64) {
    now_ms() / 1000
}

/// The bytes URL-safe base64 without padding decodes to, if it decodes.
pub uninterp spec fn base64url_decoded(text: Seq<char>) -> Option<Seq<u8>>;

/// The unsigned integer a JSON object holds under a name, if the bytes are
/// a JSON object and it holds one there.
pub uninterp spec fn json_u64_claim(json: Seq<u8>, name: Seq<char>) -> Option<u64>;

/// The string a JSON object holds under a name, if the bytes are a JSON
/// object and it holds one there.
pub uninterp spec fn json_str_claim(json: Seq<u8>, name: Seq<char>) -> Option<Seq<char>>;

/// Decodes URL-safe base64 without padding.
///
/// Calls `base64::engine::general_purpose::URL_SAFE_NO_PAD.decode`, keeping
/// the bytes where it succeeds. The result is named [`base64url_decoded`] of
/// the text.
#[verifier::external_body]
fn decode_base64url(text: &str) -> (r: Option<Vec<u8>>)
    ensures
        match r {
            Some(b) => base64url_decoded(text@) == Some(b@),
            None => base64url_decoded(text@) is None,
        },
{
    base64::engine::general_purpose::URL_SAFE_NO_PAD.decode(text).ok()
}

/// Reads an unsigned integer claim out of a JSON object.
///
/// Parses the bytes with `serde_json::from_slice::<serde_json::Value>`, takes
/// `Value::get(name)` and `Value::as_u64`. The result is named
/// [`json_u64_claim`] of the bytes and the name.
#[verifier::external_body]
fn u64_claim(json: &[u8], name: &str) -> (r: Option<u64>)
    ensures
        r == json_u64_claim(json@, name@),
{
    serde_json::from_slice::<serde_json::Value>(json).ok().and_then(|v| v.get(name).and_then(|c| c.as_u64()))
}

/// Reads a string claim out of a JSON object.
///
/// Parses the bytes with `serde_json::from_slice::<serde_json::Value>`, takes
/// `Value::get(name)` and `Value::as_str`. The result is named
/// [`json_str_claim`] of the bytes and the name.
#[verifier::external_body]
fn str_claim(json: &[u8], name: &str) -> (r: Option<String>)
    ensures
        opt_str(r) == json_str_claim(json@, name@),
{
    serde_json::from_slice::<serde_json::Value>(json).ok().and_then(|v| v.get(name).and_then(|c| c.as_str().map(|s| s.to_string())))
}

/// The payload of a token: its second dot-separated part, decoded.
pub open spec fn payload_of(token: Seq<char>) -> Option<Seq<u8>> {
    let parts = split(token, '.');
    if parts.len() >= 2 {
        base64url_decoded(parts[1])
    } else {
        None
    }
}

/// When a token expires, in milliseconds since the epoch: its `exp` claim,
/// read in seconds.
pub open spec fn expiry_of(token: Seq<char>) -> Option<u64> {
    match payload_of(token) {
        Some(p) => match json_u64_claim(p, "exp"@) {
            Some(exp) => if exp * 1000 <= u64::MAX {
                Some((exp * 1000) as u64)
            } else {
                None
            },
            None => None,
        },
        None => None,
    }
}

/// A string claim of a token.
pub open spec fn claim_of(token: Seq<char>, name: Seq<char>) -> Option<Seq<char>> {
    match payload_of(token) {
        Some(p) => json_str_claim(p, name),
        None => None,
    }
}

/// The decoded payload of a token, if it has one.
fn payload(token: &str) -> (r: Option<Vec<u8>>)
    ensures
        match r {
            Some(b) => payload_of(token@) == Some(b@),
            None => payload_of(token@) is None,
        },
{
    let cs = chars_of(token);
    let parts = split_exec(&cs, '.');
    if parts.len() < 2 {
        return None;
    }
    proof {
        assert(views(parts@)[1] == parts@[1]@);
    }
    let p = string_of(&parts[1]);
    decode_base64url(p.as_str())
}

/// When a token expires, in milliseconds since the epoch, where it says.
pub fn expiry_ms(token: &str) -> (r: Option<u64>)
    ensures
        r == expiry_of(token@),
{
    let p = match payload(token) {
        Some(p) => p,
        None => return None,
    };
    match u64_claim(&p, "exp") {
        Some(exp) => exp.checked_mul(1000),
        None => None,
    }
}

/// A string claim of a token, where it has one.
pub fn claim_str(token: &str, name: &str) -> (r: Option<String>)
    ensures
        opt_str(r) == claim_of(token@, name@),
{
    match payload(token) {
        Some(p) => str_claim(&p, name),
        None => None,
    }
}

/// Whether something expiring at `at` is still good at `now`, with `skew`
/// to spare -- all in milliseconds.
pub open spec fn fresh_at(at: u64, skew: u64, now: u64) -> bool {
    now + skew < at
}

/// Whether something expiring at `at` is good now, with `skew` to spare.
pub fn fresh_at_exec(at: u64, skew: u64, now: u64) -> (r: bool)
    ensures
        r == fresh_at(at, skew, now),
{
    (now as u128) + (skew as u128) < (at as u128)
}

/// Whether something expiring at `at` milliseconds is good now, with `skew`
/// milliseconds to spare. What the clock said is not stated; the answer is
/// what [`fresh_at`] gives for it.
pub fn fresh(at: u64, skew: u64) -> (r: bool)
    ensures
        exists|now: u64| r == fresh_at(at, skew, now),
{
    let now = now_ms();
    fresh_at_exec(at, skew, now)
}

} // verus!
