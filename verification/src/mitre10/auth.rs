//! Signing in: OAuth 2 with PKCE, the way the mobile app does it.
//!
//! Five requests, made by the caller in order: prime the session with an
//! authorize navigation, take a CSRF token, post the password form, authorize
//! again for a code, and exchange the code for tokens. What each request
//! carries and what each answer means is decided here.

use vstd::prelude::*;
use base64::Engine;
use sha2::Digest;
use crate::mitre10::endpoints::{Endpoints, OAUTH_CLIENT_ID};
use crate::mitre10::error::Error;
use crate::mitre10::session::{Session, expiry_after};
use crate::net_kit::jwt::{claim_of, json_str_claim};
use crate::ordered::view_pairs;
use crate::text::{
    chars_of, contains, contains_exec, decimal, decimal_exec, extend, extend_str, index_of,
    index_of_exec, join, join_exec, opt_str, owned, parse_u64, parse_u64_exec, percent_encode,
    percent_encode_str, split, split_exec, string_of, views,
};
use vstd::utf8::encode_utf8;

verus! {

/// Narration for the sign-in flow that says nothing.
pub fn no_trace(_step: &str, _detail: &str) {
}

/// The SHA-256 digest of some bytes.
pub uninterp spec fn sha256_of(bytes: Seq<u8>) -> Seq<u8>;

/// Bytes in URL-safe base64 without padding.
pub uninterp spec fn base64url_of(bytes: Seq<u8>) -> Seq<char>;

/// Hashes bytes with SHA-256.
///
/// Calls `sha2::Sha256::digest`; the digest is named [`sha256_of`] of the
/// bytes.
#[verifier::external_body]
fn sha256(bytes: &[u8]) -> (r: Vec<u8>)
    ensures
        r@ == sha256_of(bytes@),
{
    sha2::Sha256::digest(bytes).to_vec()
}

/// Encodes bytes as URL-safe base64 without padding.
///
/// Calls `base64::engine::general_purpose::URL_SAFE_NO_PAD.encode`; the text
/// is named [`base64url_of`] of the bytes.
#[verifier::external_body]
fn b64(bytes: &[u8]) -> (r: String)
    ensures
        r@ == base64url_of(bytes@),
{
    base64::engine::general_purpose::URL_SAFE_NO_PAD.encode(bytes)
}

/// Fills a buffer with random bytes.
///
/// Calls `rand::fill`, which overwrites every byte from the thread's
/// cryptographically secure generator. Which bytes is not stated: only that
/// there are as many as before.
#[verifier::external_body]
fn fill_random(buf: &mut Vec<u8>)
    ensures
        final(buf)@.len() == old(buf)@.len(),
{
    rand::fill(buf.as_mut_slice());
}

/// Random bytes, `n` of them.
fn random_bytes(n: usize) -> (r: Vec<u8>)
    ensures
        r@.len() == n,
{
    let mut v: Vec<u8> = Vec::new();
    let mut i: usize = 0;
    while i < n
        invariant
            i <= n,
            v@.len() == i,
        decreases n - i,
    {
        v.push(0);
        i += 1;
    }
    fill_random(&mut v);
    v
}

/// A PKCE pair: the verifier kept, the challenge sent.
#[derive(Clone, Debug)]
pub struct Pkce {
    pub verifier: String,
    pub challenge: String,
}

/// The challenge RFC 7636's `S256` method derives from a verifier: the
/// SHA-256 of its bytes, in URL-safe base64 without padding.
pub open spec fn challenge_of(verifier: Seq<char>) -> Seq<char> {
    base64url_of(sha256_of(encode_utf8(verifier)))
}

impl Pkce {
    /// A fresh pair: thirty-two random bytes as the verifier.
    pub fn generate() -> (p: Pkce)
        ensures
            exists|bytes: Seq<u8>| bytes.len() == 32 && p.verifier@ == base64url_of(bytes),
            p.challenge@ == challenge_of(p.verifier@),
    {
        let bytes = random_bytes(32);
        Pkce::from_verifier(b64(&bytes))
    }

    /// The pair a verifier makes.
    pub fn from_verifier(verifier: String) -> (p: Pkce)
        ensures
            p.verifier@ == verifier@,
            p.challenge@ == challenge_of(verifier@),
    {
        let digest = sha256(verifier.as_str().as_bytes());
        let challenge = b64(&digest);
        Pkce { verifier, challenge }
    }
}

/// What the token endpoint answers.
#[derive(Debug)]
pub struct Tokens {
    pub access_token: String,
    pub refresh_token: Option<String>,
    pub expires_in: Option<u64>,
}

impl Tokens {
    /// Take the tokens into a session.
    pub fn apply(self, session: &mut Session)
        ensures
            final(session).access_token matches Some(a) && a@ == self.access_token@,
            exists|now: u64|
                final(session).expires_at == Some(
                    expiry_after(self.access_token@, self.expires_in, now),
                ),
            self.refresh_token is Some ==> final(session).refresh_token == self.refresh_token,
            self.refresh_token is None ==> final(session).refresh_token == old(
                session,
            ).refresh_token,
            opt_str(final(session).email) == match claim_of(self.access_token@, "sub"@) {
                Some(sub) => Some(sub),
                None => opt_str(old(session).email),
            },
    {
        session.set_tokens(self.access_token, self.refresh_token, self.expires_in);
    }
}

/// Whether a character ends a URL's path: `?` or `#`.
pub open spec fn query_mark(c: char) -> bool {
    c == '?' || c == '#'
}

/// Where the first `?` or `#` is.
pub open spec fn first_mark(s: Seq<char>) -> Option<int>
    decreases s.len(),
{
    if s.len() == 0 {
        None
    } else if query_mark(s[0]) {
        Some(0)
    } else {
        match first_mark(s.drop_first()) {
            Some(i) => Some(i + 1),
            None => None,
        }
    }
}

/// The second piece of a URL split on `?` and `#`: its query, or fragment.
pub open spec fn query_of(location: Seq<char>) -> Option<Seq<char>> {
    match first_mark(location) {
        None => None,
        Some(i) => {
            let rest = location.skip(i + 1);
            match first_mark(rest) {
                Some(j) => Some(rest.take(j)),
                None => Some(rest),
            }
        },
    }
}

/// The first `code=` pair's value among `key=value` pairs, when not empty.
pub open spec fn code_in(pairs: Seq<Seq<char>>) -> Option<Seq<char>>
    decreases pairs.len(),
{
    if pairs.len() == 0 {
        None
    } else {
        let p = pairs[0];
        match index_of(p, '=') {
            Some(k) => if p.take(k) == "code"@ && p.skip(k + 1).len() > 0 {
                Some(p.skip(k + 1))
            } else {
                code_in(pairs.drop_first())
            },
            None => code_in(pairs.drop_first()),
        }
    }
}

/// The authorization code a redirect carries, wherever in its query it sits.
pub open spec fn code_of(location: Seq<char>) -> Option<Seq<char>> {
    match query_of(location) {
        Some(q) => code_in(split(q, '&')),
        None => None,
    }
}

/// Where the first `?` or `#` is.
fn first_mark_exec(s: &[char]) -> (r: Option<usize>)
    ensures
        r matches Some(i) ==> first_mark(s@) == Some(i as int) && i < s.len(),
        r is None ==> first_mark(s@) is None,
{
    let mut i: usize = 0;
    assert(s@.skip(0) =~= s@);
    while i < s.len()
        invariant
            i <= s.len(),
            first_mark(s@) == match first_mark(s@.skip(i as int)) {
                Some(j) => Some(j + i),
                None => None,
            },
        decreases s.len() - i,
    {
        assert(s@.skip(i as int).drop_first() =~= s@.skip(i + 1));
        if s[i] == '?' || s[i] == '#' {
            return Some(i);
        }
        i += 1;
    }
    None
}

/// The authorization code a redirect carries, wherever in its query it sits:
/// the first `code=` pair with a value.
pub fn code_from(location: &str) -> (r: Option<String>)
    ensures
        opt_str(r) == code_of(location@),
{
    let cs = chars_of(location);
    let i = match first_mark_exec(&cs) {
        Some(i) => i,
        None => return None,
    };
    let rest = crate::text::slice(&cs, i + 1, cs.len());
    assert(rest@ =~= cs@.skip(i + 1));
    let query = match first_mark_exec(&rest) {
        Some(j) => {
            let q = crate::text::slice(&rest, 0, j);
            assert(q@ =~= rest@.take(j as int));
            q
        },
        None => rest,
    };
    assert(query_of(location@) == Some(query@));
    let pairs = split_exec(&query, '&');
    let mut k: usize = 0;
    assert(views(pairs@).skip(0) =~= views(pairs@));
    while k < pairs.len()
        invariant
            k <= pairs.len(),
            views(pairs@) == split(query@, '&'),
            query_of(location@) == Some(query@),
            code_in(views(pairs@)) == code_in(views(pairs@).skip(k as int)),
        decreases pairs.len() - k,
    {
        proof {
            assert(views(pairs@).skip(k as int).drop_first() =~= views(pairs@).skip(k + 1));
            assert(views(pairs@).skip(k as int)[0] == pairs@[k as int]@);
        }
        let p = &pairs[k];
        match index_of_exec(p, '=') {
            Some(e) => {
                proof {
                    crate::text::lemma_index_of_some(p@, '=');
                }
                let key = crate::text::slice(p, 0, e);
                let value = crate::text::slice(p, e + 1, p.len());
                assert(key@ =~= p@.take(e as int));
                assert(value@ =~= p@.skip(e + 1));
                let code = chars_of("code");
                if crate::text::same(&key, &code) && value.len() > 0 {
                    proof {
                        assert(views(pairs@).skip(k as int)[0] == p@);
                        assert(index_of(p@, '=') == Some(e as int));
                        assert(p@.take(e as int) == "code"@);
                        assert(code_in(views(pairs@).skip(k as int)) == Some(value@));
                    }
                    return Some(string_of(&value));
                }
            },
            None => {},
        }
        k += 1;
    }
    None
}

/// What follows the last `?` of a key, or the whole key.
pub open spec fn after_last_mark(key: Seq<char>) -> Seq<char>
    decreases key.len(),
{
    if key.len() == 0 {
        Seq::empty()
    } else if key.last() == '?' {
        Seq::empty()
    } else {
        after_last_mark(key.drop_last()).push(key.last())
    }
}

/// One `key=value` piece of a URL, its value hidden when the key is a code
/// or a code challenge.
pub open spec fn redact_part(part: Seq<char>) -> Seq<char> {
    match index_of(part, '=') {
        Some(k) => {
            let name = after_last_mark(part.take(k));
            if name == "code"@ || name == "code_challenge"@ {
                part.take(k) + "=<redacted>"@
            } else {
                part
            }
        },
        None => part,
    }
}

/// Each piece redacted.
pub open spec fn redact_parts(parts: Seq<Seq<char>>) -> Seq<Seq<char>> {
    parts.map_values(|p: Seq<char>| redact_part(p))
}

/// A URL as a trace may print it: the code and the code challenge hidden,
/// everything else as it was.
pub open spec fn redacted_url(url: Seq<char>) -> Seq<char> {
    join(redact_parts(split(url, '&')), "&"@)
}

/// What follows the last `?` of a key.
fn after_last_mark_exec(key: &[char]) -> (r: Vec<char>)
    ensures
        r@ == after_last_mark(key@),
{
    let mut r: Vec<char> = Vec::new();
    let mut i: usize = 0;
    while i < key.len()
        invariant
            i <= key.len(),
            r@ == after_last_mark(key@.take(i as int)),
        decreases key.len() - i,
    {
        proof {
            assert(key@.take(i + 1).drop_last() =~= key@.take(i as int));
        }
        if key[i] == '?' {
            r = Vec::new();
        } else {
            r.push(key[i]);
        }
        i += 1;
    }
    assert(key@.take(key.len() as int) =~= key@);
    r
}

/// A URL with its code and code challenge hidden, for a trace: a code in a
/// scrollback is a credential someone else can use.
pub fn redacted(url: &str) -> (r: String)
    ensures
        r@ == redacted_url(url@),
{
    let cs = chars_of(url);
    let parts = split_exec(&cs, '&');
    let mut out: Vec<Vec<char>> = Vec::new();
    let mut i: usize = 0;
    while i < parts.len()
        invariant
            i <= parts.len(),
            views(parts@) == split(url@, '&'),
            views(out@) == redact_parts(views(parts@)).take(i as int),
        decreases parts.len() - i,
    {
        let p = &parts[i];
        proof {
            assert(views(parts@)[i as int] == p@);
        }
        let piece = match index_of_exec(p, '=') {
            Some(e) => {
                proof {
                    crate::text::lemma_index_of_some(p@, '=');
                }
                let key = crate::text::slice(p, 0, e);
                assert(key@ =~= p@.take(e as int));
                let name = after_last_mark_exec(&key);
                let c1 = chars_of("code");
                let c2 = chars_of("code_challenge");
                if crate::text::same(&name, &c1) || crate::text::same(&name, &c2) {
                    let mut v = key;
                    extend_str(&mut v, "=<redacted>");
                    v
                } else {
                    crate::text::slice(p, 0, p.len())
                }
            },
            None => crate::text::slice(p, 0, p.len()),
        };
        assert(p@.subrange(0, p@.len() as int) =~= p@);
        let ghost before = out@;
        out.push(piece);
        proof {
            assert(views(out@) =~= views(before).push(piece@));
            assert(redact_parts(views(parts@)).take(i + 1) =~= redact_parts(views(parts@)).take(
                i as int,
            ).push(redact_part(p@)));
        }
        i += 1;
    }
    assert(redact_parts(views(parts@)).take(parts.len() as int) =~= redact_parts(views(parts@)));
    let sep = chars_of("&");
    let line = join_exec(&out, &sep);
    string_of(&line)
}

/// A value percent-encoded over its UTF-8 bytes, everything but ASCII
/// letters, digits and `-_.~` escaped.
pub open spec fn urlencoded(value: Seq<char>) -> Seq<char> {
    percent_encode(encode_utf8(value), false)
}

/// Percent-encode a value.
pub fn urlencode(value: &str) -> (r: String)
    ensures
        r@ == urlencoded(value@),
{
    let v = percent_encode_str(value, false);
    string_of(&v)
}

/// The authorize request's parameters, in order.
pub open spec fn authorize_params(site: Seq<char>, state: Seq<char>, challenge: Seq<char>) -> Seq<
    (Seq<char>, Seq<char>),
> {
    seq![
        ("response_type"@, "code"@),
        ("client_id"@, OAUTH_CLIENT_ID@),
        ("state"@, state),
        ("redirect_uri"@, site),
        ("scope"@, Seq::empty()),
        ("code_challenge"@, challenge),
        ("code_challenge_method"@, "S256"@),
    ]
}

/// `key=value` with only the value encoded.
pub open spec fn param_text(p: (Seq<char>, Seq<char>)) -> Seq<char> {
    p.0 + "="@ + urlencoded(p.1)
}

/// Each parameter as text.
pub open spec fn param_texts(ps: Seq<(Seq<char>, Seq<char>)>) -> Seq<Seq<char>> {
    ps.map_values(|p: (Seq<char>, Seq<char>)| param_text(p))
}

/// The authorize URL for a PKCE challenge and a state nonce, ending in the
/// bare `&continue` the storefront's own app sends.
pub open spec fn authorize_url_text(api: Seq<char>, site: Seq<char>, state: Seq<char>, challenge: Seq<char>) -> Seq<char> {
    api + "/authorizationserver"@ + "/oauth/authorize"@ + "?"@ + join(
        param_texts(authorize_params(site, state, challenge)),
        "&"@,
    ) + "&continue"@
}

/// The authorize URL for a PKCE pair and a state nonce.
pub fn authorize_url_with(endpoints: &Endpoints, pkce: &Pkce, state: &str) -> (r: String)
    ensures
        r@ == authorize_url_text(endpoints.api@, endpoints.site@, state@, pkce.challenge@),
{
    let mut params: Vec<(String, String)> = Vec::new();
    params.push((owned("response_type"), owned("code")));
    params.push((owned("client_id"), owned(OAUTH_CLIENT_ID)));
    params.push((owned("state"), owned(state)));
    params.push((owned("redirect_uri"), endpoints.site.clone()));
    params.push((owned("scope"), String::new()));
    params.push((owned("code_challenge"), pkce.challenge.clone()));
    params.push((owned("code_challenge_method"), owned("S256")));
    let ghost ps = view_pairs(params@);
    assert(ps =~= authorize_params(endpoints.site@, state@, pkce.challenge@));
    let mut texts: Vec<Vec<char>> = Vec::new();
    let mut i: usize = 0;
    while i < params.len()
        invariant
            i <= params.len(),
            ps == view_pairs(params@),
            views(texts@) == param_texts(ps).take(i as int),
        decreases params.len() - i,
    {
        let mut t = chars_of(params[i].0.as_str());
        extend_str(&mut t, "=");
        let enc = urlencode(params[i].1.as_str());
        extend_str(&mut t, enc.as_str());
        let ghost before = texts@;
        texts.push(t);
        proof {
            assert(ps[i as int] == (params@[i as int].0@, params@[i as int].1@));
            assert(views(texts@) =~= views(before).push(t@));
            assert(param_texts(ps).take(i + 1) =~= param_texts(ps).take(i as int).push(
                param_text(ps[i as int]),
            ));
        }
        i += 1;
    }
    assert(param_texts(ps).take(params.len() as int) =~= param_texts(ps));
    let base = endpoints.auth("/oauth/authorize");
    let mut v = chars_of(base.as_str());
    extend_str(&mut v, "?");
    let sep = chars_of("&");
    let q = join_exec(&texts, &sep);
    extend(&mut v, &q);
    extend_str(&mut v, "&continue");
    string_of(&v)
}

/// A nonce for the authorize request's `state`: sixteen random bytes.
pub fn nonce() -> (r: String)
    ensures
        exists|bytes: Seq<u8>| bytes.len() == 16 && r@ == base64url_of(bytes),
{
    let bytes = random_bytes(16);
    b64(&bytes)
}

/// The authorize URL for a PKCE pair, with a fresh state nonce.
pub fn authorize_url(endpoints: &Endpoints, pkce: &Pkce) -> (r: String)
    ensures
        exists|state: Seq<char>|
            r@ == authorize_url_text(endpoints.api@, endpoints.site@, state, pkce.challenge@),
{
    let state = nonce();
    authorize_url_with(endpoints, pkce, state.as_str())
}

/// Two strings from string slices.
fn pair(name: &str, value: &str) -> (r: (String, String))
    ensures
        r.0@ == name@,
        r.1@ == value@,
{
    (owned(name), owned(value))
}

/// The headers the API is called with: JSON, from the website, as an XHR.
/// OCC serves XML by default, and answers `403 Invalid CORS request` when
/// the origin is not the website.
pub open spec fn site_header_pairs(site: Seq<char>) -> Seq<(Seq<char>, Seq<char>)> {
    seq![
        ("accept"@, "application/json, text/plain, */*"@),
        ("origin"@, site),
        ("referer"@, site + "/"@),
        ("sec-fetch-dest"@, "empty"@),
        ("sec-fetch-mode"@, "cors"@),
        ("sec-fetch-site"@, "same-site"@),
    ]
}

/// The headers every API request carries, in order.
pub fn site_headers(endpoints: &Endpoints) -> (r: Vec<(String, String)>)
    ensures
        view_pairs(r@) == site_header_pairs(endpoints.site@),
{
    let mut referer = chars_of(endpoints.site.as_str());
    extend_str(&mut referer, "/");
    let mut r: Vec<(String, String)> = Vec::new();
    r.push(pair("accept", "application/json, text/plain, */*"));
    r.push((owned("origin"), endpoints.site.clone()));
    r.push((owned("referer"), string_of(&referer)));
    r.push(pair("sec-fetch-dest", "empty"));
    r.push(pair("sec-fetch-mode", "cors"));
    r.push(pair("sec-fetch-site", "same-site"));
    assert(view_pairs(r@) =~= site_header_pairs(endpoints.site@));
    r
}

/// The headers a browser sends on a navigation to the sign-in pages: HTML,
/// not JSON, and an origin only on the form post.
pub open spec fn navigation_header_pairs(site: Seq<char>, origin: Option<Seq<char>>) -> Seq<
    (Seq<char>, Seq<char>),
> {
    seq![
        ("accept"@, "text/html,application/xhtml+xml,application/xml;q=0.9,*/*;q=0.8"@),
        ("referer"@, site + "/"@),
        ("sec-fetch-dest"@, "document"@),
        ("sec-fetch-mode"@, "navigate"@),
        ("sec-fetch-site"@, "same-site"@),
        ("upgrade-insecure-requests"@, "1"@),
    ] + match origin {
        Some(o) => seq![("origin"@, o)],
        None => Seq::empty(),
    }
}

/// The headers of a navigation, in order.
pub fn navigation_headers(endpoints: &Endpoints, origin: Option<&str>) -> (r: Vec<
    (String, String),
>)
    ensures
        view_pairs(r@) == navigation_header_pairs(
            endpoints.site@,
            match origin {
                Some(o) => Some(o@),
                None => None,
            },
        ),
{
    let mut referer = chars_of(endpoints.site.as_str());
    extend_str(&mut referer, "/");
    let mut r: Vec<(String, String)> = Vec::new();
    r.push(pair("accept", "text/html,application/xhtml+xml,application/xml;q=0.9,*/*;q=0.8"));
    r.push((owned("referer"), string_of(&referer)));
    r.push(pair("sec-fetch-dest", "document"));
    r.push(pair("sec-fetch-mode", "navigate"));
    r.push(pair("sec-fetch-site", "same-site"));
    r.push(pair("upgrade-insecure-requests", "1"));
    match origin {
        Some(o) => r.push(pair("origin", o)),
        None => {},
    }
    assert(view_pairs(r@) =~= navigation_header_pairs(
        endpoints.site@,
        match origin {
            Some(o) => Some(o@),
            None => None,
        },
    ));
    r
}

/// The password form, in the order the page posts it.
pub fn password_form(endpoints: &Endpoints, username: &str, password: &str, csrf: &str) -> (r: Vec<
    (String, String),
>)
    ensures
        view_pairs(r@) == seq![
            ("username"@, username@),
            ("password"@, password@),
            ("remember-me"@, "on"@),
            ("_csrf"@, csrf@),
            ("loginPageUri"@, endpoints.site@ + "/login"@),
        ],
{
    let mut page = chars_of(endpoints.site.as_str());
    extend_str(&mut page, "/login");
    let mut r: Vec<(String, String)> = Vec::new();
    r.push(pair("username", username));
    r.push(pair("password", password));
    r.push(pair("remember-me", "on"));
    r.push(pair("_csrf", csrf));
    r.push((owned("loginPageUri"), string_of(&page)));
    assert(view_pairs(r@) =~= seq![
        ("username"@, username@),
        ("password"@, password@),
        ("remember-me"@, "on"@),
        ("_csrf"@, csrf@),
        ("loginPageUri"@, endpoints.site@ + "/login"@),
    ]);
    r
}

/// The form that exchanges a code for tokens.
pub fn exchange_form(endpoints: &Endpoints, code: &str, verifier: &str) -> (r: Vec<(String, String)>)
    ensures
        view_pairs(r@) == seq![
            ("grant_type"@, "authorization_code"@),
            ("code"@, code@),
            ("redirect_uri"@, endpoints.site@),
            ("code_verifier"@, verifier@),
            ("client_id"@, OAUTH_CLIENT_ID@),
        ],
{
    let mut r: Vec<(String, String)> = Vec::new();
    r.push(pair("grant_type", "authorization_code"));
    r.push(pair("code", code));
    r.push((owned("redirect_uri"), endpoints.site.clone()));
    r.push(pair("code_verifier", verifier));
    r.push(pair("client_id", OAUTH_CLIENT_ID));
    assert(view_pairs(r@) =~= seq![
        ("grant_type"@, "authorization_code"@),
        ("code"@, code@),
        ("redirect_uri"@, endpoints.site@),
        ("code_verifier"@, verifier@),
        ("client_id"@, OAUTH_CLIENT_ID@),
    ]);
    r
}

/// The form that mints a bearer from a refresh token.
pub fn refresh_form(refresh_token: &str) -> (r: Vec<(String, String)>)
    ensures
        view_pairs(r@) == seq![
            ("grant_type"@, "refresh_token"@),
            ("refresh_token"@, refresh_token@),
            ("client_id"@, OAUTH_CLIENT_ID@),
        ],
{
    let mut r: Vec<(String, String)> = Vec::new();
    r.push(pair("grant_type", "refresh_token"));
    r.push(pair("refresh_token", refresh_token));
    r.push(pair("client_id", OAUTH_CLIENT_ID));
    assert(view_pairs(r@) =~= seq![
        ("grant_type"@, "refresh_token"@),
        ("refresh_token"@, refresh_token@),
        ("client_id"@, OAUTH_CLIENT_ID@),
    ]);
    r
}

/// The form that revokes a token.
pub fn revoke_form(token: &str) -> (r: Vec<(String, String)>)
    ensures
        view_pairs(r@) == seq![("client_id"@, OAUTH_CLIENT_ID@), ("token"@, token@)],
{
    let mut r: Vec<(String, String)> = Vec::new();
    r.push(pair("client_id", OAUTH_CLIENT_ID));
    r.push(pair("token", token));
    assert(view_pairs(r@) =~= seq![("client_id"@, OAUTH_CLIENT_ID@), ("token"@, token@)]);
    r
}

/// Reads a string field of a JSON object in a body.
///
/// Parses the body's bytes with `serde_json::from_slice::<serde_json::Value>`
/// and takes `Value::get(name)` and `Value::as_str`; the result is what
/// [`json_str_claim`] names.
#[verifier::external_body]
fn json_field(body: &str, name: &str) -> (r: Option<String>)
    ensures
        opt_str(r) == json_str_claim(encode_utf8(body@), name@),
{
    serde_json::from_slice::<serde_json::Value>(body.as_bytes()).ok().and_then(|v| v.get(name).and_then(|c| c.as_str().map(|s| s.to_string())))
}

/// What a refused token exchange means: `invalid_grant` is a lapsed login,
/// a refused client is named, and anything else quotes the storefront.
pub open spec fn refusal_of(body: Seq<char>) -> (Seq<char>, Seq<char>) {
    let kind = match json_str_claim(encode_utf8(body), "error"@) {
        Some(k) => k,
        None => Seq::empty(),
    };
    let detail = match json_str_claim(encode_utf8(body), "error_description"@) {
        Some(d) => d,
        None => body,
    };
    (kind, detail)
}

/// Classify a refused token exchange. Both an expired refresh token and a
/// mismatched verifier arrive as `invalid_grant`, and both are fixed by
/// signing in again.
pub fn classify(body: &str) -> (e: Error)
    ensures
        refusal_of(body@).0 == "invalid_grant"@ ==> e is LoginLapsed,
        (refusal_of(body@).0 == "invalid_client"@ || refusal_of(body@).0 == "unauthorized_client"@)
            ==> (e matches Error::Shape(m) && m@ == "the storefront refused the OAuth client "@
            + OAUTH_CLIENT_ID@ + ": "@ + refusal_of(body@).1),
        !(refusal_of(body@).0 == "invalid_grant"@ || refusal_of(body@).0 == "invalid_client"@
            || refusal_of(body@).0 == "unauthorized_client"@) ==> (e matches Error::Shape(m) && m@
            == "the token endpoint refused the exchange: "@ + refusal_of(body@).1),
{
    proof {
        reveal_strlit("invalid_grant");
        reveal_strlit("invalid_client");
        reveal_strlit("unauthorized_client");
    }
    let kind = match json_field(body, "error") {
        Some(k) => chars_of(k.as_str()),
        None => Vec::new(),
    };
    let detail = match json_field(body, "error_description") {
        Some(d) => d,
        None => owned(body),
    };
    let grant = chars_of("invalid_grant");
    let client = chars_of("invalid_client");
    let unauthorized = chars_of("unauthorized_client");
    if crate::text::same(&kind, &grant) {
        assert("invalid_grant"@.len() != "invalid_client"@.len());
        assert("invalid_grant"@ != "unauthorized_client"@) by {
            assert("invalid_grant"@[0] != "unauthorized_client"@[0]);
        }
        return Error::LoginLapsed;
    }
    if crate::text::same(&kind, &client) || crate::text::same(&kind, &unauthorized) {
        let mut m = chars_of("the storefront refused the OAuth client ");
        extend_str(&mut m, OAUTH_CLIENT_ID);
        extend_str(&mut m, ": ");
        extend_str(&mut m, detail.as_str());
        return Error::Shape(string_of(&m));
    }
    let mut m = chars_of("the token endpoint refused the exchange: ");
    extend_str(&mut m, detail.as_str());
    Error::Shape(string_of(&m))
}

/// What the token endpoint's answer means: `Ok` when the body is the
/// tokens, a rate limit for a 429, and a classified refusal otherwise.
pub fn token_outcome(status: u16, body: &str) -> (r: Result<(), Error>)
    ensures
        status == 429 ==> r matches Err(Error::RateLimited { retry_after: None }),
        status != 429 && !(200 <= status < 300) ==> r is Err,
        status != 429 && 200 <= status < 300 ==> r is Ok,
        status != 429 && !(200 <= status < 300) ==> ((r matches Err(Error::LoginLapsed))
            <==> json_str_claim(encode_utf8(body@), "error"@) == Some("invalid_grant"@)),
        status != 429 && !(200 <= status < 300) && (refusal_of(body@).0 == "invalid_client"@
            || refusal_of(body@).0 == "unauthorized_client"@) ==> (r matches Err(Error::Shape(m))
            && m@ == "the storefront refused the OAuth client "@ + OAUTH_CLIENT_ID@ + ": "@
            + refusal_of(body@).1),
        status != 429 && !(200 <= status < 300) && !(refusal_of(body@).0 == "invalid_grant"@
            || refusal_of(body@).0 == "invalid_client"@ || refusal_of(body@).0
            == "unauthorized_client"@) ==> (r matches Err(Error::Shape(m)) && m@
            == "the token endpoint refused the exchange: "@ + refusal_of(body@).1),
{
    if status == 429 {
        return Err(Error::RateLimited { retry_after: None });
    }
    if !(200 <= status && status < 300) {
        proof {
            reveal_strlit("invalid_grant");
            let c = json_str_claim(encode_utf8(body@), "error"@);
            if c is None {
                assert(refusal_of(body@).0 == Seq::<char>::empty());
                assert(refusal_of(body@).0 != "invalid_grant"@);
            }
        }
        let e = classify(body);
        proof {
            if e is LoginLapsed {
                assert(refusal_of(body@).0 == "invalid_grant"@);
            }
        }
        return Err(e);
    }
    Ok(())
}

/// What the CSRF request answered: the token, or why there is none. A 403
/// means the sign-in endpoint will not talk to a client with no storefront
/// session.
pub fn csrf_token(status: u16, body: String) -> (r: Result<String, Error>)
    ensures
        status == 403 ==> r matches Err(Error::LoginUnavailable),
        status != 403 && !(200 <= status < 300) ==> (r matches Err(Error::Http { status: s, body: b })
            && s == Some(status) && b@ == body@),
        200 <= status < 300 ==> match json_str_claim(encode_utf8(body@), "token"@) {
            Some(t) => r matches Ok(x) && x@ == t,
            None => r matches Err(Error::Shape(m)) && m@ == "the CSRF answer carried no token"@,
        },
{
    if status == 403 {
        return Err(Error::LoginUnavailable);
    }
    if !(200 <= status && status < 300) {
        return Err(Error::Http { status: Some(status), body });
    }
    match json_field(body.as_str(), "token") {
        Some(t) => Ok(t),
        None => Err(Error::Shape(owned("the CSRF answer carried no token"))),
    }
}

/// What the password form's answer means. It answers a redirect either way:
/// back to the login page, or with `error` in the target, is a refusal.
pub fn password_outcome(status: u16, location: Option<String>, retry_after: Option<String>) -> (r:
    Result<(), Error>)
    ensures
        status == 429 ==> (r matches Err(Error::RateLimited { retry_after: ra }) && ra == match retry_after {
            Some(v) => parse_u64(v@),
            None => None,
        }),
        status != 429 && ({
            let l = match location {
                Some(l) => l@,
                None => Seq::empty(),
            };
            contains(l, "error"@) || contains(l, "/login"@)
        }) ==> r matches Err(Error::BadCredentials),
        status != 429 && !({
            let l = match location {
                Some(l) => l@,
                None => Seq::empty(),
            };
            contains(l, "error"@) || contains(l, "/login"@)
        }) && !(300 <= status < 400) ==> (r matches Err(Error::Shape(m)) && m@
            == "the sign-in form answered "@ + decimal(status as nat) + " rather than a redirect"@),
        status != 429 && !({
            let l = match location {
                Some(l) => l@,
                None => Seq::empty(),
            };
            contains(l, "error"@) || contains(l, "/login"@)
        }) && 300 <= status < 400 ==> r is Ok,
{
    if status == 429 {
        let ra = match &retry_after {
            Some(v) => parse_u64_exec(v.as_str()),
            None => None,
        };
        return Err(Error::RateLimited { retry_after: ra });
    }
    let l = match &location {
        Some(l) => chars_of(l.as_str()),
        None => Vec::new(),
    };
    let e = chars_of("error");
    let lg = chars_of("/login");
    if contains_exec(&l, &e) || contains_exec(&l, &lg) {
        return Err(Error::BadCredentials);
    }
    if !(300 <= status && status < 400) {
        let mut m = chars_of("the sign-in form answered ");
        let d = decimal_exec(status as u64);
        extend(&mut m, &d);
        extend_str(&mut m, " rather than a redirect");
        return Err(Error::Shape(string_of(&m)));
    }
    Ok(())
}

/// What the authorize request answered: the code its redirect carries, if
/// any; an answer with no redirect at all is a shape error.
pub fn authorize_outcome(status: u16, location: Option<String>) -> (r: Result<Option<String>, Error>)
    ensures
        location matches Some(l) ==> (r matches Ok(c) && opt_str(c) == code_of(l@)),
        location is None ==> (r matches Err(Error::Shape(m)) && m@ == "the authorize endpoint answered "@
            + decimal(status as nat) + " with no redirect to take a code from"@),
{
    match location {
        Some(l) => Ok(code_from(l.as_str())),
        None => {
            let mut m = chars_of("the authorize endpoint answered ");
            let d = decimal_exec(status as u64);
            extend(&mut m, &d);
            extend_str(&mut m, " with no redirect to take a code from");
            Err(Error::Shape(string_of(&m)))
        },
    }
}

/// The code to exchange once the password has been accepted. The first
/// authorize request is only priming and may carry no code; the second one
/// must, and an answer without one means the login did not take.
pub fn earned_code(code: Option<String>) -> (r: Result<String, Error>)
    ensures
        code matches Some(c) ==> (r matches Ok(x) && x@ == c@),
        code is None ==> r matches Err(Error::LoginLapsed),
{
    match code {
        Some(c) => Ok(c),
        None => Err(Error::LoginLapsed),
    }
}

} // verus!
