//! The client's state, and what it decides between requests.
//!
//! Almost everything is anonymous, the whole cart included; only what is
//! filed against a person needs a bearer. A lapsed bearer is renewed before
//! a request is spent rather than after it fails. Sending requests is the
//! caller's.

use vstd::prelude::*;
use vstd::utf8::encode_utf8;
use crate::mitre10::auth::Tokens;
use crate::mitre10::endpoints::{Algolia, Endpoints, BASE_SITE};
use crate::mitre10::error::Error;
use crate::mitre10::session::{Session, fresh_session};
use crate::mitre10::wire::{OccErrors, occ_error, occ_reason};
use crate::net_kit::secrets::Secrets;
use crate::text::{
    chars_of, contains, extend, extend_str, join, join_exec, opt_str, owned, percent_encode,
    percent_encode_str, string_of, strs, trim, trim_end_char, trim_end_char_exec, trim_exec,
    trim_start_char, trim_start_char_exec, views,
};

verus! {

/// How many codes one `priceForProducts` call takes.
pub const BATCH: usize = 18;

/// How many components one `cms/components` call resolves.
pub const COMPONENT_BATCH: usize = 50;

/// Where a session is filed, for a client that should keep what it earns.
#[derive(Clone, Debug)]
pub struct SessionStore {
    pub secrets: Secrets,
}

/// A client's state between requests.
#[derive(Debug)]
pub struct Client {
    endpoints: Endpoints,
    session: Session,
    /// The Algolia application, once known.
    algolia: Option<Algolia>,
    store: Option<SessionStore>,
    debug: bool,
}

/// A code zero-padded to the eighteen digits `priceForProducts` keys on,
/// whatever zeros it came with.
pub open spec fn padded(code: Seq<char>) -> Seq<char> {
    let t = trim_start_char(code, '0');
    if t.len() >= 18 {
        t
    } else {
        Seq::new((18 - t.len()) as nat, |i: int| '0') + t
    }
}

/// `priceForProducts` keys on the zero-padded eighteen-digit code.
pub fn pad(code: &str) -> (r: String)
    ensures
        r@ == padded(code@),
{
    let cs = chars_of(code);
    let t = trim_start_char_exec(&cs, '0');
    if t.len() >= 18 {
        return string_of(&t);
    }
    let mut v: Vec<char> = Vec::new();
    let n = 18 - t.len();
    let mut i: usize = 0;
    while i < n
        invariant
            i <= n,
            v@ == Seq::new(i as nat, |k: int| '0'),
        decreases n - i,
    {
        v.push('0');
        assert(v@ =~= Seq::new((i + 1) as nat, |k: int| '0'));
        i += 1;
    }
    extend(&mut v, &t);
    string_of(&v)
}

/// A query value percent-encoded, a comma kept: the batch endpoint
/// separates codes on it.
pub open spec fn occ_encoded(value: Seq<char>) -> Seq<char> {
    percent_encode(encode_utf8(value), true)
}

/// Percent-encode a query value, keeping commas.
pub fn encode(value: &str) -> (r: String)
    ensures
        r@ == occ_encoded(value@),
{
    let v = percent_encode_str(value, true);
    string_of(&v)
}

/// The parameters without the locale and currency.
pub open spec fn given_parts(q: Seq<(&str, String)>) -> Seq<Seq<char>>
    decreases q.len(),
{
    if q.len() == 0 {
        Seq::empty()
    } else {
        let p = q.last();
        if p.1@.len() > 0 {
            given_parts(q.drop_last()).push(p.0@ + "="@ + occ_encoded(p.1@))
        } else {
            given_parts(q.drop_last())
        }
    }
}

/// An OCC URL with its parameters: empty values dropped, `lang` and `curr`
/// last.
pub open spec fn occ_url(api: Seq<char>, path: Seq<char>, q: Seq<(&str, String)>) -> Seq<char> {
    api + "/occ/v2/"@ + BASE_SITE@ + path + "?"@ + join(
        given_parts(q) + seq!["lang=en"@, "curr=NZD"@],
        "&"@,
    )
}

/// What an OCC answer means. Outside 2xx the body's own `errors[]` speaks
/// first, then the status's particular meanings, then the status itself. A
/// blank body is an empty answer rather than a decode failure.
pub open spec fn occ_failed(operation: &'static str, status: u16, text: Seq<char>, parsed: Option<OccErrors>, e: Error) -> bool {
    match parsed {
        Some(p) if p.errors@.len() > 0 => e matches Error::Occ { operation: o, message: m } && o
            == operation && m@ == occ_reason(p.errors@[0]),
        _ => if status == 401 {
            e is SessionExpired
        } else if status == 403 && contains(text, "Invalid CORS request"@) {
            e is Cors
        } else if status == 429 {
            e matches Error::RateLimited { retry_after: None }
        } else {
            e matches Error::Http { status: s, body: b } && s == Some(status) && b@ == text
        },
    }
}

/// A refused OCC answer: the body's own first error speaks where it has
/// any; otherwise a 401 is a lapsed bearer (a refresh fixes it), a 403 that
/// names an invalid CORS request is a refused origin, a 429 is a rate limit,
/// and any other status is reported with its body.
pub proof fn lemma_occ_refusals(operation: &'static str, status: u16, text: Seq<char>, parsed: Option<OccErrors>, e: Error)
    requires
        occ_failed(operation, status, text, parsed, e),
    ensures
        parsed matches Some(p) && p.errors@.len() > 0 ==> (e matches Error::Occ { operation: o, message: m }
            && o == operation && m@ == occ_reason(parsed->0.errors@[0])),
        !(parsed matches Some(p) && p.errors@.len() > 0) ==> {
            &&& status == 401 <==> (e is SessionExpired || e is NotSignedIn)
            &&& status == 401 ==> e is SessionExpired
            &&& status == 403 && contains(text, "Invalid CORS request"@) <==> e is Cors
            &&& status == 429 <==> e is RateLimited
            &&& status != 401 && !(status == 403 && contains(text, "Invalid CORS request"@)) && status
                != 429 ==> (e matches Error::Http { status: s, body: b } && s == Some(status) && b@ == text)
        },
{
}

/// What an OCC answer means: its text to decode, nothing for a blank one,
/// or the refusal it carries. `parsed` is the body decoded as a list of
/// errors, where it decodes as one.
pub fn occ_outcome(operation: &'static str, status: u16, text: String, parsed: Option<OccErrors>) -> (r:
    Result<Option<String>, Error>)
    ensures
        !(200 <= status < 300) ==> (r matches Err(e) && occ_failed(operation, status, text@, parsed, e)),
        200 <= status < 300 && trim(text@).len() == 0 ==> r matches Ok(None),
        200 <= status < 300 && trim(text@).len() > 0 ==> (r matches Ok(Some(t)) && t@ == text@),
{
    if !(200 <= status && status < 300) {
        let had = match &parsed {
            Some(p) => p.errors.len() > 0,
            None => false,
        };
        if had {
            match occ_error(operation, parsed) {
                Some(e) => return Err(e),
                None => {},
            }
        }
        match Error::from_status(status, text.as_str()) {
            Some(e) => return Err(e),
            None => {},
        }
        return Err(Error::Http { status: Some(status), body: text });
    }
    let cs = chars_of(text.as_str());
    let t = trim_exec(&cs);
    if t.len() == 0 {
        return Ok(None);
    }
    Ok(Some(text))
}

impl Client {
    /// The session the client holds.
    pub closed spec fn current(&self) -> Session {
        self.session
    }

    /// The Algolia application, once known.
    pub closed spec fn algolia_known(&self) -> Option<Algolia> {
        self.algolia
    }

    /// Whether a store was given.
    pub closed spec fn has_store(&self) -> bool {
        self.store is Some
    }

    /// Whether narration is on.
    pub closed spec fn debugging(&self) -> bool {
        self.debug
    }

    /// The endpoints it calls.
    pub closed spec fn endpoints_of(&self) -> Endpoints {
        self.endpoints
    }

    /// A client for a storefront and a session, knowing the Algolia
    /// application where the endpoints name one.
    pub fn new(endpoints: Endpoints, session: Session) -> (c: Client)
        ensures
            c.current() == session,
            c.endpoints_of() == endpoints,
            !c.has_store(),
            !c.debugging(),
            (c.algolia_known() is Some) == (endpoints.algolia is Some),
    {
        let algolia = match &endpoints.algolia {
            Some(a) => Some(a.clone()),
            None => None,
        };
        Client { endpoints, session, algolia, store: None, debug: false }
    }

    /// The same client, filing what it earns in a store, or not.
    pub fn with_session_store(self, store: Option<SessionStore>) -> (c: Client)
        ensures
            c.current() == self.current(),
            c.endpoints_of() == self.endpoints_of(),
            c.has_store() == store is Some,
            c.debugging() == self.debugging(),
            c.algolia_known() == self.algolia_known(),
    {
        Client { store, ..self }
    }

    /// The same client, narrating or not.
    pub fn with_debug(self, debug: bool) -> (c: Client)
        ensures
            c.current() == self.current(),
            c.endpoints_of() == self.endpoints_of(),
            c.has_store() == self.has_store(),
            c.debugging() == debug,
            c.algolia_known() == self.algolia_known(),
    {
        Client { debug, ..self }
    }

    pub fn endpoints(&self) -> (e: &Endpoints)
        ensures
            *e == self.endpoints_of(),
    {
        &self.endpoints
    }

    /// A copy of the session.
    pub fn session(&self) -> (s: Session)
        ensures
            opt_str(s.access_token) == opt_str(self.current().access_token),
            opt_str(s.refresh_token) == opt_str(self.current().refresh_token),
            s.expires_at == self.current().expires_at,
            opt_str(s.email) == opt_str(self.current().email),
    {
        let s = Session {
            access_token: copy(&self.session.access_token),
            refresh_token: copy(&self.session.refresh_token),
            expires_at: self.session.expires_at,
            email: copy(&self.session.email),
        };
        s
    }

    /// Whether there is a bearer, or a token to mint one.
    pub fn is_signed_in(&self) -> (r: bool)
        ensures
            r == (self.current().access_token is Some || self.current().refresh_token is Some),
    {
        self.session.access_token.is_some() || self.session.can_refresh()
    }

    /// Refuse an account-only call before it is made.
    pub fn require_session(&self) -> (r: Result<(), Error>)
        ensures
            (self.current().access_token is Some || self.current().refresh_token is Some) ==> r is Ok,
            !(self.current().access_token is Some || self.current().refresh_token is Some) ==> r matches Err(
                Error::NotSignedIn,
            ),
    {
        if self.is_signed_in() {
            Ok(())
        } else {
            Err(Error::NotSignedIn)
        }
    }

    /// Whose cart a path names: the signed-in customer's where a token can
    /// be minted, else the anonymous one.
    pub fn user(&self) -> (r: &'static str)
        ensures
            r@ == if self.current().refresh_token is Some {
                "current"@
            } else {
                "anonymous"@
            },
    {
        if self.session.can_refresh() {
            "current"
        } else {
            "anonymous"
        }
    }

    /// Whether the bearer should be renewed before a request is spent, at a
    /// given moment: there is a token to renew from, and the bearer is not
    /// fresh.
    pub fn needs_renewal_at(&self, now: u64) -> (r: bool)
        ensures
            r == (self.current().refresh_token is Some && !fresh_session(self.current(), now)),
    {
        self.session.can_refresh() && !self.session.token_fresh_at(now)
    }

    /// The Algolia application, if it is already known.
    pub fn algolia(&self) -> (r: Option<Algolia>)
        ensures
            (r is Some) == (self.algolia_known() is Some),
            r matches Some(a) ==> a.app_id@ == self.algolia_known()->0.app_id@
                && a.search_key@ == self.algolia_known()->0.search_key@,
    {
        match &self.algolia {
            Some(a) => Some(Algolia { app_id: a.app_id.clone(), search_key: a.search_key.clone() }),
            None => None,
        }
    }

    /// Keep the Algolia application once fetched; the last writer wins.
    pub fn remember_algolia(&mut self, algolia: Algolia)
        ensures
            final(self).algolia_known() == Some(algolia),
            final(self).current() == old(self).current(),
            final(self).endpoints_of() == old(self).endpoints_of(),
            final(self).has_store() == old(self).has_store(),
    {
        self.algolia = Some(algolia);
    }

    /// Take new tokens into the session, and say what to file where this
    /// client was given somewhere to file it.
    pub fn adopt(&mut self, tokens: Tokens) -> (filed: Option<Session>)
        ensures
            final(self).current().access_token matches Some(a) && a@ == tokens.access_token@,
            tokens.refresh_token is Some ==> final(self).current().refresh_token
                == tokens.refresh_token,
            tokens.refresh_token is None ==> final(self).current().refresh_token == old(
                self,
            ).current().refresh_token,
            (filed is Some) == old(self).has_store(),
            filed matches Some(s) ==> opt_str(s.access_token) == opt_str(
                final(self).current().access_token,
            ) && opt_str(s.refresh_token) == opt_str(final(self).current().refresh_token),
            final(self).has_store() == old(self).has_store(),
    {
        tokens.apply(&mut self.session);
        match &self.store {
            Some(_) => Some(self.session()),
            None => None,
        }
    }

    /// Forget the tokens, saying which one to revoke: the bearer, else the
    /// refresh token.
    pub fn forget_tokens(&mut self) -> (revoke: Option<String>)
        ensures
            opt_str(revoke) == match old(self).current().access_token {
                Some(a) => Some(a@),
                None => opt_str(old(self).current().refresh_token),
            },
            final(self).current().access_token is None,
            final(self).current().refresh_token is None,
            final(self).current().expires_at is None,
            final(self).has_store() == old(self).has_store(),
    {
        let token = match &self.session.access_token {
            Some(a) => Some(a.clone()),
            None => copy(&self.session.refresh_token),
        };
        self.session = Session::empty();
        token
    }

    /// An OCC URL with its parameters: empty values dropped, each value
    /// encoded, and `lang` and `curr` last.
    pub fn url(&self, path: &str, query: &[(&str, String)]) -> (r: String)
        ensures
            r@ == occ_url(self.endpoints_of().api@, path@, query@),
    {
        let mut parts: Vec<Vec<char>> = Vec::new();
        let mut i: usize = 0;
        while i < query.len()
            invariant
                i <= query.len(),
                views(parts@) == given_parts(query@.take(i as int)),
            decreases query.len() - i,
        {
            proof {
                assert(query@.take(i + 1).drop_last() =~= query@.take(i as int));
                assert(query@.take(i + 1).last() == query@[i as int]);
            }
            let v = chars_of(query[i].1.as_str());
            if v.len() > 0 {
                let mut p = chars_of(query[i].0);
                extend_str(&mut p, "=");
                let e = encode(query[i].1.as_str());
                extend_str(&mut p, e.as_str());
                let ghost before = parts@;
                parts.push(p);
                assert(views(parts@) =~= views(before).push(p@));
            }
            i += 1;
        }
        assert(query@.take(query.len() as int) =~= query@);
        let ghost given = views(parts@);
        parts.push(chars_of("lang=en"));
        parts.push(chars_of("curr=NZD"));
        assert(views(parts@) =~= given + seq!["lang=en"@, "curr=NZD"@]);
        let base = self.endpoints.occ(path);
        let mut out = chars_of(base.as_str());
        extend_str(&mut out, "?");
        let sep = chars_of("&");
        let q = join_exec(&parts, &sep);
        extend(&mut out, &q);
        string_of(&out)
    }
}

/// A copy of an optional string.
fn copy(o: &Option<String>) -> (r: Option<String>)
    ensures
        opt_str(r) == opt_str(*o),
{
    match o {
        Some(s) => Some(s.clone()),
        None => None,
    }
}

/// A padded code pads again to itself: padding is idempotent.
pub proof fn lemma_padding_is_idempotent(code: Seq<char>)
    ensures
        padded(padded(code)) == padded(code),
{
    let t = trim_start_char(code, '0');
    crate::text::lemma_trim_start_char_idempotent(code, '0');
    if t.len() < 18 {
        let z = Seq::new((18 - t.len()) as nat, |i: int| '0');
        crate::text::lemma_trim_start_char_zeros(z, t, '0');
    }
}

/// Turn the storefront's refusal of an unknown code into the crate's own
/// "no such thing": a `400` or a `404` names the code as missing, anything
/// else is a real failure.
pub fn no_such(error: Error, missing: Error) -> (e: Error)
    ensures
        (error matches Error::Http { status: Some(s), .. } && (s == 400 || s == 404)) ==> e == missing,
        !(error matches Error::Http { status: Some(s), .. } && (s == 400 || s == 404)) ==> e == error,
{
    match &error {
        Error::Http { status: Some(s), .. } => {
            if *s == 400 || *s == 404 {
                return missing;
            }
        },
        _ => {},
    }
    error
}

/// The delivery-pricing group a postcode answer names: a bare number, not
/// JSON, trimmed of space and then of quotes. An empty answer names none.
pub open spec fn postcode_group_of(body: Seq<char>) -> Seq<char> {
    trim_end_char(trim_start_char(trim(body), '"'), '"')
}

/// The refusal for a postcode with no delivery group.
pub open spec fn no_group(postcode: Seq<char>) -> Seq<char> {
    "no delivery group for postcode "@ + postcode
}

/// The delivery-pricing group out of the postcode endpoint's answer; an
/// answer with nothing in it is a shape error naming the postcode.
pub fn postcode_group(body: &str, postcode: &str) -> (r: Result<String, Error>)
    ensures
        postcode_group_of(body@).len() > 0 ==> (r matches Ok(g) && g@ == postcode_group_of(body@)),
        postcode_group_of(body@).len() == 0 ==> (r matches Err(Error::Shape(m)) && m@ == no_group(postcode@)),
{
    let cs = chars_of(body);
    let t = trim_exec(&cs);
    let front = trim_start_char_exec(&t, '"');
    let g = trim_end_char_exec(&front, '"');
    if g.len() == 0 {
        let mut m = chars_of("no delivery group for postcode ");
        extend_str(&mut m, postcode);
        return Err(Error::Shape(string_of(&m)));
    }
    Ok(string_of(&g))
}

/// The codes of one `priceForProducts` call: the `i`th run of up to
/// [`BATCH`] codes, each zero-padded, separated by commas.
pub open spec fn batch_codes(codes: Seq<Seq<char>>, i: int) -> Seq<char> {
    let start = i * BATCH;
    let end = if start + BATCH < codes.len() {
        start + BATCH
    } else {
        codes.len() as int
    };
    join(codes.subrange(start, end).map_values(|c: Seq<char>| padded(c)), ","@)
}

/// How many `priceForProducts` calls a list of codes takes.
pub open spec fn batch_count(n: int) -> int {
    (n + BATCH - 1) / BATCH as int
}

/// The `productCodes` of each `priceForProducts` call for a list of codes:
/// runs of up to [`BATCH`], in order, each code zero-padded, as the endpoint
/// keys on them.
pub fn price_batches(codes: &Vec<String>) -> (r: Vec<String>)
    ensures
        r@.len() == batch_count(codes@.len() as int),
        forall|i: int| 0 <= i < r@.len() ==> (#[trigger] r@[i])@ == batch_codes(strs(codes@), i),
{
    let ghost cs = strs(codes@);
    let mut out: Vec<String> = Vec::new();
    let mut start: usize = 0;
    let n = codes.len();
    while start < n
        invariant
            cs == strs(codes@),
            n == codes@.len(),
            start <= n,
            start < n ==> out@.len() * BATCH == start,
            start == n ==> out@.len() == batch_count(n as int),
            forall|i: int| 0 <= i < out@.len() ==> (#[trigger] out@[i])@ == batch_codes(cs, i),
        decreases n - start,
    {
        let end = if n - start > BATCH {
            start + BATCH
        } else {
            n
        };
        let ghost chunk = cs.subrange(start as int, end as int).map_values(|c: Seq<char>| padded(c));
        let mut parts: Vec<Vec<char>> = Vec::new();
        let mut j = start;
        while j < end
            invariant
                start <= j <= end,
                end <= n,
                n == codes@.len(),
                cs == strs(codes@),
                views(parts@) == cs.subrange(start as int, j as int).map_values(|c: Seq<char>| padded(c)),
            decreases end - j,
        {
            let p = pad(codes[j].as_str());
            let pc = chars_of(p.as_str());
            let ghost before = parts@;
            parts.push(pc);
            proof {
                assert(views(parts@) =~= views(before).push(pc@));
                assert(cs.subrange(start as int, j + 1) =~= cs.subrange(start as int, j as int).push(cs[j as int]));
                assert(cs[j as int] == codes@[j as int]@);
                assert(cs.subrange(start as int, j + 1).map_values(|c: Seq<char>| padded(c)) =~= cs.subrange(
                    start as int,
                    j as int,
                ).map_values(|c: Seq<char>| padded(c)).push(padded(cs[j as int])));
            }
            j += 1;
        }
        let sep = chars_of(",");
        let joined = join_exec(&parts, &sep);
        let ghost k = out@.len();
        proof {
            assert(k * BATCH == start);
            assert(k * BATCH == start as int) by (nonlinear_arith)
                requires k * BATCH == start;
            assert(batch_codes(cs, k as int) == join(chunk, ","@));
        }
        out.push(string_of(&joined));
        proof {
            if end < n {
                assert((k + 1) * BATCH == start + BATCH) by (nonlinear_arith)
                    requires k * BATCH == start;
            } else {
                assert(batch_count(n as int) == k + 1) by (nonlinear_arith)
                    requires k * BATCH == start, start < n, n <= start + BATCH, BATCH == 18;
            }
        }
        start = end;
    }
    proof {
        if n == 0 {
            assert(batch_count(0) == 0);
        }
    }
    out
}

/// Whether a call came back with a lapsed bearer.
pub open spec fn lapse<T>(o: Result<T, Error>) -> bool {
    match o {
        Err(e) => e is SessionExpired || e is NotSignedIn,
        Ok(_) => false,
    }
}

/// What follows an answer to a call that needs the account.
pub enum Renewal<T> {
    /// The call is done, and this is what it came to.
    Answer(Result<T, Error>),
    /// The bearer had lapsed: renew it and make the call once more.
    RenewAndRetry,
}

/// Decide what follows an account call's answer: a lapsed bearer on the
/// first try is renewed and the call made once more; anything else, or a
/// lapse on the second try, is the answer.
pub fn after_authed<T>(first: bool, outcome: Result<T, Error>) -> (r: Renewal<T>)
    ensures
        first && lapse(outcome) ==> r is RenewAndRetry,
        !(first && lapse(outcome)) ==> r == Renewal::<T>::Answer(outcome),
{
    match outcome {
        Err(e) => {
            if first && e.is_lapsed() {
                Renewal::RenewAndRetry
            } else {
                Renewal::Answer(Err(e))
            }
        },
        Ok(v) => Renewal::Answer(Ok(v)),
    }
}

} // verus!
