//! The client's state, and every decision it makes between requests.
//!
//! Sending a request is the caller's: what is held here is the session a
//! command's calls share, whether this run has warmed yet, and what each kind
//! of answer means -- a deny page, a challenge, a redirect to the sign-in
//! page, a refused warm-up. Each decision is a function from what came back
//! to what happens next.

use vstd::prelude::*;
use crate::farmers::domain::{flat, flat_list, flat_view, Account, Category, Hit};
use crate::farmers::endpoints::Endpoints;
use crate::farmers::error::{challenge_page, deny_page, is_challenge_page, is_deny_page, Error};
use crate::farmers::session::{Session, StoredSession, kept_names, rewarmed, signed_in, warm};
use crate::net_kit::password::Source;
use crate::net_kit::secrets::Secrets;
use crate::farmers::stores::{region, region_index, regions};
use crate::ordered::{restrict, to_map, view_pairs};
use crate::farmers::auth::{synchronizer_token, token_of};
use crate::text::{
    chars_of, contains, contains_exec, decimal, decimal_exec, eq_str, extend, extend_str, hex_digits,
    hex_digits_exec, is_hex_digit, lemma_hex_digits, lower, lowered, opt_str, owned, string_of,
    to_lower,
    to_lowercase_str, trim, trim_end_char, trim_end_char_exec, trim_exec, trim_start_char,
    trim_start_char_exec,
};

verus! {

/// How deep the category tree is asked for when nothing says otherwise:
/// the whole of the site's own menu.
pub const DEFAULT_DEPTH: usize = 3;

/// Where a session is filed, for a client that should keep what it earns.
#[derive(Clone, Debug)]
pub struct SessionStore {
    pub secrets: Secrets,
}

/// What a client needs to sign itself in again, with nobody at the keyboard:
/// there is no grant to renew from, so renewing is running the sign-in form
/// again with the typing already answered.
#[derive(Clone, Debug)]
pub struct Reauth {
    pub email: String,
    pub password: Source,
    pub secrets: Secrets,
}

/// A client's state between requests.
#[derive(Debug)]
pub struct Client {
    endpoints: Endpoints,
    /// Replaced as calls absorb cookies, so one command's later calls use the
    /// session its earlier ones bought.
    session: Session,
    store: Option<SessionStore>,
    reauth: Option<Reauth>,
    /// Whether a warmer -- a browser that earns the bot manager's cookies --
    /// was given.
    warmer: bool,
    /// Whether this process has warmed yet. Separate from the session's own
    /// warmth: a restored session has cookies and still counts as unwarmed.
    warmed: bool,
    /// What the search backend is told this browser is called.
    client_id: String,
    debug: bool,
}

/// The clock, in nanoseconds since the Unix epoch.
///
/// Reads `std::time::SystemTime::now()` from `UNIX_EPOCH`, zero before it.
/// What the clock says is not stated: it changes from call to call.
#[verifier::external_body]
fn now_nanos() -> (n: u128) {
    std::time::SystemTime::now()
        .duration_since(std::time::UNIX_EPOCH)
        .map(|d| d.as_nanos())
        .unwrap_or(0)
}

/// The id a moment in nanoseconds makes: shaped like the UUID the site's own
/// script generates, `8-4-4-4-12` lower-case hex digits, the third group
/// starting `4` and the fourth `8`.
pub open spec fn client_id_text(n: u128) -> Seq<char> {
    hex_digits(((n >> 96u128) as u32 ^ n as u32) as nat, 8) + "-"@ + hex_digits(
        (n >> 80u128) as u16 as nat,
        4,
    ) + "-4"@ + hex_digits(((n >> 64u128) as u16 & 0x0fffu16) as nat, 3) + "-8"@ + hex_digits(
        ((n >> 48u128) as u16 & 0x0fffu16) as nat,
        3,
    ) + "-"@ + hex_digits((n as u64 & 0xffff_ffff_ffffu64) as nat, 12)
}

/// An opaque id for the search backend to count visits with, from a moment
/// in nanoseconds. Not a credential: nothing is authorised by it.
pub fn client_id_from(n: u128) -> (id: String)
    ensures
        id@ == client_id_text(n),
{
    let a = (n >> 96u128) as u32 ^ n as u32;
    let b = (n >> 80u128) as u16;
    let c = (n >> 64u128) as u16 & 0x0fffu16;
    let d = (n >> 48u128) as u16 & 0x0fffu16;
    let e = n as u64 & 0xffff_ffff_ffffu64;
    let mut v = hex_digits_exec(a as u64, 8);
    extend_str(&mut v, "-");
    let x = hex_digits_exec(b as u64, 4);
    extend(&mut v, &x);
    extend_str(&mut v, "-4");
    let x = hex_digits_exec(c as u64, 3);
    extend(&mut v, &x);
    extend_str(&mut v, "-8");
    let x = hex_digits_exec(d as u64, 3);
    extend(&mut v, &x);
    extend_str(&mut v, "-");
    let x = hex_digits_exec(e, 12);
    extend(&mut v, &x);
    string_of(&v)
}

/// Every such id is thirty-six characters: hex digits, with dashes at the
/// four places a UUID has them.
pub proof fn lemma_client_id_shape(n: u128)
    ensures
        client_id_text(n).len() == 36,
        forall|i: int|
            0 <= i < 36 ==> (if i == 8 || i == 13 || i == 18 || i == 23 {
                #[trigger] client_id_text(n)[i] == '-'
            } else {
                is_hex_digit(client_id_text(n)[i])
            }),
{
    reveal_strlit("-");
    reveal_strlit("-4");
    reveal_strlit("-8");
    let a = ((n >> 96u128) as u32 ^ n as u32) as nat;
    let b = (n >> 80u128) as u16 as nat;
    let c = ((n >> 64u128) as u16 & 0x0fffu16) as nat;
    let d = ((n >> 48u128) as u16 & 0x0fffu16) as nat;
    let e = (n as u64 & 0xffff_ffff_ffffu64) as nat;
    lemma_hex_digits(a, 8);
    lemma_hex_digits(b, 4);
    lemma_hex_digits(c, 3);
    lemma_hex_digits(d, 3);
    lemma_hex_digits(e, 12);
    let s = client_id_text(n);
    assert forall|i: int|
        0 <= i < 36 implies (if i == 8 || i == 13 || i == 18 || i == 23 {
        #[trigger] s[i] == '-'
    } else {
        is_hex_digit(s[i])
    }) by {
        if i < 8 {
            assert(s[i] == hex_digits(a, 8)[i]);
        } else if i == 8 {
        } else if i < 13 {
            assert(s[i] == hex_digits(b, 4)[i - 9]);
        } else if i == 13 {
        } else if i == 14 {
            assert(s[i] == '4');
        } else if i < 18 {
            assert(s[i] == hex_digits(c, 3)[i - 15]);
        } else if i == 18 {
        } else if i == 19 {
            assert(s[i] == '8');
        } else if i < 23 {
            assert(s[i] == hex_digits(d, 3)[i - 20]);
        } else if i == 23 {
        } else {
            assert(s[i] == hex_digits(e, 12)[i - 24]);
        }
    }
}

/// A fresh id for this run, from the clock.
pub fn client_id() -> (id: String)
    ensures
        exists|n: u128| id@ == client_id_text(n),
{
    client_id_from(now_nanos())
}

/// What a warm-up does next.
#[derive(Clone, Copy, Debug, PartialEq, Eq, Structural)]
pub enum WarmStep {
    /// This process already warmed: nothing to do.
    Done,
    /// A warmer is set and the stored session already carries an `_abck`:
    /// take it at its word rather than start a browser.
    KeepStored,
    /// Warm: ask the warmer where there is one, else fetch the home page.
    Warm,
}

/// What to do for an account-only call.
#[derive(Clone, Copy, Debug, PartialEq, Eq, Structural)]
pub enum AccountStep {
    /// The session claims an account: go ahead.
    Ready,
    /// It does not, but a sign-in can be run with nobody at the keyboard.
    Renew,
    /// It does not, and nothing can fix that without a person.
    Refuse,
}

/// Whether a redirect target is the sign-in page: `/login`, or the
/// `TargetPipeline` parameter Intershop sends an account page's visitor with.
pub open spec fn sign_in_target(target: Seq<char>) -> bool {
    contains(lower(target), "/login"@) || contains(lower(target), "targetpipeline"@)
}

/// Whether a redirect target is the sign-in page.
pub fn is_sign_in_redirect(target: &str) -> (r: bool)
    ensures
        r == sign_in_target(target@),
{
    let cs = chars_of(target);
    let l = to_lower(&cs);
    let a = chars_of("/login");
    let b = chars_of("targetpipeline");
    contains_exec(&l, &a) || contains_exec(&l, &b)
}

/// Whether an answer is from the person being asked about: the storefront's
/// email first and the session's only as a fallback, compared without case
/// or surrounding space. Unknown means no.
pub open spec fn same_person(account_email: Option<Seq<char>>, session_email: Option<Seq<char>>, email: Seq<char>) -> bool {
    let known = match account_email {
        Some(e) => Some(e),
        None => session_email,
    };
    match known {
        Some(k) => lowered(trim(k)) == lowered(trim(email)),
        None => false,
    }
}

/// Whether an account answer and a session are the person asked for.
pub fn is_the_same_person(account: &Account, session: &Session, email: &str) -> (r: bool)
    ensures
        r == same_person(opt_str(account.email), opt_str(session.filed_email()), email@),
{
    let known = match &account.email {
        Some(e) => e.as_str(),
        None => match session.email() {
            Some(e) => e.as_str(),
            None => return false,
        },
    };
    let k = chars_of(known);
    let kt = string_of(&trim_exec(&k));
    let kl = to_lowercase_str(kt.as_str());
    let w = chars_of(email);
    let wt = string_of(&trim_exec(&w));
    let wl = to_lowercase_str(wt.as_str());
    eq_str(kl.as_str(), wl.as_str())
}

/// Which "not signed in" a redirect to the sign-in page is: a session that
/// claimed an account has lapsed and can be renewed; one that never did
/// needs a sign-in.
pub fn lapsed(signed_in: bool) -> (e: Error)
    ensures
        signed_in ==> e is SessionExpired,
        !signed_in ==> e is NotSignedIn,
{
    if signed_in {
        Error::SessionExpired
    } else {
        Error::NotSignedIn
    }
}

/// Turn an upstream 404 into the crate's own "no such thing". Only a 404:
/// an unknown parameter is ignored rather than refused, so anything else is
/// a real failure.
pub fn not_found(error: Error, missing: Error) -> (e: Error)
    ensures
        (error matches Error::Http { status: Some(s), .. } && s == 404) ==> e == missing,
        !(error matches Error::Http { status: Some(s), .. } && s == 404) ==> e == error,
{
    match &error {
        Error::Http { status: Some(s), .. } => {
            if *s == 404 {
                return missing;
            }
        },
        _ => {},
    }
    error
}

/// A second refusal is reported as having happened after a fresh warm-up;
/// anything else is passed on as it is.
pub fn after_retry(e: Error) -> (r: Error)
    ensures
        e is Denied ==> r == (Error::Denied { warmed: true }),
        !(e is Denied) ==> r == e,
{
    match e {
        Error::Denied { .. } => Error::Denied { warmed: true },
        other => other,
    }
}

/// What a successful fetch's body means: the interstitial challenge, the
/// deny page, or the answer.
pub fn fetch_outcome(body: &str) -> (r: Result<(), Error>)
    ensures
        challenge_page(body@) ==> r matches Err(Error::Challenged),
        !challenge_page(body@) && deny_page(body@) ==> r matches Err(Error::Denied { warmed: false }),
        !challenge_page(body@) && !deny_page(body@) ==> r is Ok,
{
    if is_challenge_page(body) {
        return Err(Error::Challenged);
    }
    if is_deny_page(body) {
        return Err(Error::Denied { warmed: false });
    }
    Ok(())
}

/// What a POST to a pipeline answered. `302` is success here, so anything
/// from 200 to 399 that is not a refusal is the answer.
pub fn post_outcome(status: u16, body: String) -> (r: Result<String, Error>)
    ensures
        challenge_page(body@) ==> r matches Err(Error::Challenged),
        !challenge_page(body@) && (deny_page(body@) || (status == 403 && contains(
            body@,
            "Access Denied"@,
        ))) ==> r matches Err(Error::Denied { warmed: false }),
        !challenge_page(body@) && !(deny_page(body@) || (status == 403 && contains(
            body@,
            "Access Denied"@,
        ))) && status == 429 && contains(body@, "cpr_chlge"@) ==> r matches Err(Error::Challenged),
        !challenge_page(body@) && !(deny_page(body@) || (status == 403 && contains(
            body@,
            "Access Denied"@,
        ))) && !(status == 429 && contains(body@, "cpr_chlge"@)) && !(200 <= status < 400) ==> (
        r matches Err(Error::Http { status: s, body: b }) && s == Some(status) && b@ == body@),
        !challenge_page(body@) && !(deny_page(body@) || (status == 403 && contains(
            body@,
            "Access Denied"@,
        ))) && !(status == 429 && contains(body@, "cpr_chlge"@)) && (200 <= status < 400) ==> (
        r matches Ok(b) && b@ == body@),
{
    if is_challenge_page(body.as_str()) {
        return Err(Error::Challenged);
    }
    let cs = chars_of(body.as_str());
    let denied_text = chars_of("Access Denied");
    if is_deny_page(body.as_str()) || (status == 403 && contains_exec(&cs, &denied_text)) {
        return Err(Error::Denied { warmed: false });
    }
    let cpr = chars_of("cpr_chlge");
    if status == 429 && contains_exec(&cs, &cpr) {
        return Err(Error::Challenged);
    }
    if !(200 <= status && status < 400) {
        return Err(Error::Http { status: Some(status), body });
    }
    Ok(body)
}

/// What a page fetched as a navigation answered.
///
/// A redirect to the sign-in page is the evidence of a lapsed session -- in
/// the `Location` header or, where that is absent, in the body's meta
/// refresh -- and any other redirect is a surprise worth naming. Anything
/// else outside 2xx is an HTTP failure.
pub fn page_outcome(
    what: &str,
    status: u16,
    location: Option<String>,
    body: String,
    signed_in: bool,
) -> (r: Result<String, Error>)
    ensures
        challenge_page(body@) ==> r matches Err(Error::Challenged),
        !challenge_page(body@) && deny_page(body@) ==> r matches Err(Error::Denied { warmed: false }),
        !challenge_page(body@) && !deny_page(body@) && 300 <= status < 400 ==> {
            let to = match location {
                Some(l) => l@,
                None => Seq::empty(),
            };
            if sign_in_target(to) || sign_in_target(body@) {
                if signed_in {
                    r matches Err(Error::SessionExpired)
                } else {
                    r matches Err(Error::NotSignedIn)
                }
            } else {
                r matches Err(Error::Shape(m)) && m@ == what@
                    + " was redirected somewhere unexpected: "@ + to
            }
        },
        !challenge_page(body@) && !deny_page(body@) && !(300 <= status < 400) && !(200 <= status
            < 300) ==> (r matches Err(Error::Http { status: s, body: b }) && s == Some(status)
            && b@ == body@),
        !challenge_page(body@) && !deny_page(body@) && 200 <= status < 300 ==> (r matches Ok(b)
            && b@ == body@),
{
    if is_challenge_page(body.as_str()) {
        return Err(Error::Challenged);
    }
    if is_deny_page(body.as_str()) {
        return Err(Error::Denied { warmed: false });
    }
    if 300 <= status && status < 400 {
        let to = match &location {
            Some(l) => l.clone(),
            None => String::new(),
        };
        if is_sign_in_redirect(to.as_str()) || is_sign_in_redirect(body.as_str()) {
            return Err(lapsed(signed_in));
        }
        let mut m = chars_of(what);
        extend_str(&mut m, " was redirected somewhere unexpected: ");
        extend_str(&mut m, to.as_str());
        return Err(Error::Shape(string_of(&m)));
    }
    if !(200 <= status && status < 300) {
        return Err(Error::Http { status: Some(status), body });
    }
    Ok(body)
}

/// Whether a whoami answer says the session is still good: a lapse is a no,
/// and a refusal by the bot manager is passed on rather than read as one.
pub fn verified(answer: Result<Account, Error>) -> (r: Result<bool, Error>)
    ensures
        answer matches Ok(a) ==> r == Ok::<bool, Error>(a.signed_in),
        (answer matches Err(e) && (e is SessionExpired || e is NotSignedIn)) ==> r == Ok::<
            bool,
            Error,
        >(false),
        (answer matches Err(e) && !(e is SessionExpired || e is NotSignedIn)) ==> (r matches Err(
            e2,
        ) && e2 == answer->Err_0),
{
    match answer {
        Ok(account) => Ok(account.signed_in),
        Err(e) => {
            if e.is_lapsed() {
                Ok(false)
            } else {
                Err(e)
            }
        },
    }
}

/// Two clients in the same state: the same session, warmth, search id and
/// endpoints, and equally well formed.
pub open spec fn keeps_state(c: Client, s: Client) -> bool {
    &&& c.current() == s.current()
    &&& c.has_warmed() == s.has_warmed()
    &&& c.search_id() == s.search_id()
    &&& c.endpoints_of() == s.endpoints_of()
    &&& c.wf() == s.wf()
}

impl Client {
    /// Well formed: the session is.
    pub closed spec fn wf(&self) -> bool {
        self.session.wf()
    }

    /// The session the client holds.
    pub closed spec fn current(&self) -> Session {
        self.session
    }

    /// Whether this process has warmed.
    pub closed spec fn has_warmed(&self) -> bool {
        self.warmed
    }

    /// Whether a warmer was given.
    pub closed spec fn has_warmer(&self) -> bool {
        self.warmer
    }

    /// Where it files what it earns.
    pub closed spec fn stored(&self) -> Option<SessionStore> {
        self.store
    }

    /// What it signs in again with.
    pub closed spec fn reauth_of(&self) -> Option<Reauth> {
        self.reauth
    }

    /// Whether a store was given.
    pub open spec fn has_store(&self) -> bool {
        self.stored() is Some
    }

    /// Whether credentials to sign in again were given.
    pub open spec fn has_reauth(&self) -> bool {
        self.reauth_of() is Some
    }

    /// The id the search backend is told.
    pub closed spec fn search_id(&self) -> Seq<char> {
        self.client_id@
    }

    /// Whether narration is on.
    pub closed spec fn debugging(&self) -> bool {
        self.debug
    }

    /// The endpoints it calls.
    pub closed spec fn endpoints_of(&self) -> Endpoints {
        self.endpoints
    }

    /// A client for a storefront and a session, not yet warmed in this run,
    /// with no store, no credentials and no warmer, and a fresh search id.
    pub fn new(endpoints: Endpoints, session: Session) -> (c: Client)
        requires
            session.wf(),
        ensures
            c.wf(),
            c.current() == session,
            c.endpoints_of() == endpoints,
            !c.has_warmed(),
            !c.has_warmer(),
            !c.has_store(),
            !c.has_reauth(),
            !c.debugging(),
            exists|n: u128| c.search_id() == client_id_text(n),
    {
        Client {
            endpoints,
            session,
            store: None,
            reauth: None,
            warmer: false,
            warmed: false,
            client_id: client_id(),
            debug: false,
        }
    }

    /// The same client, filing what it earns in a store, or not.
    pub fn with_session_store(self, store: Option<SessionStore>) -> (c: Client)
        ensures
            keeps_state(c, self),
            c.stored() == store,
            c.reauth_of() == self.reauth_of(),
            c.has_warmer() == self.has_warmer(),
            c.debugging() == self.debugging(),
    {
        Client { store, ..self }
    }

    /// The same client, able to sign itself in again, or not.
    pub fn with_reauth(self, reauth: Option<Reauth>) -> (c: Client)
        ensures
            keeps_state(c, self),
            c.stored() == self.stored(),
            c.reauth_of() == reauth,
            c.has_warmer() == self.has_warmer(),
            c.debugging() == self.debugging(),
    {
        Client { reauth, ..self }
    }

    /// The same client, told whether a warmer stands by to earn warmth it
    /// cannot earn itself.
    pub fn with_warmer(self, warmer: bool) -> (c: Client)
        ensures
            keeps_state(c, self),
            c.stored() == self.stored(),
            c.reauth_of() == self.reauth_of(),
            c.has_warmer() == warmer,
            c.debugging() == self.debugging(),
    {
        Client { warmer, ..self }
    }

    /// Whether warmth can be renewed without a person.
    pub fn can_warm(&self) -> (r: bool)
        ensures
            r == self.has_warmer(),
    {
        self.warmer
    }

    /// Whether an expired session could be replaced without a person.
    pub fn can_reauth(&self) -> (r: bool)
        ensures
            r == self.has_reauth(),
    {
        self.reauth.is_some()
    }

    /// The same client, narrating or not.
    pub fn with_debug(self, debug: bool) -> (c: Client)
        ensures
            keeps_state(c, self),
            c.stored() == self.stored(),
            c.reauth_of() == self.reauth_of(),
            c.has_warmer() == self.has_warmer(),
            c.debugging() == debug,
    {
        Client { debug, ..self }
    }

    /// The same client, with the id sent to the search backend overridden.
    pub fn with_client_id(self, id: &str) -> (c: Client)
        ensures
            c.search_id() == id@,
            c.current() == self.current(),
            c.has_warmed() == self.has_warmed(),
            c.endpoints_of() == self.endpoints_of(),
            c.wf() == self.wf(),
            c.stored() == self.stored(),
            c.reauth_of() == self.reauth_of(),
            c.has_warmer() == self.has_warmer(),
            c.debugging() == self.debugging(),
    {
        Client { client_id: owned(id), ..self }
    }

    pub fn endpoints(&self) -> (e: &Endpoints)
        ensures
            *e == self.endpoints_of(),
    {
        &self.endpoints
    }

    /// A copy of the session.
    pub fn session(&self) -> (s: Session)
        requires
            self.wf(),
        ensures
            s.wf(),
            s.jar() == self.current().jar(),
            opt_str(s.filed_email()) == opt_str(self.current().filed_email()),
    {
        self.session.duplicate()
    }

    /// Whether the stored cookies claim an account. A local guess; asking the
    /// storefront is the answer that counts.
    pub fn is_signed_in(&self) -> (r: bool)
        requires
            self.wf(),
        ensures
            r == signed_in(self.current().jar()),
    {
        self.session.account()
    }

    /// What to file, if this client was given somewhere to file it: the
    /// session as [`StoredSession::of`] files it.
    pub fn persist(&self) -> (r: Option<StoredSession>)
        requires
            self.wf(),
        ensures
            r is Some <==> self.has_store(),
            r matches Some(s) ==> to_map(view_pairs(s.cookies@)) == restrict(
                self.current().jar(),
                kept_names(),
            ) && opt_str(s.email) == opt_str(self.current().filed_email()),
    {
        match &self.store {
            Some(_) => Some(StoredSession::of(&self.session)),
            None => None,
        }
    }

    /// Adopt a session obtained elsewhere.
    pub fn adopt(&mut self, session: Session)
        requires
            session.wf(),
        ensures
            final(self).wf(),
            final(self).current() == session,
            final(self).has_warmed() == old(self).has_warmed(),
    {
        self.session = session;
    }

    /// Decide what a warm-up does, and count this process as warmed from
    /// here on: one command never warms twice.
    pub fn warm_step(&mut self) -> (step: WarmStep)
        requires
            old(self).wf(),
        ensures
            final(self).wf(),
            final(self).has_warmed(),
            final(self).current() == old(self).current(),
            old(self).has_warmed() ==> step == WarmStep::Done,
            !old(self).has_warmed() && old(self).has_warmer() && warm(old(self).current().jar())
                ==> step == WarmStep::KeepStored,
            !old(self).has_warmed() && !(old(self).has_warmer() && warm(old(self).current().jar()))
                ==> step == WarmStep::Warm,
    {
        if self.warmed {
            return WarmStep::Done;
        }
        self.warmed = true;
        if self.warmer && self.session.warmed() {
            return WarmStep::KeepStored;
        }
        WarmStep::Warm
    }

    /// A stored `_abck` the site has turned against is refused on every
    /// request carrying it, the warm-up included: drop the Akamai set, so
    /// the next warm-up starts genuinely cold.
    pub fn forget_warmth(&mut self)
        requires
            old(self).wf(),
        ensures
            final(self).wf(),
            final(self).current().jar() == restrict(
                old(self).current().jar(),
                crate::farmers::session::not_akamai(),
            ),
            final(self).has_warmed() == old(self).has_warmed(),
    {
        self.session.forget_warmth();
    }

    /// Fold in the cookies a response set.
    pub fn absorb(&mut self, set: &Vec<(String, String)>)
        requires
            old(self).wf(),
        ensures
            final(self).wf(),
            final(self).current().jar() == crate::farmers::session::absorbed(
                old(self).current().jar(),
                view_pairs(set@),
            ),
            final(self).has_warmed() == old(self).has_warmed(),
    {
        self.session.absorb(set);
    }

    /// What a home-page warm-up came to, once its cookies are absorbed. The
    /// home page refuses like everything else; and a page served without an
    /// `_abck` leaves nothing to make the next call with, so it is a refusal
    /// too. A refused warm-up does not count as one.
    pub fn warmed_by_page(&mut self, body: &str) -> (r: Result<(), Error>)
        requires
            old(self).wf(),
        ensures
            final(self).wf(),
            final(self).current() == old(self).current(),
            challenge_page(body@) ==> r matches Err(Error::Challenged),
            !challenge_page(body@) && deny_page(body@) ==> r matches Err(Error::Denied { warmed: false }),
            !challenge_page(body@) && !deny_page(body@) && !warm(old(self).current().jar()) ==> r matches Err(
                Error::Denied { warmed: false },
            ),
            !challenge_page(body@) && !deny_page(body@) && warm(old(self).current().jar()) ==> r is Ok,
            final(self).has_warmed() == r is Ok,
    {
        if is_challenge_page(body) {
            self.warmed = false;
            return Err(Error::Challenged);
        }
        if is_deny_page(body) {
            self.warmed = false;
            return Err(Error::Denied { warmed: false });
        }
        if !self.session.warmed() {
            self.warmed = false;
            return Err(Error::Denied { warmed: false });
        }
        self.warmed = true;
        Ok(())
    }

    /// Take the warmth a warmer handed back. Only the bot manager's cookies
    /// are taken, so a browser's own visit never signs anyone out; and what
    /// carries no `_abck` is a refusal. A warm-up that worked is filed
    /// straight away: it was expensive.
    pub fn warmed_by_hand(&mut self, cookies: Vec<(String, String)>) -> (r: Result<
        Option<StoredSession>,
        Error,
    >)
        requires
            old(self).wf(),
        ensures
            final(self).wf(),
            final(self).current().jar() == rewarmed(
                old(self).current().jar(),
                to_map(view_pairs(cookies@)),
            ),
            !warm(final(self).current().jar()) ==> r matches Err(Error::Denied { warmed: false }),
            warm(final(self).current().jar()) ==> (r matches Ok(filed) && (filed is Some
                <==> old(self).has_store())),
            final(self).has_warmed() == r is Ok,
    {
        self.session.rewarm(cookies);
        if !self.session.warmed() {
            self.warmed = false;
            return Err(Error::Denied { warmed: false });
        }
        self.warmed = true;
        Ok(self.persist())
    }

    /// What an account-only call does first: go ahead, sign in again, or
    /// refuse before a request is made -- these pages answer a signed-out
    /// request with the sign-in page and a 200.
    pub fn account_step(&self) -> (step: AccountStep)
        requires
            self.wf(),
        ensures
            signed_in(self.current().jar()) ==> step == AccountStep::Ready,
            !signed_in(self.current().jar()) && self.has_reauth() ==> step == AccountStep::Renew,
            !signed_in(self.current().jar()) && !self.has_reauth() ==> step == AccountStep::Refuse,
    {
        if self.is_signed_in() {
            return AccountStep::Ready;
        }
        if self.reauth.is_some() {
            return AccountStep::Renew;
        }
        AccountStep::Refuse
    }

    /// The warm cookies without the account ones, for a sign-in that should
    /// not carry a stale session into the form.
    pub fn anonymous(&self) -> (s: Session)
        requires
            self.wf(),
        ensures
            s.wf(),
            s.jar() == restrict(self.current().jar(), crate::farmers::session::anonymous_names()),
            !signed_in(s.jar()),
    {
        let mut s = self.session.duplicate();
        s.sign_out();
        s
    }

    /// Drop the account from the session, keeping the warm-up.
    pub fn sign_out(&mut self)
        requires
            old(self).wf(),
        ensures
            final(self).wf(),
            final(self).current().jar() == restrict(
                old(self).current().jar(),
                crate::farmers::session::anonymous_names(),
            ),
            !signed_in(final(self).current().jar()),
            final(self).has_warmed() == old(self).has_warmed(),
    {
        self.session.sign_out();
    }
}

} // verus!

verus! {

/// The id of the first entry, in the order given, whose path lower-cases to
/// `wanted`.
pub open spec fn id_for_path(es: Seq<(Seq<Seq<char>>, Category)>, wanted: Seq<char>) -> Option<
    Seq<char>,
>
    decreases es.len(),
{
    if es.len() == 0 {
        None
    } else if es[0].1.path matches Some(p) && lowered(p@) == wanted {
        Some(es[0].1.id@)
    } else {
        id_for_path(es.drop_first(), wanted)
    }
}

/// Looking through two runs of entries is looking through the first, then
/// the second.
proof fn lemma_id_for_path_concat(
    a: Seq<(Seq<Seq<char>>, Category)>,
    b: Seq<(Seq<Seq<char>>, Category)>,
    wanted: Seq<char>,
)
    ensures
        id_for_path(a + b, wanted) == (match id_for_path(a, wanted) {
            Some(x) => Some(x),
            None => id_for_path(b, wanted),
        }),
    decreases a.len(),
{
    if a.len() > 0 {
        assert((a + b).drop_first() =~= a.drop_first() + b);
        assert((a + b)[0] == a[0]);
        lemma_id_for_path_concat(a.drop_first(), b, wanted);
    } else {
        assert(a + b =~= b);
    }
}

/// Flattening two runs of siblings is flattening the first, then the second.
proof fn lemma_flat_list_concat(a: Seq<Category>, b: Seq<Category>, above: Seq<Seq<char>>)
    ensures
        flat_list(a + b, above) == flat_list(a, above) + flat_list(b, above),
    decreases b.len(),
{
    if b.len() == 0 {
        assert(a + b =~= a);
        assert(flat_list(a, above) + flat_list(b, above) =~= flat_list(a, above));
    } else {
        let c = a + b;
        let b0 = b.subrange(0, b.len() - 1);
        assert(c.subrange(0, c.len() - 1) =~= a + b0);
        assert(c[c.len() - 1] == b[b.len() - 1]);
        lemma_flat_list_concat(a, b0, above);
        assert(flat_list(c, above) =~= flat_list(a, above) + (flat_list(b0, above) + flat(
            b[b.len() - 1],
            above,
        )));
    }
}

/// The path a redirect names, as the tree's paths are compared with it:
/// slashes off both ends, lower-cased.
pub open spec fn wanted_path(path: Seq<char>) -> Seq<char> {
    lowered(trim_end_char(trim_start_char(path, '/'), '/'))
}

/// The id of the category the website serves a path under: the first, depth
/// first through the tree, whose path matches ignoring case and the slashes
/// at either end. None where no category has that path, which is what a
/// landing page's path gives.
pub fn category_for_path(tree: &Vec<Category>, path: &str) -> (r: Option<String>)
    ensures
        opt_str(r) == id_for_path(flat_list(tree@, Seq::empty()), wanted_path(path@)),
{
    let cs = chars_of(path);
    let front = trim_start_char_exec(&cs, '/');
    let both = trim_end_char_exec(&front, '/');
    let trimmed = string_of(&both);
    let wanted = to_lowercase_str(trimmed.as_str());
    let ghost w = wanted_path(path@);
    let ghost all = id_for_path(flat_list(tree@, Seq::empty()), w);
    assert(wanted@ == w);
    assert(tree@.skip(0) =~= tree@);
    let mut i: usize = 0;
    while i < tree.len()
        invariant
            i <= tree.len(),
            wanted@ == w,
            w == wanted_path(path@),
            all == id_for_path(flat_list(tree@, Seq::empty()), w),
            all == id_for_path(flat_list(tree@.skip(i as int), Seq::empty()), w),
        decreases tree.len() - i,
    {
        let entries = tree[i].flatten();
        let ghost es = flat_view(entries@);
        let ghost rest = flat_list(tree@.skip(i + 1), Seq::empty());
        proof {
            let one = seq![tree@[i as int]];
            assert(tree@.skip(i as int) =~= one + tree@.skip(i + 1));
            assert(one.subrange(0, 0) =~= Seq::<Category>::empty());
            assert(flat_list(Seq::<Category>::empty(), Seq::empty()) =~= Seq::empty());
            assert(one[one.len() - 1] == tree@[i as int]);
            assert(flat_list(one, Seq::empty()) =~= flat(tree@[i as int], Seq::empty()));
            lemma_flat_list_concat(one, tree@.skip(i + 1), Seq::empty());
            lemma_id_for_path_concat(es, rest, w);
        }
        assert(es.skip(0) =~= es);
        let mut j: usize = 0;
        while j < entries.len()
            invariant
                j <= entries.len(),
                wanted@ == w,
                es == flat_view(entries@),
                id_for_path(es, w) == id_for_path(es.skip(j as int), w),
                i < tree.len(),
                w == wanted_path(path@),
                all == id_for_path(flat_list(tree@, Seq::empty()), w),
                rest == flat_list(tree@.skip(i + 1), Seq::empty()),
                all == (match id_for_path(es, w) {
                    Some(x) => Some(x),
                    None => id_for_path(rest, w),
                }),
            decreases entries.len() - j,
        {
            let c: &Category = entries[j].1;
            proof {
                assert(es.skip(j as int)[0] == es[j as int]);
                assert(es[j as int].1 == *c);
                assert(es.skip(j as int).drop_first() =~= es.skip(j + 1));
            }
            match &c.path {
                Some(p) => {
                    let lp = to_lowercase_str(p.as_str());
                    if eq_str(lp.as_str(), wanted.as_str()) {
                        assert(id_for_path(es.skip(j as int), w) == Some(c.id@));
                        return Some(c.id.clone());
                    }
                },
                None => {},
            }
            j += 1;
        }
        proof {
            assert(es.skip(entries.len() as int) =~= Seq::<(Seq<Seq<char>>, Category)>::empty());
        }
        i += 1;
    }
    assert(tree@.skip(tree.len() as int) =~= Seq::<Category>::empty());
    None
}

/// The code a hit is priced by: its first buyable variant, or the hit's own
/// code where it has none. A master's price is a range and its stock a sum,
/// so the variant is what answers the question.
pub fn priced_sku(hit: &Hit) -> (r: &str)
    ensures
        r@ == (if hit.variants@.len() > 0 {
            hit.variants@[0]@
        } else {
            hit.sku@
        }),
{
    if hit.variants.len() > 0 {
        hit.variants[0].as_str()
    } else {
        hit.sku.as_str()
    }
}

/// A category answer for the id asked for: one that came back without an id
/// is the catalogue saying there is no such category.
pub fn found_category(category: Category, id: &str) -> (r: Result<Category, Error>)
    ensures
        category.id@.len() > 0 ==> r == Ok::<Category, Error>(category),
        category.id@.len() == 0 ==> (r matches Err(Error::NoSuchCategory(x)) && x@ == trim(id@)),
{
    if chars_of(category.id.as_str()).len() == 0 {
        let cs = chars_of(id);
        let t = trim_exec(&cs);
        return Err(Error::NoSuchCategory(string_of(&t)));
    }
    Ok(category)
}

/// The parameters of a per-store stock request: the country, every store
/// rather than only those that can also ship, the code, and the region.
pub open spec fn stock_query(sku: Seq<char>, code: Seq<char>) -> Seq<(Seq<char>, Seq<char>)> {
    seq![
        ("CountryCode"@, "NZ"@),
        ("NoShippingFilter"@, "true"@),
        ("SKU"@, trim(sku)),
        ("State"@, code),
    ]
}

/// What a per-store stock request for one region asks: the region looked up
/// however it was typed, or a refusal naming it before any request is made.
pub fn stock_params(sku: &str, region_name: &str) -> (r: Result<Vec<(String, String)>, Error>)
    ensures
        region_index(region_name@) is None ==> (r matches Err(Error::NoSuchRegion(x)) && x@
            == region_name@),
        region_index(region_name@) matches Some(i) ==> (r matches Ok(ps) && view_pairs(ps@)
            == stock_query(sku@, regions()[i].0)),
{
    let code = match region(region_name) {
        Some(c) => c,
        None => return Err(Error::NoSuchRegion(owned(region_name))),
    };
    let cs = chars_of(sku);
    let t = string_of(&trim_exec(&cs));
    let mut ps: Vec<(String, String)> = Vec::new();
    ps.push((owned("CountryCode"), owned("NZ")));
    ps.push((owned("NoShippingFilter"), owned("true")));
    ps.push((owned("SKU"), t));
    ps.push((owned("State"), owned(code)));
    assert(view_pairs(ps@) =~= stock_query(sku@, code@));
    Ok(ps)
}

/// A quantity as the forms spell it.
fn count_text(n: i64) -> (r: String)
    requires
        n >= 0,
    ensures
        r@ == decimal(n as nat),
{
    let d = decimal_exec(n as u64);
    string_of(&d)
}

/// A name and a value, as a form or query field.
fn field(name: &str, value: &str) -> (r: (String, String))
    ensures
        r.0@ == name@,
        r.1@ == value@,
{
    (owned(name), owned(value))
}

/// A field named by a prefix and a key.
fn keyed(prefix: &str, key: &str, value: String) -> (r: (String, String))
    ensures
        r.0@ == prefix@ + key@,
        r.1@ == value@,
{
    let mut n = chars_of(prefix);
    extend_str(&mut n, key);
    (string_of(&n), value)
}

/// What the product page's own form sends to add to the basket: the code,
/// each variation axis and value, the quantity keyed by the code (at least
/// one), and the behaviour that answers with the mini-cart.
pub open spec fn add_params(sku: Seq<char>, quantity: i64, options: Seq<(Seq<char>, Seq<char>)>) -> Seq<
    (Seq<char>, Seq<char>),
> {
    seq![("SKU"@, trim(sku))] + options.map_values(
        |o: (Seq<char>, Seq<char>)| ("VariationAttribute_"@ + o.0, o.1),
    ) + seq![
        ("Quantity_"@ + trim(sku), decimal((if quantity < 1 { 1 } else { quantity }) as nat)),
        ("addToCartBehavior"@, "expresscart"@),
    ]
}

/// The parameters of a basket add.
pub fn cart_add_params(sku: &str, quantity: i64, options: &Vec<(String, String)>) -> (r: Vec<
    (String, String),
>)
    ensures
        view_pairs(r@) == add_params(sku@, quantity, view_pairs(options@)),
{
    let cs = chars_of(sku);
    let code = string_of(&trim_exec(&cs));
    let q = if quantity < 1 {
        1
    } else {
        quantity
    };
    let mut r: Vec<(String, String)> = Vec::new();
    r.push((owned("SKU"), code.clone()));
    let ghost head = view_pairs(r@);
    let mut i: usize = 0;
    while i < options.len()
        invariant
            i <= options.len(),
            head == seq![("SKU"@, trim(sku@))],
            view_pairs(r@) == head + view_pairs(options@).take(i as int).map_values(
                |o: (Seq<char>, Seq<char>)| ("VariationAttribute_"@ + o.0, o.1),
            ),
        decreases options.len() - i,
    {
        let f = keyed("VariationAttribute_", options[i].0.as_str(), options[i].1.clone());
        let ghost before = r@;
        r.push(f);
        proof {
            assert(view_pairs(r@) =~= view_pairs(before).push((f.0@, f.1@)));
            assert(view_pairs(options@).take(i + 1) =~= view_pairs(options@).take(i as int).push(
                view_pairs(options@)[i as int],
            ));
        }
        i += 1;
    }
    assert(view_pairs(options@).take(options.len() as int) =~= view_pairs(options@));
    let ghost mid = view_pairs(r@);
    r.push(keyed("Quantity_", code.as_str(), count_text(q)));
    r.push(field("addToCartBehavior", "expresscart"));
    proof {
        assert(view_pairs(r@) =~= mid + seq![
            ("Quantity_"@ + trim(sku@), decimal(q as nat)),
            ("addToCartBehavior"@, "expresscart"@),
        ]);
    }
    r
}

/// What the mini-cart's own remove button sends: the line's id.
pub fn cart_remove_params(line: &str) -> (r: Vec<(String, String)>)
    ensures
        view_pairs(r@) == seq![("RemovePLI"@, trim(line@))],
{
    let cs = chars_of(line);
    let mut r: Vec<(String, String)> = Vec::new();
    r.push((owned("RemovePLI"), string_of(&trim_exec(&cs))));
    assert(view_pairs(r@) =~= seq![("RemovePLI"@, trim(line@))]);
    r
}

/// What the cart page's form posts to change the basket: its token, the
/// quantity of every line keyed by the line (never below zero), the
/// promotion code or nothing, and the submit button the pipeline dispatches
/// on.
pub open spec fn update_form(token: Seq<char>, quantities: Seq<(Seq<char>, i64)>, promotion: Option<Seq<char>>) -> Seq<
    (Seq<char>, Seq<char>),
> {
    seq![("SynchronizerToken"@, token), ("submitval"@, Seq::empty())] + quantities.map_values(
        |q: (Seq<char>, i64)| ("Quantity_"@ + q.0, decimal((if q.1 < 0 { 0 } else { q.1 }) as nat)),
    ) + seq![
        (
            "promotionCode"@,
            match promotion {
                Some(p) => p,
                None => Seq::empty(),
            },
        ),
        ("update"@, Seq::empty()),
    ]
}

/// Lines and quantities by their characters.
pub open spec fn quantity_views(v: Seq<(String, i64)>) -> Seq<(Seq<char>, i64)> {
    v.map_values(|q: (String, i64)| (q.0@, q.1))
}

/// The form of a basket update.
pub fn cart_update_form(token: &str, quantities: &Vec<(String, i64)>, promotion: Option<&str>) -> (r: Vec<
    (String, String),
>)
    ensures
        view_pairs(r@) == update_form(
            token@,
            quantity_views(quantities@),
            match promotion {
                Some(p) => Some(p@),
                None => None,
            },
        ),
{
    let mut r: Vec<(String, String)> = Vec::new();
    r.push(field("SynchronizerToken", token));
    r.push((owned("submitval"), String::new()));
    let ghost head = view_pairs(r@);
    assert(head =~= seq![("SynchronizerToken"@, token@), ("submitval"@, Seq::<char>::empty())]);
    let ghost qs = quantity_views(quantities@);
    let mut i: usize = 0;
    while i < quantities.len()
        invariant
            i <= quantities.len(),
            qs == quantity_views(quantities@),
            head == seq![("SynchronizerToken"@, token@), ("submitval"@, Seq::<char>::empty())],
            view_pairs(r@) == head + qs.take(i as int).map_values(
                |q: (Seq<char>, i64)| ("Quantity_"@ + q.0, decimal((if q.1 < 0 { 0 } else { q.1 }) as nat)),
            ),
        decreases quantities.len() - i,
    {
        let n = if quantities[i].1 < 0 {
            0
        } else {
            quantities[i].1
        };
        let f = keyed("Quantity_", quantities[i].0.as_str(), count_text(n));
        let ghost before = r@;
        r.push(f);
        proof {
            assert(view_pairs(r@) =~= view_pairs(before).push((f.0@, f.1@)));
            assert(qs.take(i + 1) =~= qs.take(i as int).push(qs[i as int]));
        }
        i += 1;
    }
    assert(qs.take(quantities.len() as int) =~= qs);
    let ghost mid = view_pairs(r@);
    let code = match promotion {
        Some(p) => owned(p),
        None => String::new(),
    };
    r.push((owned("promotionCode"), code));
    r.push((owned("update"), String::new()));
    proof {
        assert(view_pairs(r@) =~= mid + seq![
            (
                "promotionCode"@,
                match promotion {
                    Some(p) => p@,
                    None => Seq::<char>::empty(),
                },
            ),
            ("update"@, Seq::<char>::empty()),
        ]);
    }
    r
}

/// What the product page sends to save a product to the preferred list.
pub open spec fn save_form(sku: Seq<char>) -> Seq<(Seq<char>, Seq<char>)> {
    seq![
        ("SKU"@, trim(sku)),
        ("Quantity_"@ + trim(sku), "1"@),
        ("addToCartBehavior"@, "expresscart"@),
        ("addToWishlistProduct"@, Seq::empty()),
    ]
}

/// The form of a saved-list add.
pub fn wishlist_add_form(sku: &str) -> (r: Vec<(String, String)>)
    ensures
        view_pairs(r@) == save_form(sku@),
{
    let cs = chars_of(sku);
    let code = string_of(&trim_exec(&cs));
    let mut r: Vec<(String, String)> = Vec::new();
    r.push((owned("SKU"), code.clone()));
    r.push(keyed("Quantity_", code.as_str(), owned("1")));
    r.push(field("addToCartBehavior", "expresscart"));
    r.push((owned("addToWishlistProduct"), String::new()));
    assert(view_pairs(r@) =~= save_form(sku@));
    r
}

/// Whether a saved-list add was answered with a link to the sign-in page:
/// signed out, the pipeline answers 200 with one rather than an error.
pub open spec fn sent_to_sign_in(html: Seq<char>) -> bool {
    contains(html, "Please login"@) || contains(html, "/login?"@)
}

/// What a saved-list add's answer means: a link to the sign-in page is a
/// lapsed session, not a success.
pub fn wishlist_add_outcome(html: &str) -> (r: Result<(), Error>)
    ensures
        sent_to_sign_in(html@) ==> r matches Err(Error::SessionExpired),
        !sent_to_sign_in(html@) ==> r is Ok,
{
    let cs = chars_of(html);
    let a = chars_of("Please login");
    let b = chars_of("/login?");
    if contains_exec(&cs, &a) || contains_exec(&cs, &b) {
        return Err(Error::SessionExpired);
    }
    Ok(())
}

/// The refusal for a cart page that carries no form token.
pub open spec fn tokenless_cart() -> (Seq<char>, Seq<char>) {
    ("the cart form token"@, ", so the basket cannot be updated"@)
}

/// The cart page's form token; a page without one is reported rather than
/// posted to blind.
pub fn cart_page_token(html: &str) -> (r: Result<String, Error>)
    ensures
        token_of(html@) matches Some(t) ==> (r matches Ok(x) && x@ == t),
        token_of(html@) is None ==> (r matches Err(Error::NotInPage { what, detail }) && (what@, detail@)
            == tokenless_cart()),
{
    match synchronizer_token(html) {
        Some(t) => Ok(t),
        None => Err(
            Error::NotInPage {
                what: owned("the cart form token"),
                detail: owned(", so the basket cannot be updated"),
            },
        ),
    }
}

/// The account a session speaks for, if it is the one asked for and the
/// storefront agrees it is signed in.
pub fn signed_in_answer(account: Account, session: &Session, email: &str) -> (r: Option<Account>)
    ensures
        (account.signed_in && same_person(opt_str(account.email), opt_str(session.filed_email()), email@))
            ==> r == Some(account),
        !(account.signed_in && same_person(opt_str(account.email), opt_str(session.filed_email()), email@))
            ==> r is None,
{
    if account.signed_in && is_the_same_person(&account, session, email) {
        Some(account)
    } else {
        None
    }
}

/// Who a fresh sign-in speaks for: what the storefront says, or, where it
/// cannot be asked, the email that was signed in with.
pub fn signed_in_account(answer: Result<Account, Error>, email: &str) -> (r: Account)
    ensures
        answer matches Ok(a) ==> r == a,
        answer is Err ==> (r.signed_in && opt_str(r.email) == Some(trim(email@)) && r.first_name is None
            && r.last_name is None),
{
    match answer {
        Ok(a) => a,
        Err(_) => {
            let cs = chars_of(email);
            Account {
                signed_in: true,
                email: Some(string_of(&trim_exec(&cs))),
                first_name: None,
                last_name: None,
            }
        },
    }
}

/// Whether a call came back denied.
pub open spec fn denial<T>(o: Result<T, Error>) -> bool {
    o matches Err(Error::Denied { .. })
}

/// What follows an answer to a gated call: a REST read, a `ViewX-`
/// pipeline or a page.
pub enum Retry<T> {
    /// The call is done, and this is what it came to.
    Answer(Result<T, Error>),
    /// The call was denied: warm again and make it once more.
    WarmAndRetry,
}

/// Decide what follows a gated call's answer. A deny arrives as a `200`
/// with an HTML body, and the only move it leaves is a fresh warm-up, so the
/// first denial is retried once after one; a second is reported as a
/// refusal that survived a fresh warm-up, which points at the fingerprint
/// rather than the cookies. Anything else is the answer.
pub fn after_gated<T>(first: bool, outcome: Result<T, Error>) -> (r: Retry<T>)
    ensures
        first && denial(outcome) ==> r is WarmAndRetry,
        !first && denial(outcome) ==> r == Retry::<T>::Answer(Err(Error::Denied { warmed: true })),
        !denial(outcome) ==> r == Retry::<T>::Answer(outcome),
{
    match outcome {
        Err(Error::Denied { .. }) => {
            if first {
                Retry::WarmAndRetry
            } else {
                Retry::Answer(Err(Error::Denied { warmed: true }))
            }
        },
        other => Retry::Answer(other),
    }
}

/// What follows a warm-up's answer.
pub enum WarmRetry {
    /// The warm-up is done, and this is what it came to.
    Answer(Result<(), Error>),
    /// The warm-up was refused: forget the Akamai cookies and warm again,
    /// genuinely cold.
    ForgetAndWarm,
}

/// Decide what follows a warm-up's answer. A stored `_abck` the site has
/// turned against is refused on every request carrying it, this warm-up
/// included, so a first refusal drops the Akamai set and warms once more;
/// a second refusal, or anything else, is the answer.
pub fn after_warm_up(first: bool, outcome: Result<(), Error>) -> (r: WarmRetry)
    ensures
        first && denial(outcome) ==> r is ForgetAndWarm,
        !(first && denial(outcome)) ==> r == WarmRetry::Answer(outcome),
{
    match outcome {
        Err(Error::Denied { warmed }) => {
            if first {
                WarmRetry::ForgetAndWarm
            } else {
                WarmRetry::Answer(Err(Error::Denied { warmed }))
            }
        },
        other => WarmRetry::Answer(other),
    }
}

} // verus!
