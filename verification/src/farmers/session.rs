//! What the storefront is called with, and what is worth keeping between runs.
//!
//! Intershop authorises entirely by cookie, and there is no token to decode.
//! Four names matter:
//!
//! - `sid`, the Intershop session, which a basket hangs off before there is
//!   an account;
//! - `pgid-Farmers-Shop-Site`, the page group, which the pipelines want
//!   alongside it;
//! - `__Host-SecureSessionID-p…`, the secure session. The letter after the
//!   dash is the tell: a signed-out browser carries `-t…` ones, and a
//!   successful sign-in adds a `-p…`;
//! - the Akamai set -- `_abck`, `bm_sz`, `ak_bmsc` and friends -- which is
//!   what a warm-up buys and what a cold start has to buy again.

use vstd::prelude::*;
use crate::ordered::{ascending, names_of, restrict, to_map, view_pairs, Jar};
use crate::text::{
    chars_of, decimal, eq_str, join, join_exec, opt_str, owned, parse_i32, parse_i32_exec, split,
    split_exec, starts_with, starts_with_exec, strs, views,
};

verus! {

/// The Intershop session cookie.
pub const SESSION_COOKIE: &'static str = "sid";

/// The page group cookie the `ViewX-` pipelines expect beside it.
pub const PAGE_GROUP_COOKIE: &'static str = "pgid-Farmers-Shop-Site";

/// The prefix every Intershop secure-session cookie shares. What follows it
/// is a kind letter and a hash, and the kind letter is the interesting part.
pub const SECURE_SESSION_PREFIX: &'static str = "__Host-SecureSessionID-";

/// Where a stored session is filed in the credential store.
pub const ACCOUNT: &'static str = "session";

/// The kind letter on a secure-session cookie that belongs to a signed-in
/// person, as against the `t` ones every visitor carries.
const PERSONALISED: char = 'p';

/// One of Akamai's bot-manager cookies. `_abck` carries the validation flag;
/// the rest travel with it and are refused as a set when split up.
pub open spec fn akamai(name: Seq<char>) -> bool {
    ||| name == "_abck"@
    ||| name == "bm_sz"@
    ||| name == "ak_bmsc"@
    ||| name == "bm_s"@
    ||| name == "bm_so"@
    ||| name == "bm_mi"@
    ||| name == "bm_sv"@
    ||| name == "bm_lso"@
}

/// A cookie that belongs to the bot manager rather than to the storefront.
pub open spec fn warmth(name: Seq<char>) -> bool {
    akamai(name) || name == "AKA_A2"@
}

/// A cookie worth writing down.
pub open spec fn kept(name: Seq<char>) -> bool {
    ||| starts_with(name, SECURE_SESSION_PREFIX@)
    ||| name == SESSION_COOKIE@
    ||| name == PAGE_GROUP_COOKIE@
    ||| name == "AKA_A2"@
    ||| akamai(name)
}

/// A secure-session cookie of the personalised kind.
pub open spec fn personalised(name: Seq<char>) -> bool {
    let p = SECURE_SESSION_PREFIX@;
    starts_with(name, p) && name.len() > p.len() && name[p.len() as int] == 'p'
}

/// Whether a jar speaks for a person: it holds a non-empty personalised
/// secure-session cookie.
pub open spec fn signed_in(m: Map<Seq<char>, Seq<char>>) -> bool {
    exists|k: Seq<char>| #[trigger] m.contains_key(k) && personalised(k) && m[k].len() > 0
}

/// Whether a jar carries a non-empty `_abck`.
pub open spec fn warm(m: Map<Seq<char>, Seq<char>>) -> bool {
    m.contains_key("_abck"@) && m["_abck"@].len() > 0
}

/// Akamai's validation flag: the second `~`-separated field of `_abck`, as
/// an `i32`.
pub open spec fn validation_of(m: Map<Seq<char>, Seq<char>>) -> Option<i32> {
    if m.contains_key("_abck"@) && split(m["_abck"@], '~').len() > 1 {
        parse_i32(split(m["_abck"@], '~')[1])
    } else {
        None
    }
}

/// Whether a value set by a response deletes its cookie.
pub open spec fn deletes(v: Seq<char>) -> bool {
    v.len() == 0 || v == "\"\""@
}

/// A jar after folding in cookies a response set, in order.
pub open spec fn absorbed(
    m: Map<Seq<char>, Seq<char>>,
    set: Seq<(Seq<char>, Seq<char>)>,
) -> Map<Seq<char>, Seq<char>>
    decreases set.len(),
{
    if set.len() == 0 {
        m
    } else {
        let next = if deletes(set[0].1) {
            m.remove(set[0].0)
        } else {
            m.insert(set[0].0, set[0].1)
        };
        absorbed(next, set.drop_first())
    }
}

/// Whether a warm-up brings this cookie: bot-manager warmth, with a value.
pub open spec fn fresh(incoming: Map<Seq<char>, Seq<char>>, k: Seq<char>) -> bool {
    warmth(k) && incoming.contains_key(k) && incoming[k].len() > 0
}

/// A jar whose bot-manager cookies, `AKA_A2` among them, were replaced as a
/// set by a warm-up's warmth.
pub open spec fn rewarmed(
    m: Map<Seq<char>, Seq<char>>,
    incoming: Map<Seq<char>, Seq<char>>,
) -> Map<Seq<char>, Seq<char>> {
    Map::new(
        |k: Seq<char>| (m.contains_key(k) && !warmth(k)) || fresh(incoming, k),
        |k: Seq<char>|
            if fresh(incoming, k) {
                incoming[k]
            } else {
                m[k]
            },
    )
}

/// Every bot-manager cookie -- the eight Akamai names and `AKA_A2` -- is
/// warmth and worth filing, and a warm-up replaces each of them as a set:
/// one the warm-up brings with a value takes that value, and one it does not
/// bring is gone, whatever the jar held before.
pub proof fn lemma_the_bot_manager_set_is_replaced_whole(
    m: Map<Seq<char>, Seq<char>>,
    incoming: Map<Seq<char>, Seq<char>>,
)
    ensures
        forall|n: Seq<char>|
            #![trigger warmth(n)]
            #![trigger rewarmed(m, incoming).contains_key(n)]
            (n == "_abck"@ || n == "bm_sz"@ || n == "ak_bmsc"@ || n == "bm_s"@ || n == "bm_so"@
                || n == "bm_mi"@ || n == "bm_sv"@ || n == "bm_lso"@ || n == "AKA_A2"@) ==> {
                &&& warmth(n)
                &&& kept(n)
                &&& (n != "AKA_A2"@ ==> akamai(n))
                &&& (incoming.contains_key(n) && incoming[n].len() > 0 ==> rewarmed(m, incoming).contains_key(n)
                    && rewarmed(m, incoming)[n] == incoming[n])
                &&& (!(incoming.contains_key(n) && incoming[n].len() > 0) ==> !rewarmed(
                    m,
                    incoming,
                ).contains_key(n))
            },
{
}

/// The cookies worth filing: every secure session, the session cookie, the
/// page group, and the bot-manager set.
pub proof fn lemma_what_is_filed(n: Seq<char>)
    ensures
        starts_with(n, SECURE_SESSION_PREFIX@) ==> kept(n),
        n == SESSION_COOKIE@ || n == PAGE_GROUP_COOKIE@ || warmth(n) ==> kept(n),
        personalised(n) ==> kept(n) && !anonymous(n),
        n == SESSION_COOKIE@ ==> !anonymous(n),
{
}

/// A secure-session cookie speaks for a person when its kind letter is `p`,
/// and the `t` ones every visitor carries do not; a sign-out drops the
/// former and the session cookie, and keeps the latter.
pub proof fn lemma_the_kind_letter_decides(n: Seq<char>)
    requires
        starts_with(n, SECURE_SESSION_PREFIX@),
        n.len() > SECURE_SESSION_PREFIX@.len(),
    ensures
        n[SECURE_SESSION_PREFIX@.len() as int] == 'p' <==> personalised(n),
        n[SECURE_SESSION_PREFIX@.len() as int] == 'p' ==> !anonymous(n),
        n[SECURE_SESSION_PREFIX@.len() as int] == 't' && n != SESSION_COOKIE@ ==> anonymous(n),
{
}

/// What a sign-out keeps: anything not speaking for the person.
pub open spec fn anonymous(k: Seq<char>) -> bool {
    !personalised(k) && k != SESSION_COOKIE@
}

/// One `name=value` of a `Cookie` header.
pub open spec fn cookie_pair(p: (Seq<char>, Seq<char>)) -> Seq<char> {
    p.0 + "="@ + p.1
}

/// Each pair as `name=value`.
pub open spec fn cookie_parts(ps: Seq<(Seq<char>, Seq<char>)>) -> Seq<Seq<char>> {
    ps.map_values(|p: (Seq<char>, Seq<char>)| cookie_pair(p))
}

/// The `Cookie` header value for pairs in order.
pub open spec fn cookie_line(ps: Seq<(Seq<char>, Seq<char>)>) -> Seq<char> {
    join(cookie_parts(ps), "; "@)
}

/// Each name in double quotes.
pub open spec fn quoted(names: Seq<Seq<char>>) -> Seq<Seq<char>> {
    names.map_values(|n: Seq<char>| "\""@ + n + "\""@)
}

/// How a session describes itself: names, the email and the account guess,
/// and never a value.
pub open spec fn session_text(
    names: Seq<Seq<char>>,
    email: Option<Seq<char>>,
    account: bool,
) -> Seq<char> {
    "Session { cookies: ["@ + join(quoted(names), ", "@) + "], email: "@ + match email {
        Some(e) => "Some(\""@ + e + "\")"@,
        None => "None"@,
    } + ", account: "@ + if account {
        "true"@
    } else {
        "false"@
    } + " }"@
}

/// The names a warm-up may not take away from a jar: all but Akamai's.
pub open spec fn not_akamai() -> spec_fn(Seq<char>) -> bool {
    |k: Seq<char>| !akamai(k)
}

/// The names that are not the bot manager's.
pub open spec fn not_warmth() -> spec_fn(Seq<char>) -> bool {
    |k: Seq<char>| !warmth(k)
}

/// The names a sign-out keeps.
pub open spec fn anonymous_names() -> spec_fn(Seq<char>) -> bool {
    |k: Seq<char>| anonymous(k)
}

/// The names worth writing down.
pub open spec fn kept_names() -> spec_fn(Seq<char>) -> bool {
    |k: Seq<char>| kept(k)
}

/// The selection a filter code stands for.
spec fn selection(which: u8) -> spec_fn(Seq<char>) -> bool {
    if which == 0 {
        not_akamai()
    } else if which == 1 {
        anonymous_names()
    } else if which == 2 {
        kept_names()
    } else {
        not_warmth()
    }
}

/// Whether a cookie is one of Akamai's.
fn is_akamai(name: &str) -> (r: bool)
    ensures
        r == akamai(name@),
{
    eq_str(name, "_abck") || eq_str(name, "bm_sz") || eq_str(name, "ak_bmsc") || eq_str(
        name,
        "bm_s",
    ) || eq_str(name, "bm_so") || eq_str(name, "bm_mi") || eq_str(name, "bm_sv") || eq_str(
        name,
        "bm_lso",
    )
}

/// Whether a cookie belongs to the bot manager rather than to the storefront.
///
/// These are what warmth is; everything else in a jar speaks for the visit
/// or the person and is not a warm-up's to replace.
pub fn is_warmth(name: &str) -> (r: bool)
    ensures
        r == warmth(name@),
{
    is_akamai(name) || eq_str(name, "AKA_A2")
}

/// Which cookies are worth writing down. Analytics and UI state are not.
pub fn keep(name: &str) -> (r: bool)
    ensures
        r == kept(name@),
{
    let n = chars_of(name);
    let p = chars_of(SECURE_SESSION_PREFIX);
    starts_with_exec(&n, &p) || eq_str(name, SESSION_COOKIE) || eq_str(name, PAGE_GROUP_COOKIE)
        || eq_str(name, "AKA_A2") || is_akamai(name)
}

/// Whether a cookie is a personalised secure session.
fn is_personalised(name: &str) -> (r: bool)
    ensures
        r == personalised(name@),
{
    let n = chars_of(name);
    let p = chars_of(SECURE_SESSION_PREFIX);
    starts_with_exec(&n, &p) && n.len() > p.len() && n[p.len()] == PERSONALISED
}

/// The cookies one request is made with.
#[derive(Debug)]
pub struct Session {
    cookies: Jar,
    /// The email a sign-in was made with, so a status command can name it.
    /// Not evidence of anything -- [`Session::account`] is.
    pub email: Option<String>,
}

impl Session {
    /// The cookies, in the order of their names.
    pub closed spec fn entries(&self) -> Seq<(Seq<char>, Seq<char>)> {
        self.cookies.pairs()
    }

    /// The email the session is filed under.
    pub closed spec fn filed_email(&self) -> Option<String> {
        self.email
    }

    /// The cookies by name.
    pub open spec fn jar(&self) -> Map<Seq<char>, Seq<char>> {
        to_map(self.entries())
    }

    /// Well formed: the names ascend, so each is held once.
    pub open spec fn wf(&self) -> bool {
        ascending(names_of(self.entries()))
    }

    /// The jar's names are exactly its entries' names, and each maps to the
    /// value it is held with.
    pub proof fn lemma_entries(&self)
        requires
            self.wf(),
        ensures
            forall|k: Seq<char>| #[trigger]
                self.jar().contains_key(k) <==> names_of(self.entries()).contains(k),
            forall|i: int|
                0 <= i < self.entries().len() ==> self.jar()[#[trigger] names_of(
                    self.entries(),
                )[i]] == self.entries()[i].1,
            names_of(self.entries()).len() == self.entries().len(),
    {
        self.cookies.lemma_names();
        assert forall|k: Seq<char>| #[trigger]
            self.jar().contains_key(k) <==> names_of(self.entries()).contains(k) by {
            assert(self.cookies.map().contains_key(k) <==> self.cookies.names().contains(k));
        }
    }

    /// A session holding the given cookies, a later pair winning over an
    /// earlier one with the same name.
    pub fn from_cookies(cookies: Vec<(String, String)>) -> (s: Session)
        ensures
            s.wf(),
            s.jar() == to_map(view_pairs(cookies@)),
            s.filed_email() is None,
    {
        Session { cookies: Jar::from_pairs(&cookies), email: None }
    }

    /// The same cookies, filed under an email.
    pub fn with_email(self, email: Option<String>) -> (s: Session)
        ensures
            s.entries() == self.entries(),
            s.filed_email() == email,
    {
        Session { cookies: self.cookies, email }
    }

    /// Whether these cookies speak for a person rather than a browser: a
    /// non-empty `__Host-SecureSessionID-p…` cookie, which only a successful
    /// sign-in sets. The `-t…` ones every visitor carries do not count.
    pub fn account(&self) -> (r: bool)
        requires
            self.wf(),
        ensures
            r == signed_in(self.jar()),
    {
        proof {
            self.lemma_entries();
        }
        let ghost ks = names_of(self.entries());
        let n = self.cookies.len();
        let mut i: usize = 0;
        while i < n
            invariant
                i <= n,
                n == self.entries().len(),
                ks == names_of(self.entries()),
                ks == self.cookies.names(),
                self.entries() == self.cookies.pairs(),
                self.wf(),
                forall|j: int|
                    0 <= j < i ==> !(personalised(#[trigger] ks[j]) && self.entries()[j].1.len()
                        > 0),
            decreases n - i,
        {
            let name = self.cookies.name_at(i);
            let value = self.cookies.value_at(i);
            let vc = chars_of(value);
            if is_personalised(name) && vc.len() > 0 {
                proof {
                    self.lemma_entries();
                    assert(ks.contains(ks[i as int]));
                    assert(self.jar().contains_key(ks[i as int]));
                    assert(self.jar()[ks[i as int]] == self.entries()[i as int].1);
                }
                return true;
            }
            i += 1;
        }
        proof {
            assert forall|k: Seq<char>| #[trigger] self.jar().contains_key(k) implies !(personalised(
                k,
            ) && self.jar()[k].len() > 0) by {
                let j = choose|j: int| 0 <= j < ks.len() && ks[j] == k;
                assert(self.jar()[ks[j]] == self.entries()[j].1);
            }
        }
        false
    }

    /// Whether this session has cookies an Akamai-gated call can use:
    /// a non-empty `_abck`, the one the bot manager reads.
    pub fn warmed(&self) -> (r: bool)
        requires
            self.wf(),
        ensures
            r == warm(self.jar()),
    {
        match self.get("_abck") {
            Some(v) => {
                let vc = chars_of(v);
                vc.len() > 0
            },
            None => false,
        }
    }

    /// Akamai's validation flag, from the second `~`-separated field of
    /// `_abck`: `0` when a sensor ran, `-1` when nothing did. It is read,
    /// not enforced.
    pub fn validation(&self) -> (r: Option<i32>)
        requires
            self.wf(),
        ensures
            r == validation_of(self.jar()),
    {
        match self.get("_abck") {
            Some(v) => {
                let vc = chars_of(v);
                let parts = split_exec(&vc, '~');
                if parts.len() > 1 {
                    proof {
                        assert(views(parts@)[1] == parts@[1]@);
                    }
                    parse_i32_exec(&parts[1])
                } else {
                    None
                }
            },
            None => None,
        }
    }

    /// The email the session is filed under.
    pub fn email(&self) -> (r: &Option<String>)
        ensures
            *r == self.filed_email(),
    {
        &self.email
    }

    /// A copy of the session: the same cookies and the same email.
    pub fn duplicate(&self) -> (s: Session)
        ensures
            s.entries() == self.entries(),
            opt_str(s.filed_email()) == opt_str(self.filed_email()),
    {
        let email = match &self.email {
            Some(e) => Some(e.clone()),
            None => None,
        };
        Session { cookies: self.cookies.duplicate(), email }
    }

    /// The cookies, in the order of their names.
    pub fn cookies(&self) -> (r: Vec<(String, String)>)
        ensures
            view_pairs(r@) == self.entries(),
    {
        self.cookies.to_vec()
    }

    /// The names only, for narration. Never the values.
    pub fn names(&self) -> (r: Vec<String>)
        ensures
            strs(r@) == names_of(self.entries()),
    {
        let mut r: Vec<String> = Vec::new();
        let n = self.cookies.len();
        let mut i: usize = 0;
        while i < n
            invariant
                i <= n,
                n == self.cookies.names().len(),
                strs(r@) == self.cookies.names().take(i as int),
            decreases n - i,
        {
            let name = owned(self.cookies.name_at(i));
            let ghost before = r@;
            r.push(name);
            proof {
                assert(strs(r@) =~= strs(before).push(name@));
                assert(self.cookies.names().take(i + 1) =~= self.cookies.names().take(
                    i as int,
                ).push(self.cookies.names()[i as int]));
            }
            i += 1;
        }
        assert(self.cookies.names().take(n as int) =~= self.cookies.names());
        r
    }

    /// The value of one cookie.
    pub fn get(&self, name: &str) -> (r: Option<&str>)
        requires
            self.wf(),
        ensures
            r matches Some(v) ==> self.jar().contains_key(name@) && v@ == self.jar()[name@],
            r is None ==> !self.jar().contains_key(name@),
    {
        self.cookies.get(name)
    }

    /// The `Cookie` header value, or `None` when there is nothing to send.
    pub fn header(&self) -> (r: Option<String>)
        ensures
            r is None <==> self.entries().len() == 0,
            r matches Some(h) ==> h@ == cookie_line(self.entries()),
    {
        if self.cookies.is_empty() {
            return None;
        }
        let ghost ps = self.entries();
        let n = self.cookies.len();
        let mut parts: Vec<Vec<char>> = Vec::new();
        let mut i: usize = 0;
        while i < n
            invariant
                i <= n,
                n == ps.len(),
                ps == self.cookies.pairs(),
                views(parts@) == cookie_parts(ps.take(i as int)),
            decreases n - i,
        {
            let mut part = chars_of(self.cookies.name_at(i));
            part.push('=');
            let value = chars_of(self.cookies.value_at(i));
            crate::text::extend(&mut part, &value);
            let ghost before = parts@;
            parts.push(part);
            proof {
                reveal_strlit("=");
                assert(part@ =~= cookie_pair(ps[i as int]));
                assert(views(parts@) =~= views(before).push(part@));
                assert(cookie_parts(ps.take(i + 1)) =~= cookie_parts(ps.take(i as int)).push(
                    cookie_pair(ps[i as int]),
                ));
            }
            i += 1;
        }
        assert(ps.take(n as int) =~= ps);
        let sep = chars_of("; ");
        let line = join_exec(&parts, &sep);
        Some(crate::text::string_of(&line))
    }

    /// For each cookie in order, whether the selection `which` takes it:
    /// 0 for all but Akamai's, 1 for the anonymous ones, 2 for those worth
    /// keeping, 3 for all but the bot manager's.
    fn marks(&self, which: u8) -> (r: Vec<bool>)
        ensures
            r.len() == names_of(self.entries()).len(),
            forall|i: int|
                0 <= i < r.len() ==> r[i] == selection(which)(#[trigger] names_of(
                    self.entries(),
                )[i]),
    {
        let mut r: Vec<bool> = Vec::new();
        let n = self.cookies.len();
        let mut i: usize = 0;
        while i < n
            invariant
                i <= n,
                n == self.cookies.names().len(),
                names_of(self.entries()) == self.cookies.names(),
                r.len() == i,
                forall|j: int|
                    0 <= j < i ==> r[j] == selection(which)(#[trigger] self.cookies.names()[j]),
            decreases n - i,
        {
            let name = self.cookies.name_at(i);
            let b = if which == 0 {
                !is_akamai(name)
            } else if which == 1 {
                !is_personalised(name) && !eq_str(name, SESSION_COOKIE)
            } else if which == 2 {
                keep(name)
            } else {
                !is_warmth(name)
            };
            r.push(b);
            i += 1;
        }
        r
    }

    /// Fold in what a response set, in order. An empty value, or a pair of
    /// quotes, is a deletion: that is how Intershop signs someone out.
    pub fn absorb(&mut self, set: &Vec<(String, String)>)
        requires
            old(self).wf(),
        ensures
            final(self).wf(),
            final(self).jar() == absorbed(old(self).jar(), view_pairs(set@)),
            final(self).filed_email() == old(self).filed_email(),
    {
        let ghost ps = view_pairs(set@);
        let ghost target = absorbed(self.jar(), ps);
        assert(ps.skip(0) =~= ps);
        let mut i: usize = 0;
        while i < set.len()
            invariant
                i <= set.len(),
                self.wf(),
                ps == view_pairs(set@),
                absorbed(self.jar(), ps.skip(i as int)) == target,
                self.filed_email() == old(self).filed_email(),
            decreases set.len() - i,
        {
            proof {
                assert(ps.skip(i as int).drop_first() =~= ps.skip(i + 1));
                assert(ps.skip(i as int)[0] == ps[i as int]);
            }
            let name = &set[i].0;
            let value = &set[i].1;
            let vc = chars_of(value.as_str());
            if vc.len() == 0 || eq_str(value.as_str(), "\"\"") {
                self.cookies.remove(name.as_str());
            } else {
                self.cookies.insert(name.clone(), value.clone());
            }
            i += 1;
        }
        assert(ps.skip(set.len() as int) =~= Seq::<(Seq<char>, Seq<char>)>::empty());
    }

    /// Drop what speaks for a browser, keeping what speaks for a person: the
    /// recovery for a stored `_abck` the site has since decided against.
    pub fn forget_warmth(&mut self)
        requires
            old(self).wf(),
        ensures
            final(self).wf(),
            final(self).jar() == restrict(old(self).jar(), not_akamai()),
            final(self).filed_email() == old(self).filed_email(),
    {
        let marks = self.marks(0);
        self.cookies = self.cookies.keep_if(&marks, Ghost(not_akamai()));
    }

    /// Drop everything that speaks for a person, keeping what speaks for a
    /// browser: the personalised secure sessions, `sid`, and the email.
    pub fn sign_out(&mut self)
        requires
            old(self).wf(),
        ensures
            final(self).wf(),
            final(self).jar() == restrict(old(self).jar(), anonymous_names()),
            final(self).filed_email() is None,
            !signed_in(final(self).jar()),
    {
        let marks = self.marks(1);
        self.cookies = self.cookies.keep_if(&marks, Ghost(anonymous_names()));
        self.email = None;
    }

    /// Replace the bot manager's cookies with a warm-up's warmth, as a
    /// matched set (an old one the warm-up does not bring is dropped), and
    /// touch nothing else: the warm-up's own `sid` and secure sessions stay out, so a
    /// warm-up never signs anyone out. A later pair of `cookies` wins over an
    /// earlier one with the same name.
    pub fn rewarm(&mut self, cookies: Vec<(String, String)>)
        requires
            old(self).wf(),
        ensures
            final(self).wf(),
            final(self).jar() == rewarmed(old(self).jar(), to_map(view_pairs(cookies@))),
            final(self).filed_email() == old(self).filed_email(),
    {
        let ghost m0 = self.jar();
        let marks = self.marks(3);
        self.cookies = self.cookies.keep_if(&marks, Ghost(not_warmth()));
        let ghost mf = self.jar();
        let incoming = Jar::from_pairs(&cookies);
        proof {
            incoming.lemma_names();
        }
        let ghost im = incoming.map();
        let ghost iks = incoming.names();
        let n = incoming.len();
        let mut i: usize = 0;
        assert(iks.take(0) =~= Seq::<Seq<char>>::empty());
        while i < n
            invariant
                i <= n,
                n == iks.len(),
                iks == incoming.names(),
                im == incoming.map(),
                incoming.wf(),
                self.wf(),
                self.filed_email() == old(self).filed_email(),
                forall|k: Seq<char>| #[trigger]
                    self.jar().contains_key(k) <==> mf.contains_key(k) || (fresh(im, k) && iks.take(
                        i as int,
                    ).contains(k)),
                forall|k: Seq<char>| #[trigger]
                    self.jar().contains_key(k) ==> self.jar()[k] == if fresh(im, k) && iks.take(
                        i as int,
                    ).contains(k) {
                        im[k]
                    } else {
                        mf[k]
                    },
            decreases n - i,
        {
            let name = incoming.name_at(i);
            let value = incoming.value_at(i);
            let vc = chars_of(value);
            proof {
                incoming.lemma_names();
                lemma_ascending_distinct_names(iks);
                assert(iks.take(i + 1) =~= iks.take(i as int).push(iks[i as int]));
                assert(im[iks[i as int]] == incoming.pairs()[i as int].1);
                assert(!iks.take(i as int).contains(iks[i as int]));
                assert(im.contains_key(iks[i as int]));
            }
            let ghost pre = self.jar();
            let ghost kk = iks[i as int];
            let take = is_warmth(name) && vc.len() > 0;
            if take {
                let k = owned(name);
                let v = owned(value);
                self.cookies.insert(k, v);
            }
            proof {
                assert(take <==> fresh(im, kk));
                assert forall|k: Seq<char>| #[trigger] self.jar().contains_key(k) <==> mf.contains_key(k)
                    || (fresh(im, k) && iks.take(i + 1).contains(k)) by {
                    if k != kk {
                        assert(iks.take(i + 1).contains(k) <==> iks.take(i as int).contains(k)) by {
                            if iks.take(i + 1).contains(k) {
                                let j = choose|j: int| 0 <= j < i + 1 && #[trigger] iks.take(i + 1)[j] == k;
                                assert(iks.take(i as int)[j] == k);
                            }
                        }
                    } else {
                        assert(iks.take(i + 1)[i as int] == k);
                    }
                }
                assert forall|k: Seq<char>| #[trigger] self.jar().contains_key(k) implies self.jar()[k]
                    == if fresh(im, k) && iks.take(i + 1).contains(k) {
                    im[k]
                } else {
                    mf[k]
                } by {
                    if k != kk {
                        assert(iks.take(i + 1).contains(k) <==> iks.take(i as int).contains(k)) by {
                            if iks.take(i + 1).contains(k) {
                                let j = choose|j: int| 0 <= j < i + 1 && #[trigger] iks.take(i + 1)[j] == k;
                                assert(iks.take(i as int)[j] == k);
                            }
                        }
                    } else {
                        assert(iks.take(i + 1)[i as int] == k);
                    }
                }
            }
            i += 1;
        }
        proof {
            assert(iks.take(n as int) =~= iks);
            let target = rewarmed(m0, im);
            assert forall|k: Seq<char>| #[trigger] self.jar().contains_key(k) <==> target.contains_key(k) by {
                if fresh(im, k) {
                    assert(iks.contains(k));
                }
            }
            assert forall|k: Seq<char>| #[trigger] self.jar().contains_key(k) implies self.jar()[k] == target[k] by {
                if fresh(im, k) {
                    assert(iks.contains(k));
                }
            }
            assert(self.jar() =~= target);
        }
    }

    /// How the session describes itself: the names, the email and the
    /// account guess. Never a value: the values are credentials.
    pub fn describe(&self) -> (r: String)
        requires
            self.wf(),
        ensures
            r@ == session_text(
                names_of(self.entries()),
                opt_str(self.filed_email()),
                signed_in(self.jar()),
            ),
    {
        let names = self.names();
        let quoted_names = quote_all(&names);
        let mut out = chars_of("Session { cookies: [");
        let sep = chars_of(", ");
        let listed = join_exec(&quoted_names, &sep);
        crate::text::extend(&mut out, &listed);
        crate::text::extend_str(&mut out, "], email: ");
        let email = email_text(&self.email);
        crate::text::extend(&mut out, &email);
        crate::text::extend_str(&mut out, ", account: ");
        let account = self.account();
        if account {
            crate::text::extend_str(&mut out, "true");
        } else {
            crate::text::extend_str(&mut out, "false");
        }
        crate::text::extend_str(&mut out, " }");
        crate::text::string_of(&out)
    }
}

/// Each name in double quotes.
fn quote_all(names: &Vec<String>) -> (r: Vec<Vec<char>>)
    ensures
        views(r@) == quoted(strs(names@)),
{
    let mut r: Vec<Vec<char>> = Vec::new();
    let mut i: usize = 0;
    while i < names.len()
        invariant
            i <= names.len(),
            views(r@) == quoted(strs(names@).take(i as int)),
        decreases names.len() - i,
    {
        let mut q = chars_of("\"");
        crate::text::extend_str(&mut q, names[i].as_str());
        crate::text::extend_str(&mut q, "\"");
        let ghost before = r@;
        r.push(q);
        proof {
            assert(views(r@) =~= views(before).push(q@));
            assert(strs(names@).take(i + 1) =~= strs(names@).take(i as int).push(names@[i as int]@));
            assert(quoted(strs(names@).take(i + 1)) =~= quoted(strs(names@).take(i as int)).push(q@));
        }
        i += 1;
    }
    assert(strs(names@).take(names.len() as int) =~= strs(names@));
    r
}

/// `Some("…")` or `None`, for an email.
fn email_text(email: &Option<String>) -> (r: Vec<char>)
    ensures
        r@ == match opt_str(*email) {
            Some(e) => "Some(\""@ + e + "\")"@,
            None => "None"@,
        },
{
    match email {
        Some(e) => {
            let mut r = chars_of("Some(\"");
            crate::text::extend_str(&mut r, e.as_str());
            crate::text::extend_str(&mut r, "\")");
            r
        },
        None => chars_of("None"),
    }
}

impl Default for Session {
    /// No cookies and no email.
    fn default() -> (s: Session)
        ensures
            s.wf(),
            s.jar() == Map::<Seq<char>, Seq<char>>::empty(),
            s.filed_email() is None,
    {
        Session { cookies: Jar::new(), email: None }
    }
}

/// An ascending sequence of names holds each once.
proof fn lemma_ascending_distinct_names(ks: Seq<Seq<char>>)
    requires
        ascending(ks),
    ensures
        forall|a: int, b: int| 0 <= a < b < ks.len() ==> ks[a] != ks[b],
{
    crate::ordered::lemma_ascending_distinct(ks);
}

/// A session as it is filed.
#[derive(Debug)]
pub struct StoredSession {
    pub email: Option<String>,
    /// The cookies worth keeping, in the order of their names.
    pub cookies: Vec<(String, String)>,
    /// When it was filed, in seconds since the Unix epoch.
    pub obtained_at: u64,
}

/// How a filed session describes itself: the email, the names and when it
/// was filed, and never a value.
pub open spec fn stored_text(email: Option<Seq<char>>, names: Seq<Seq<char>>, obtained_at: u64) -> Seq<char> {
    "StoredSession { email: "@ + match email {
        Some(e) => "Some(\""@ + e + "\")"@,
        None => "None"@,
    } + ", cookies: ["@ + join(quoted(names), ", "@) + "], obtained_at: "@ + decimal(
        obtained_at as nat,
    ) + " }"@
}

impl StoredSession {
    /// File a session, keeping only the cookies [`keep`] accepts, stamped
    /// with the time now.
    pub fn of(session: &Session) -> (r: StoredSession)
        requires
            session.wf(),
        ensures
            opt_str(r.email) == opt_str(session.filed_email()),
            ascending(names_of(view_pairs(r.cookies@))),
            to_map(view_pairs(r.cookies@)) == restrict(session.jar(), kept_names()),
    {
        let marks = session.marks(2);
        let filed = session.cookies.keep_if(&marks, Ghost(kept_names()));
        let cookies = filed.to_vec();
        let email = match &session.email {
            Some(e) => Some(e.clone()),
            None => None,
        };
        StoredSession { email, cookies, obtained_at: crate::net_kit::jwt::now_secs() }
    }

    /// How the filed session describes itself: the email, the cookies'
    /// names and when it was filed. Never a value: the values are
    /// credentials.
    pub fn describe(&self) -> (r: String)
        ensures
            r@ == stored_text(
                opt_str(self.email),
                names_of(view_pairs(self.cookies@)),
                self.obtained_at,
            ),
    {
        let mut names: Vec<String> = Vec::new();
        let mut i: usize = 0;
        while i < self.cookies.len()
            invariant
                i <= self.cookies.len(),
                strs(names@) == names_of(view_pairs(self.cookies@)).take(i as int),
            decreases self.cookies.len() - i,
        {
            let n = self.cookies[i].0.clone();
            let ghost before = names@;
            names.push(n);
            proof {
                assert(strs(names@) =~= strs(before).push(n@));
                assert(names_of(view_pairs(self.cookies@)).take(i + 1) =~= names_of(
                    view_pairs(self.cookies@),
                ).take(i as int).push(n@));
            }
            i += 1;
        }
        assert(names_of(view_pairs(self.cookies@)).take(self.cookies.len() as int) =~= names_of(
            view_pairs(self.cookies@),
        ));
        let quoted_names = quote_all(&names);
        let mut out = chars_of("StoredSession { email: ");
        let email = email_text(&self.email);
        crate::text::extend(&mut out, &email);
        crate::text::extend_str(&mut out, ", cookies: [");
        let sep = chars_of(", ");
        let listed = join_exec(&quoted_names, &sep);
        crate::text::extend(&mut out, &listed);
        crate::text::extend_str(&mut out, "], obtained_at: ");
        let d = crate::text::decimal_exec(self.obtained_at);
        crate::text::extend(&mut out, &d);
        crate::text::extend_str(&mut out, " }");
        crate::text::string_of(&out)
    }

    /// The session this was filed from, as far as it was kept.
    pub fn session(&self) -> (s: Session)
        ensures
            s.wf(),
            s.jar() == to_map(view_pairs(self.cookies@)),
            opt_str(s.filed_email()) == opt_str(self.email),
    {
        let email = match &self.email {
            Some(e) => Some(e.clone()),
            None => None,
        };
        Session { cookies: Jar::from_pairs(&self.cookies), email }
    }
}

/// No bot-manager cookie speaks for a person: none is a personalised secure
/// session, and none is `sid`.
pub proof fn lemma_warmth_is_anonymous(k: Seq<char>)
    requires
        warmth(k),
    ensures
        !personalised(k),
        k != SESSION_COOKIE@,
        anonymous(k),
{
    reveal_strlit("__Host-SecureSessionID-");
    reveal_strlit("sid");
    reveal_strlit("_abck");
    reveal_strlit("bm_sz");
    reveal_strlit("ak_bmsc");
    reveal_strlit("bm_s");
    reveal_strlit("bm_so");
    reveal_strlit("bm_mi");
    reveal_strlit("bm_sv");
    reveal_strlit("bm_lso");
    reveal_strlit("AKA_A2");
    let p = SECURE_SESSION_PREFIX@;
    if starts_with(k, p) {
        assert(k[0] == p[0] && k[1] == p[1]);
    }
}

/// A warm-up never signs anyone out: whether the jar speaks for a person,
/// and the Intershop session it carries, are what they were.
pub proof fn lemma_rewarm_keeps_the_person(
    m: Map<Seq<char>, Seq<char>>,
    incoming: Map<Seq<char>, Seq<char>>,
)
    ensures
        signed_in(rewarmed(m, incoming)) == signed_in(m),
        rewarmed(m, incoming).contains_key(SESSION_COOKIE@) == m.contains_key(SESSION_COOKIE@),
        m.contains_key(SESSION_COOKIE@) ==> rewarmed(m, incoming)[SESSION_COOKIE@]
            == m[SESSION_COOKIE@],
{
    let r = rewarmed(m, incoming);
    if signed_in(m) {
        let k = choose|k: Seq<char>| #[trigger] m.contains_key(k) && personalised(k) && m[k].len() > 0;
        if warmth(k) {
            lemma_warmth_is_anonymous(k);
        }
        assert(r.contains_key(k));
    }
    if signed_in(r) {
        let k = choose|k: Seq<char>| #[trigger] r.contains_key(k) && personalised(k) && r[k].len() > 0;
        if warmth(k) {
            lemma_warmth_is_anonymous(k);
        }
        assert(m.contains_key(k));
    }
    if warmth(SESSION_COOKIE@) {
        lemma_warmth_is_anonymous(SESSION_COOKIE@);
    }
}

/// Signing out keeps the warm-up it did not pay for: every bot-manager
/// cookie is there after with the value it had before.
pub proof fn lemma_sign_out_keeps_warmth(m: Map<Seq<char>, Seq<char>>, k: Seq<char>)
    requires
        warmth(k),
    ensures
        restrict(m, anonymous_names()).contains_key(k) == m.contains_key(k),
        m.contains_key(k) ==> restrict(m, anonymous_names())[k] == m[k],
        warm(restrict(m, anonymous_names())) == warm(m),
{
    lemma_warmth_is_anonymous(k);
    reveal_strlit("_abck");
    lemma_warmth_is_anonymous("_abck"@);
}

/// After a warm-up the jar is warm exactly when the warm-up's cookies were:
/// a stale `_abck` never survives beside fresh ones.
pub proof fn lemma_rewarm_warmth_is_the_warm_ups(
    m: Map<Seq<char>, Seq<char>>,
    incoming: Map<Seq<char>, Seq<char>>,
)
    ensures
        warm(rewarmed(m, incoming)) == warm(incoming),
{
    reveal_strlit("_abck");
}

/// Filing a session and reading it back keeps the account and the warm-up:
/// what [`keep`] drops is never what those are read from.
pub proof fn lemma_filing_keeps_account_and_warmth(m: Map<Seq<char>, Seq<char>>)
    ensures
        signed_in(restrict(m, kept_names())) == signed_in(m),
        warm(restrict(m, kept_names())) == warm(m),
        validation_of(restrict(m, kept_names())) == validation_of(m),
{
    let r = restrict(m, kept_names());
    reveal_strlit("_abck");
    assert(kept("_abck"@));
    if signed_in(m) {
        let k = choose|k: Seq<char>| #[trigger] m.contains_key(k) && personalised(k) && m[k].len() > 0;
        assert(kept(k));
        assert(r.contains_key(k));
    }
}

} // verus!
