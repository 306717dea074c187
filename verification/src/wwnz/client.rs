//! Woolworths New Zealand: one GraphQL endpoint, and how product searches
//! are asked for and paged through.

use vstd::prelude::*;
use crate::net_kit::password::Source;
use crate::net_kit::secrets::Secrets;
use crate::json::{field, member_index, member_pos, lemma_member_index, str_value, Json};
use crate::text::{chars_of, contains, contains_exec, extend_str, join, join_exec, string_of, views};
use crate::wwnz::error::Error;

verus! {

/// The order results come in unless told otherwise.
pub const DEFAULT_SORT: &'static str = "RELEVANCE";

/// The orderings the search offers.
pub const SORTS: [&'static str; 6] = [
    "RELEVANCE",
    "PRICE_LOW_HIGH",
    "PRICE_HIGH_LOW",
    "CUP_PRICE_LOW_HIGH",
    "FAVOURITES",
    "FREQUENCY",
];

/// The most products one page is asked for.
pub const MAX_PAGE_SIZE: u32 = 36;

/// What a client needs to sign itself in again when its session lapses. A
/// Woolworths session cannot be refreshed -- only the site mints one -- so the
/// one renewal there is walks the login again, which takes a password.
pub struct Reauth {
    pub email: String,
    /// Named rather than fetched: most clients never renew, and reading a
    /// password can be a prompt.
    pub password: Source,
    pub secrets: Secrets,
}

/// What a product search selects by.
#[derive(Clone, Debug)]
pub enum SearchBy {
    Keyword(String),
    Category(String),
    Specials,
    /// What this account has bought before.
    BuyAgain,
}

impl SearchBy {
    /// The search input field each way of selecting names.
    pub fn field(&self) -> (r: &'static str)
        ensures
            r@ == match *self {
                SearchBy::Keyword(_) => "byKeyword"@,
                SearchBy::Category(_) => "byCategoryKey"@,
                SearchBy::Specials => "byProductPromotionSpecials"@,
                SearchBy::BuyAgain => "byBuyAgain"@,
            },
    {
        match self {
            SearchBy::Keyword(_) => "byKeyword",
            SearchBy::Category(_) => "byCategoryKey",
            SearchBy::Specials => "byProductPromotionSpecials",
            SearchBy::BuyAgain => "byBuyAgain",
        }
    }

    /// The value the field carries, for the ways that take one.
    pub fn value(&self) -> (r: Option<&str>)
        ensures
            match *self {
                SearchBy::Keyword(v) => r matches Some(x) && x@ == v@,
                SearchBy::Category(v) => r matches Some(x) && x@ == v@,
                _ => r is None,
            },
    {
        match self {
            SearchBy::Keyword(v) => Some(v.as_str()),
            SearchBy::Category(v) => Some(v.as_str()),
            SearchBy::Specials | SearchBy::BuyAgain => None,
        }
    }

    /// Only buy-again is about an account.
    pub fn needs_account(&self) -> (r: bool)
        ensures
            r == (*self is BuyAgain),
    {
        match self {
            SearchBy::BuyAgain => true,
            _ => false,
        }
    }

    /// Buy-again is ordered by how often something was bought; everything
    /// else by relevance.
    pub fn default_sort(&self) -> (r: &'static str)
        ensures
            *self is BuyAgain ==> r@ == "FREQUENCY"@,
            !(*self is BuyAgain) ==> r@ == DEFAULT_SORT@,
    {
        match self {
            SearchBy::BuyAgain => "FREQUENCY",
            _ => DEFAULT_SORT,
        }
    }
}

/// Where a paged search stands: how many products are in hand of the most
/// wanted, which page is next, how many pages there are, and how many
/// results the last answer said there were in all.
#[derive(Clone, Copy, Debug)]
pub struct Pager {
    pub max: u32,
    pub page_size: u32,
    pub collected: u32,
    pub page: u32,
    pub total_pages: u32,
    pub total_available: u32,
}

impl Pager {
    /// Well formed: never more in hand than wanted.
    pub open spec fn wf(&self) -> bool {
        self.collected <= self.max && 1 <= self.page_size <= MAX_PAGE_SIZE
    }

    /// A search for at most `max` products: pages of `max`, between one and
    /// [`MAX_PAGE_SIZE`], starting at the first, with one page assumed until
    /// an answer says otherwise.
    pub fn new(max: u32) -> (p: Pager)
        ensures
            p.wf(),
            p.max == max,
            p.page_size == if max < 1 {
                1
            } else if max > MAX_PAGE_SIZE {
                MAX_PAGE_SIZE
            } else {
                max
            },
            p.collected == 0,
            p.page == 0,
            p.total_pages == 1,
            p.total_available == 0,
    {
        let page_size = if max < 1 {
            1
        } else if max > MAX_PAGE_SIZE {
            MAX_PAGE_SIZE
        } else {
            max
        };
        Pager { max, page_size, collected: 0, page: 0, total_pages: 1, total_available: 0 }
    }

    /// Whether another page is worth asking for.
    pub fn wants_more(&self) -> (r: bool)
        ensures
            r == (self.collected < self.max && self.page < self.total_pages),
    {
        self.collected < self.max && self.page < self.total_pages
    }

    /// Take an answer: `found` products on the page, and what the answer said
    /// of the pages and results in all. A page of nothing but advertising
    /// is not the end of the results -- only an empty last page is. Returns
    /// how many of the page's products to keep, or `None` to stop.
    pub fn take(&mut self, found: u32, total_pages: Option<u32>, total_count: Option<u32>) -> (r: Option<u32>)
        requires
            old(self).wf(),
            old(self).collected < old(self).max,
            old(self).page < old(self).total_pages,
        ensures
            final(self).wf(),
            final(self).max == old(self).max,
            final(self).page_size == old(self).page_size,
            final(self).total_pages == match total_pages {
                Some(t) => t,
                None => (old(self).page + 1) as u32,
            },
            final(self).total_available == match total_count {
                Some(t) => t as int,
                None => {
                    let sum = old(self).collected + found;
                    if sum > u32::MAX {
                        u32::MAX as int
                    } else {
                        sum
                    }
                },
            },
            found == 0 && old(self).page + 1 >= final(self).total_pages ==> r is None
                && final(self).collected == old(self).collected && final(self).page == old(self).page,
            !(found == 0 && old(self).page + 1 >= final(self).total_pages) ==> (r matches Some(k)
                && k == if found < old(self).max - old(self).collected {
                found
            } else {
                (old(self).max - old(self).collected) as u32
            } && final(self).collected == old(self).collected + k && final(self).page
                == old(self).page + 1),
    {
        self.total_pages = match total_pages {
            Some(t) => t,
            None => self.page + 1,
        };
        self.total_available = match total_count {
            Some(t) => t,
            None => if found > u32::MAX - self.collected {
                u32::MAX
            } else {
                self.collected + found
            },
        };
        if found == 0 && self.page + 1 >= self.total_pages {
            return None;
        }
        let room = self.max - self.collected;
        let k = if found < room {
            found
        } else {
            room
        };
        self.collected = self.collected + k;
        self.page = self.page + 1;
        Some(k)
    }
}

/// Whether an extension code says nobody is signed in.
pub open spec fn code_unauthenticated(code: Seq<char>) -> bool {
    contains(code, "AUTH_NOT_AUTHENTICATED"@) || contains(code, "UNAUTHENTICATED"@)
}

/// A GraphQL error's extension code, where it has one as a string.
pub open spec fn extension_code(e: Json) -> Option<Seq<char>> {
    match field(e, "extensions"@) {
        Some(x) => str_value(field(x, "code"@)),
        None => None,
    }
}

/// Whether an error's extension code says nobody is signed in.
pub open spec fn says_unauthenticated(e: Json) -> bool {
    match extension_code(e) {
        Some(c) => code_unauthenticated(c),
        None => false,
    }
}

/// Whether any error of the array says nobody is signed in.
pub open spec fn unauthenticated(es: Seq<Json>) -> bool {
    exists|i: int| 0 <= i < es.len() && #[trigger] says_unauthenticated(es[i])
}

/// An error whose extension code names either of the two unauthenticated
/// codes makes the whole array "not signed in", and only such an error does.
pub proof fn lemma_unauthenticated_codes(operation: &'static str, es: Seq<Json>, listed: Seq<char>, e: Error)
    requires
        graphql_failure(operation, es, listed, e),
    ensures
        forall|i: int|
            0 <= i < es.len() && extension_code(#[trigger] es[i]) is Some && (contains(
                extension_code(es[i])->0,
                "AUTH_NOT_AUTHENTICATED"@,
            ) || contains(extension_code(es[i])->0, "UNAUTHENTICATED"@)) ==> e is NotSignedIn,
        e is NotSignedIn ==> exists|i: int|
            0 <= i < es.len() && extension_code(#[trigger] es[i]) is Some && (contains(
                extension_code(es[i])->0,
                "AUTH_NOT_AUTHENTICATED"@,
            ) || contains(extension_code(es[i])->0, "UNAUTHENTICATED"@)),
{
    assert forall|i: int|
        0 <= i < es.len() && extension_code(#[trigger] es[i]) is Some && (contains(
            extension_code(es[i])->0,
            "AUTH_NOT_AUTHENTICATED"@,
        ) || contains(extension_code(es[i])->0, "UNAUTHENTICATED"@)) implies e is NotSignedIn by {
        assert(says_unauthenticated(es[i]));
    }
    if e is NotSignedIn {
        let i = choose|i: int| 0 <= i < es.len() && #[trigger] says_unauthenticated(es[i]);
        assert(extension_code(es[i]) is Some);
    }
}

/// The errors' messages, in order, where they carry one as a string.
pub open spec fn messages(es: Seq<Json>) -> Seq<Seq<char>>
    decreases es.len(),
{
    if es.len() == 0 {
        Seq::empty()
    } else {
        let before = messages(es.drop_last());
        match str_value(field(es.last(), "message"@)) {
            Some(m) => before.push(m),
            None => before,
        }
    }
}

/// How many characters of an errors array are quoted where no error
/// carries a message.
pub const QUOTED: usize = 300;

/// The first `n` characters of a text, or all of it.
pub open spec fn cut(s: Seq<char>, n: nat) -> Seq<char> {
    if s.len() <= n {
        s
    } else {
        s.take(n as int)
    }
}

/// The error an `errors` array stands for, `listed` being the array
/// printed as JSON: not signed in where an extension code says so, else the
/// operation with its messages joined by `; `, or with the array itself
/// (cut short) where none carries a message.
pub open spec fn graphql_failure(operation: &'static str, es: Seq<Json>, listed: Seq<char>, e: Error) -> bool {
    if unauthenticated(es) {
        e is NotSignedIn
    } else {
        e matches Error::Graphql { operation: o, message: m } && o == operation && m@ == if messages(
            es,
        ).len() == 0 {
            cut(listed, QUOTED as nat)
        } else {
            join(messages(es), "; "@)
        }
    }
}

/// Turn a GraphQL `errors` array into one typed error. The API signals "not
/// logged in" as an `AUTH_NOT_AUTHENTICATED` extension on a 200, so this is
/// where a lapsed session is noticed: by a structured code, not by English.
pub fn graphql_error(operation: &'static str, errors: &Vec<Json>, listed: &str) -> (e: Error)
    ensures
        graphql_failure(operation, errors@, listed@, e),
{
    let mut i: usize = 0;
    while i < errors.len()
        invariant
            i <= errors.len(),
            forall|j: int|
                0 <= j < i ==> !#[trigger] says_unauthenticated(errors@[j]),
        decreases errors.len() - i,
    {
        let code = match errors[i].get("extensions") {
            Some(x) => match x.get("code") {
                Some(c) => c.as_str(),
                None => None,
            },
            None => None,
        };
        match code {
            Some(c) => {
                let cs = chars_of(c);
                let a = chars_of("AUTH_NOT_AUTHENTICATED");
                let b = chars_of("UNAUTHENTICATED");
                if contains_exec(&cs, &a) || contains_exec(&cs, &b) {
                    proof {
                        assert(extension_code(errors@[i as int]) == Some(c@));
                        assert(says_unauthenticated(errors@[i as int]));
                    }
                    return Error::NotSignedIn;
                }
            },
            None => {},
        }
        i += 1;
    }
    let mut parts: Vec<Vec<char>> = Vec::new();
    let mut i: usize = 0;
    while i < errors.len()
        invariant
            i <= errors.len(),
            views(parts@) == messages(errors@.take(i as int)),
        decreases errors.len() - i,
    {
        proof {
            assert(errors@.take(i + 1).drop_last() =~= errors@.take(i as int));
            assert(errors@.take(i + 1).last() == errors@[i as int]);
        }
        match errors[i].get("message") {
            Some(m) => match m.as_str() {
                Some(t) => {
                    let ghost before = parts@;
                    parts.push(chars_of(t));
                    proof {
                        assert(views(parts@) =~= views(before).push(t@));
                    }
                },
                None => {},
            },
            None => {},
        }
        i += 1;
    }
    proof {
        assert(errors@.take(errors@.len() as int) =~= errors@);
    }
    let message = if parts.len() == 0 {
        let cs = chars_of(listed);
        let mut v: Vec<char> = Vec::new();
        let mut k: usize = 0;
        while k < cs.len() && k < QUOTED
            invariant
                k <= cs.len(),
                k <= QUOTED,
                v@ == cs@.take(k as int),
            decreases cs.len() - k,
        {
            v.push(cs[k]);
            proof {
                assert(cs@.take(k + 1) =~= cs@.take(k as int).push(cs@[k as int]));
            }
            k += 1;
        }
        proof {
            if cs.len() <= QUOTED {
                assert(cs@.take(cs@.len() as int) =~= cs@);
            }
        }
        string_of(&v)
    } else {
        let sep = chars_of("; ");
        let v = join_exec(&parts, &sep);
        string_of(&v)
    };
    Error::Graphql { operation, message }
}

/// The non-empty `errors` array of an answer.
pub open spec fn graphql_errors(a: Json) -> Option<Seq<Json>> {
    match field(a, "errors"@) {
        Some(Json::Array(es)) => if es@.len() > 0 {
            Some(es@)
        } else {
            None
        },
        _ => None,
    }
}

/// The `data` of an answer, where it is there and not null.
pub open spec fn data_of(a: Json) -> Option<Json> {
    match field(a, "data"@) {
        Some(d) => if d is Null {
            None
        } else {
            Some(d)
        },
        None => None,
    }
}

/// What a call whose body decoded to `a` comes to: the error its `errors`
/// array stands for, else its `data`, else a shape error.
pub open spec fn answered(operation: &'static str, body: Seq<char>, a: Json, r: Result<Json, Error>) -> bool {
    match graphql_errors(a) {
        Some(es) => r matches Err(e) && graphql_failure(operation, es, errors_json(body), e),
        None => match data_of(a) {
            Some(d) => r == Ok::<Json, Error>(d),
            None => r matches Err(Error::Shape(m)) && m@ == operation@ + " returned no data"@,
        },
    }
}

/// Whether a status is a success.
pub open spec fn success(status: u16) -> bool {
    200 <= status < 300
}

/// The `errors` member of a JSON body, printed compactly by `serde_json`;
/// empty where the body does not parse or has none.
pub uninterp spec fn errors_json(body: Seq<char>) -> Seq<char>;

/// `serde_json::from_str`, then the `errors` member printed with
/// `to_string`: as [`errors_json`] names it.
#[verifier::external_body]
fn errors_text(body: &str) -> (r: String)
    ensures
        r@ == errors_json(body@),
{
    serde_json::from_str::<serde_json::Value>(body).ok().and_then(|v| v.get("errors").map(|e| e.to_string())).unwrap_or_default()
}

/// What one GraphQL call came to, given the status and body that came back
/// and the body decoded (`None` where it did not decode).
///
/// A refused status is an HTTP failure, except a `401` that names
/// `session_expired`, which is a lapsed session rather than "you never
/// signed in". GraphQL answers `200` with an `errors` array rather than a
/// status, so a body that decoded is read for one; failing that its `data`
/// is the answer, and a missing or null `data` is a shape error.
pub fn call_outcome(operation: &'static str, status: u16, body: &str, answer: Option<Json>) -> (r: Result<Json, Error>)
    ensures
        !success(status) && status == 401 && contains(body@, "session_expired"@) ==> r
            == Err::<Json, Error>(Error::SessionExpired),
        !success(status) && !(status == 401 && contains(body@, "session_expired"@)) ==> (r matches Err(
            Error::Http { status: s, body: b },
        ) && s == Some(status) && b@ == body@),
        success(status) && answer is None ==> (r matches Err(Error::Http { status: s, body: b })
            && s == Some(status) && b@ == body@),
        success(status) ==> match answer {
            Some(a) => answered(operation, body@, a, r),
            None => true,
        },
{
    if !(200 <= status && status < 300) {
        let cs = chars_of(body);
        let marker = chars_of("session_expired");
        if status == 401 && contains_exec(&cs, &marker) {
            return Err(Error::SessionExpired);
        }
        return Err(Error::Http { status: Some(status), body: string_of(&cs) });
    }
    let a = match answer {
        None => {
            let cs = chars_of(body);
            return Err(Error::Http { status: Some(status), body: string_of(&cs) });
        },
        Some(a) => a,
    };
    match a.get("errors") {
        Some(Json::Array(es)) => {
            if es.len() > 0 {
                let listed = errors_text(body);
                return Err(graphql_error(operation, es, listed.as_str()));
            }
        },
        _ => {},
    }
    let no_data = {
        let mut v = chars_of(operation);
        extend_str(&mut v, " returned no data");
        string_of(&v)
    };
    match a {
        Json::Object(mut es) => {
            proof {
                lemma_member_index(es@, "data"@);
            }
            match member_pos(&es, "data") {
                Some(k) => {
                    let (_, d) = es.remove(k);
                    match d {
                        Json::Null => Err(Error::Shape(no_data)),
                        d => Ok(d),
                    }
                },
                None => Err(Error::Shape(no_data)),
            }
        },
        _ => Err(Error::Shape(no_data)),
    }
}

} // verus!
