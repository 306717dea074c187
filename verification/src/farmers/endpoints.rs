//! Where Farmers answers.
//!
//! Three backends, and the split is the shape of the whole storefront: the
//! Intershop REST API for products and categories, the `ViewX-` web
//! pipelines for stock, sign-in and the account header, and Constructor.io
//! for search.

use vstd::prelude::*;
use vstd::utf8::encode_utf8;
use crate::ordered::view_pairs;
use crate::text::{
    chars_of, decimal, decimal_exec, extend, extend_str, join, owned, percent_encode,
    percent_encode_str, starts_with, starts_with_exec, string_of, trim_end_char,
    trim_end_char_exec, trim_start_char, trim_start_char_exec,
};

verus! {

/// The Intershop ICM site. Every REST path is prefixed
/// `/INTERSHOP/rest/WFS/{SITE}/-;loc={LOCALE}`.
pub const SITE: &'static str = "Farmers-Shop-Site";

/// The storefront's locale: a matrix parameter on the REST base.
pub const LOCALE: &'static str = "en_NZ";

/// The currency segment the `ViewX-` pipelines carry.
pub const CURRENCY: &'static str = "NZD";

/// The Constructor.io index key the storefront ships in its own bundle.
pub const CONSTRUCTOR_KEY: &'static str = "key_wafe8wrKCXfPyWKw";

/// The Constructor.io client version the storefront reports.
pub const CONSTRUCTOR_CLIENT: &'static str = "ciojs-2.1469.1";

/// The storefront's default host.
pub const DEFAULT_ORIGIN: &'static str = "https://www.farmers.co.nz";

/// Constructor.io's default host.
pub const DEFAULT_SEARCH: &'static str = "https://ac.cnstrc.com";

#[derive(Clone, Debug)]
pub struct Endpoints {
    /// The storefront: REST, pipelines and pages.
    pub origin: String,
    /// The search backend.
    pub search: String,
    /// The Constructor.io index key.
    pub key: String,
}

/// An Intershop REST URL.
pub open spec fn rest_url(origin: Seq<char>, path: Seq<char>) -> Seq<char> {
    origin + "/INTERSHOP/rest/WFS/"@ + SITE@ + "/-;loc="@ + LOCALE@ + path
}

/// A `ViewX-` pipeline URL.
pub open spec fn pipeline_url(origin: Seq<char>, action: Seq<char>) -> Seq<char> {
    origin + "/INTERSHOP/web/WFS/"@ + SITE@ + "/"@ + LOCALE@ + "/-/"@ + CURRENCY@ + "/"@ + action
}

/// A Constructor.io URL carrying its credentials.
pub open spec fn constructor_url(
    search: Seq<char>,
    key: Seq<char>,
    path: Seq<char>,
    client: Seq<char>,
    session: u64,
) -> Seq<char> {
    search + path + "?key="@ + key + "&c="@ + CONSTRUCTOR_CLIENT@ + "&i="@ + client + "&s="@
        + decimal(session as nat)
}

/// What `media` makes of a path: absolute paths are kept.
pub open spec fn media_url(origin: Seq<char>, path: Seq<char>) -> Seq<char> {
    if starts_with(path, "http"@) {
        path
    } else {
        origin + path
    }
}

/// What `page` makes of a path: absolute paths are kept, and a relative one
/// is joined to the origin with exactly one slash.
pub open spec fn page_url(origin: Seq<char>, path: Seq<char>) -> Seq<char> {
    if starts_with(path, "http"@) {
        path
    } else {
        origin + "/"@ + trim_start_char(path, '/')
    }
}

/// One query component, percent-encoded.
pub open spec fn encoded(value: Seq<char>) -> Seq<char> {
    percent_encode(encode_utf8(value), false)
}

/// Concatenation of two strings' characters into a new string.
fn cat(a: &str, b: &str) -> (r: String)
    ensures
        r@ == a@ + b@,
{
    let mut r = owned(a);
    r.append(b);
    r
}

impl Endpoints {
    /// The storefront as it stands.
    pub fn defaults() -> (e: Endpoints)
        ensures
            e.origin@ == DEFAULT_ORIGIN@,
            e.search@ == DEFAULT_SEARCH@,
            e.key@ == CONSTRUCTOR_KEY@,
    {
        Endpoints {
            origin: owned(DEFAULT_ORIGIN),
            search: owned(DEFAULT_SEARCH),
            key: owned(CONSTRUCTOR_KEY),
        }
    }

    /// Point the storefront somewhere else; a trailing slash is dropped.
    pub fn with_origin(self, origin: &str) -> (e: Endpoints)
        ensures
            e.origin@ == trim_end_char(origin@, '/'),
            e.search == self.search,
            e.key == self.key,
    {
        let cs = chars_of(origin);
        let t = trim_end_char_exec(&cs, '/');
        Endpoints { origin: string_of(&t), ..self }
    }

    /// Point the search backend somewhere else; a trailing slash is dropped.
    pub fn with_search(self, origin: &str) -> (e: Endpoints)
        ensures
            e.search@ == trim_end_char(origin@, '/'),
            e.origin == self.origin,
            e.key == self.key,
    {
        let cs = chars_of(origin);
        let t = trim_end_char_exec(&cs, '/');
        Endpoints { search: string_of(&t), ..self }
    }

    /// Use another Constructor.io key.
    pub fn with_key(self, key: &str) -> (e: Endpoints)
        ensures
            e.key@ == key@,
            e.origin == self.origin,
            e.search == self.search,
    {
        Endpoints { key: owned(key), ..self }
    }

    /// An Intershop REST path: `rest("/products/6867065002")`.
    pub fn rest(&self, path: &str) -> (r: String)
        ensures
            r@ == rest_url(self.origin@, path@),
    {
        let mut r = self.origin.clone();
        r.append("/INTERSHOP/rest/WFS/");
        r.append(SITE);
        r.append("/-;loc=");
        r.append(LOCALE);
        r.append(path);
        r
    }

    /// A `ViewX-` web pipeline. The segment order differs from the REST
    /// base, as the site itself writes the two.
    pub fn pipeline(&self, action: &str) -> (r: String)
        ensures
            r@ == pipeline_url(self.origin@, action@),
    {
        let mut r = self.origin.clone();
        r.append("/INTERSHOP/web/WFS/");
        r.append(SITE);
        r.append("/");
        r.append(LOCALE);
        r.append("/-/");
        r.append(CURRENCY);
        r.append("/");
        r.append(action);
        r
    }

    /// A Constructor.io endpoint, with the credentials every call carries.
    pub fn constructor(&self, path: &str, client: &str, session: u64) -> (r: String)
        ensures
            r@ == constructor_url(self.search@, self.key@, path@, client@, session),
    {
        let mut r = self.search.clone();
        r.append(path);
        r.append("?key=");
        r.append(self.key.as_str());
        r.append("&c=");
        r.append(CONSTRUCTOR_CLIENT);
        r.append("&i=");
        r.append(client);
        r.append("&s=");
        let digits = string_of(&decimal_exec(session));
        r.append(digits.as_str());
        r
    }

    /// The home page, which is what a session is warmed against.
    pub fn home(&self) -> (r: String)
        ensures
            r@ == self.origin@ + "/"@,
    {
        cat(self.origin.as_str(), "/")
    }

    pub fn login_page(&self) -> (r: String)
        ensures
            r@ == self.origin@ + "/login"@,
    {
        cat(self.origin.as_str(), "/login")
    }

    pub fn account_page(&self) -> (r: String)
        ensures
            r@ == self.origin@ + "/account"@,
    {
        cat(self.origin.as_str(), "/account")
    }

    pub fn cart_page(&self) -> (r: String)
        ensures
            r@ == self.origin@ + "/cart"@,
    {
        cat(self.origin.as_str(), "/cart")
    }

    pub fn orders_page(&self) -> (r: String)
        ensures
            r@ == self.origin@ + "/orders"@,
    {
        cat(self.origin.as_str(), "/orders")
    }

    /// Plural: the account holds several lists.
    pub fn wishlists_page(&self) -> (r: String)
        ensures
            r@ == self.origin@ + "/wishlists"@,
    {
        cat(self.origin.as_str(), "/wishlists")
    }

    /// A static asset path, left absolute if it already is one.
    pub fn media(&self, path: &str) -> (r: String)
        ensures
            r@ == media_url(self.origin@, path@),
    {
        let cs = chars_of(path);
        let http = chars_of("http");
        if starts_with_exec(&cs, &http) {
            owned(path)
        } else {
            cat(self.origin.as_str(), path)
        }
    }

    /// A product's page on the website, from the slug the search index
    /// carries.
    pub fn page(&self, path: &str) -> (r: String)
        ensures
            r@ == page_url(self.origin@, path@),
    {
        let cs = chars_of(path);
        let http = chars_of("http");
        if starts_with_exec(&cs, &http) {
            owned(path)
        } else {
            let rest = trim_start_char_exec(&cs, '/');
            let mut r = cat(self.origin.as_str(), "/");
            let tail = string_of(&rest);
            r.append(tail.as_str());
            r
        }
    }
}

/// Percent-encode one query component: every byte outside RFC 3986's
/// unreserved set becomes `%XX`.
pub fn encode(value: &str) -> (r: String)
    ensures
        r@ == encoded(value@),
{
    let v = percent_encode_str(value, false);
    string_of(&v)
}

/// One `name=value` pair, both halves encoded.
pub open spec fn query_part(p: (Seq<char>, Seq<char>)) -> Seq<char> {
    encoded(p.0) + "="@ + encoded(p.1)
}

/// Each pair as `name=value`, encoded.
pub open spec fn query_parts(ps: Seq<(Seq<char>, Seq<char>)>) -> Seq<Seq<char>> {
    ps.map_values(|p: (Seq<char>, Seq<char>)| query_part(p))
}

/// `a=1&b=2` from pairs, in the order given.
pub open spec fn query(ps: Seq<(Seq<char>, Seq<char>)>) -> Seq<char> {
    join(query_parts(ps), "&"@)
}

/// `a=1&b=2` from pairs, in the order given.
pub fn query_string(params: &[(String, String)]) -> (r: String)
    ensures
        r@ == query(view_pairs(params@)),
{
    let ghost parts = query_parts(view_pairs(params@));
    let mut out: Vec<char> = Vec::new();
    let mut i: usize = 0;
    while i < params.len()
        invariant
            i <= params.len(),
            parts == query_parts(view_pairs(params@)),
            parts.len() == params.len(),
            out@ == join(parts.take(i as int), "&"@),
        decreases params.len() - i,
    {
        proof {
            assert(parts.take(i + 1).drop_last() =~= parts.take(i as int));
            assert(parts[i as int] == query_part((params@[i as int].0@, params@[i as int].1@)));
        }
        if i > 0 {
            extend_str(&mut out, "&");
        }
        let k = percent_encode_str(params[i].0.as_str(), false);
        let v = percent_encode_str(params[i].1.as_str(), false);
        extend(&mut out, &k);
        extend_str(&mut out, "=");
        extend(&mut out, &v);
        i += 1;
    }
    assert(parts.take(params.len() as int) =~= parts);
    string_of(&out)
}

/// What a trailing-slash trim leaves never ends in a slash.
pub proof fn lemma_trimmed_origin_has_no_trailing_slash(origin: Seq<char>)
    ensures
        trim_end_char(origin, '/').len() == 0 || trim_end_char(origin, '/').last() != '/',
    decreases origin.len(),
{
    if origin.len() > 0 && origin.last() == '/' {
        lemma_trimmed_origin_has_no_trailing_slash(origin.drop_last());
    }
}

} // verus!
