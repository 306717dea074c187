//! Where Mitre 10 answers: the SAP Commerce (OCC) API, its authorization
//! server, the website, and Algolia for search.

use vstd::prelude::*;
use crate::text::{chars_of, extend_str, lowered, owned, starts_with, starts_with_exec, string_of, to_lowercase_str, trim_end_char, trim_end_char_exec};

verus! {

/// The OCC base site every catalogue path is under.
pub const BASE_SITE: &'static str = "mitre10";

/// The configuration key the Algolia credentials are published under.
pub const ALGOLIA_CONFIG_KEY: &'static str = "mitre10.algolia.index.config";

/// The public OAuth client the mobile app signs in as.
pub const OAUTH_CLIENT_ID: &'static str = "mobile_android_public";

/// The API's default host.
pub const DEFAULT_API: &'static str = "https://ccapi.mitre10.co.nz";

/// The website's default host.
pub const DEFAULT_SITE: &'static str = "https://www.mitre10.co.nz";

/// The Algolia application and its search-only key.
#[derive(Clone, Debug)]
pub struct Algolia {
    pub app_id: String,
    pub search_key: String,
}

impl Algolia {
    pub fn new(app_id: &str, search_key: &str) -> (a: Algolia)
        ensures
            a.app_id@ == app_id@,
            a.search_key@ == search_key@,
    {
        Algolia { app_id: owned(app_id), search_key: owned(search_key) }
    }

    /// The application's own DSN host.
    pub fn host(&self) -> (r: String)
        ensures
            r@ == "https://"@ + lowered(self.app_id@) + "-dsn.algolia.net"@,
    {
        let mut v = chars_of("https://");
        let l = to_lowercase_str(self.app_id.as_str());
        extend_str(&mut v, l.as_str());
        extend_str(&mut v, "-dsn.algolia.net");
        string_of(&v)
    }
}

/// Where each part of the storefront answers.
#[derive(Clone, Debug)]
pub struct Endpoints {
    /// The OCC API and its authorization server.
    pub api: String,
    /// The website, which product links point at.
    pub site: String,
    /// An override for the search host, in place of the Algolia DSN.
    pub search: Option<String>,
    /// Algolia credentials, where they are known without asking.
    pub algolia: Option<Algolia>,
}

/// Concatenation of string slices' characters into a new string.
fn cat3(a: &str, b: &str, c: &str) -> (r: String)
    ensures
        r@ == a@ + b@ + c@,
{
    let mut v = chars_of(a);
    extend_str(&mut v, b);
    extend_str(&mut v, c);
    string_of(&v)
}

/// Concatenation of two string slices' characters into a new string.
fn cat2(a: &str, b: &str) -> (r: String)
    ensures
        r@ == a@ + b@,
{
    let mut v = chars_of(a);
    extend_str(&mut v, b);
    string_of(&v)
}

/// A host with its trailing slashes dropped.
fn trimmed(origin: &str) -> (r: String)
    ensures
        r@ == trim_end_char(origin@, '/'),
{
    let cs = chars_of(origin);
    let t = trim_end_char_exec(&cs, '/');
    string_of(&t)
}

/// The same path, or on a host when it is not already absolute.
pub open spec fn on_host(host: Seq<char>, path: Seq<char>) -> Seq<char> {
    if starts_with(path, "http"@) {
        path
    } else {
        host + path
    }
}

impl Endpoints {
    /// The storefront as it stands.
    pub fn defaults() -> (e: Endpoints)
        ensures
            e.api@ == DEFAULT_API@,
            e.site@ == DEFAULT_SITE@,
            e.search is None,
            e.algolia is None,
    {
        Endpoints { api: owned(DEFAULT_API), site: owned(DEFAULT_SITE), search: None, algolia: None }
    }

    /// Point the API somewhere else; a trailing slash is dropped.
    pub fn with_api(self, origin: &str) -> (e: Endpoints)
        ensures
            e.api@ == trim_end_char(origin@, '/'),
            e.site == self.site,
            e.search == self.search,
            e.algolia == self.algolia,
    {
        Endpoints { api: trimmed(origin), ..self }
    }

    /// Point the website somewhere else; a trailing slash is dropped.
    pub fn with_site(self, origin: &str) -> (e: Endpoints)
        ensures
            e.site@ == trim_end_char(origin@, '/'),
            e.api == self.api,
            e.search == self.search,
            e.algolia == self.algolia,
    {
        Endpoints { site: trimmed(origin), ..self }
    }

    /// Send searches somewhere else; a trailing slash is dropped.
    pub fn with_search(self, origin: &str) -> (e: Endpoints)
        ensures
            e.search matches Some(s) && s@ == trim_end_char(origin@, '/'),
            e.api == self.api,
            e.site == self.site,
            e.algolia == self.algolia,
    {
        Endpoints { search: Some(trimmed(origin)), ..self }
    }

    /// Use these Algolia credentials rather than asking for them.
    pub fn with_algolia(self, app_id: &str, key: &str) -> (e: Endpoints)
        ensures
            e.algolia matches Some(a) && a.app_id@ == app_id@ && a.search_key@ == key@,
            e.api == self.api,
            e.site == self.site,
            e.search == self.search,
    {
        Endpoints { algolia: Some(Algolia::new(app_id, key)), ..self }
    }

    /// A catalogue path, under the base site.
    pub fn occ(&self, path: &str) -> (r: String)
        ensures
            r@ == self.api@ + "/occ/v2/"@ + BASE_SITE@ + path@,
    {
        let mut v = chars_of(self.api.as_str());
        extend_str(&mut v, "/occ/v2/");
        extend_str(&mut v, BASE_SITE);
        extend_str(&mut v, path);
        string_of(&v)
    }

    /// An authorization-server path, which sits outside the base site.
    pub fn auth(&self, path: &str) -> (r: String)
        ensures
            r@ == self.api@ + "/authorizationserver"@ + path@,
    {
        cat3(self.api.as_str(), "/authorizationserver", path)
    }

    /// The multi-query URL: the search override where there is one, else the
    /// application's own DSN, with its credentials in the query string.
    pub fn queries(&self, algolia: &Algolia) -> (r: String)
        ensures
            r@ == match self.search {
                Some(s) => s@,
                None => "https://"@ + lowered(algolia.app_id@) + "-dsn.algolia.net"@,
            } + "/1/indexes/*/queries?x-algolia-api-key="@ + algolia.search_key@
                + "&x-algolia-application-id="@ + algolia.app_id@,
    {
        let host = match &self.search {
            Some(s) => s.clone(),
            None => algolia.host(),
        };
        let mut v = chars_of(host.as_str());
        extend_str(&mut v, "/1/indexes/*/queries?x-algolia-api-key=");
        extend_str(&mut v, algolia.search_key.as_str());
        extend_str(&mut v, "&x-algolia-application-id=");
        extend_str(&mut v, algolia.app_id.as_str());
        string_of(&v)
    }

    /// A media path on the API host, left alone when already absolute.
    pub fn media(&self, path: &str) -> (r: String)
        ensures
            r@ == on_host(self.api@, path@),
    {
        let p = chars_of(path);
        let h = chars_of("http");
        if starts_with_exec(&p, &h) {
            owned(path)
        } else {
            cat2(self.api.as_str(), path)
        }
    }

    /// A page on the website, left alone when already absolute.
    pub fn page(&self, path: &str) -> (r: String)
        ensures
            r@ == on_host(self.site@, path@),
    {
        let p = chars_of(path);
        let h = chars_of("http");
        if starts_with_exec(&p, &h) {
            owned(path)
        } else {
            cat2(self.site.as_str(), path)
        }
    }
}

impl Default for Endpoints {
    /// The storefront as it stands.
    fn default() -> (e: Endpoints)
        ensures
            e.api@ == DEFAULT_API@,
            e.site@ == DEFAULT_SITE@,
            e.search is None,
            e.algolia is None,
    {
        Endpoints::defaults()
    }
}

} // verus!
