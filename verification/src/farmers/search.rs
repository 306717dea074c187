//! Finding things, which is not the Intershop API's job.
//!
//! The REST API cannot search: `/products?searchTerm=lego` neither errors nor
//! filters. Search, autocomplete and category browse are Constructor.io, on a
//! different host with no bot manager in front of it. Browse takes the same
//! category ids Intershop uses -- `51-0303` -- plus `Brands/{name}` for a
//! brand's own page.

use vstd::prelude::*;
use crate::farmers::endpoints::{constructor_url, encode, encoded, query, query_string, Endpoints};
use crate::ordered::view_pairs;
use crate::text::{
    chars_of, decimal, decimal_exec, extend, extend_str, join, join_exec, lowered, owned,
    split, split_exec, str_is, string_of, to_lowercase_str, trim, trim_end_char,
    trim_end_char_exec, trim_exec, trim_start_char, trim_start_char_exec, views,
};

verus! {

/// What one page holds when nothing says otherwise, as the storefront's own
/// grid asks.
pub const PAGE_SIZE: u64 = 24;

/// Which way a sort runs.
#[derive(Clone, Copy, Debug, PartialEq, Eq, Structural)]
pub enum SortOrder {
    Ascending,
    Descending,
}

/// The orderings the index offers, as `(name, what it sorts by, which way)`,
/// read off the live `sort_options`: a name the index does not know is
/// ignored rather than refused.
pub const SORTS: [(&'static str, &'static str, SortOrder); 6] = [
    ("relevance", "relevance", SortOrder::Descending),
    ("newest", "arrivaldate", SortOrder::Descending),
    ("name", "name", SortOrder::Ascending),
    ("name-desc", "name", SortOrder::Descending),
    ("price", "productsalepricegross", SortOrder::Ascending),
    ("price-desc", "productsalepricegross", SortOrder::Descending),
];

/// The sorts as characters.
pub open spec fn sorts() -> Seq<(Seq<char>, Seq<char>, SortOrder)> {
    SORTS@.map_values(|s: (&'static str, &'static str, SortOrder)| (s.0@, s.1@, s.2))
}

/// How the service spells a direction.
pub open spec fn order_text(o: SortOrder) -> Seq<char> {
    match o {
        SortOrder::Ascending => "ascending"@,
        SortOrder::Descending => "descending"@,
    }
}

/// The first sort from `i` on called `wanted`.
pub open spec fn first_sort(wanted: Seq<char>, i: int) -> Option<int>
    decreases 6 - i,
{
    if i >= 6 || i < 0 {
        None
    } else if sorts()[i].0 == wanted {
        Some(i)
    } else {
        first_sort(wanted, i + 1)
    }
}

/// The sort a name picks: trimmed and lower-cased, then looked up.
pub open spec fn sort_of(name: Seq<char>) -> Option<(Seq<char>, SortOrder)> {
    match first_sort(lowered(trim(name)), 0) {
        Some(i) => Some((sorts()[i].1, sorts()[i].2)),
        None => None,
    }
}

impl SortOrder {
    /// How the service spells the direction.
    pub fn as_str(self) -> (r: &'static str)
        ensures
            r@ == order_text(self),
    {
        match self {
            SortOrder::Ascending => "ascending",
            SortOrder::Descending => "descending",
        }
    }
}

/// A sort by the name this crate gives it: case and surrounding whitespace
/// do not matter.
pub fn sort(name: &str) -> (r: Option<(&'static str, SortOrder)>)
    ensures
        r matches Some(p) ==> sort_of(name@) == Some((p.0@, p.1)),
        r is None ==> sort_of(name@) is None,
{
    let cs = chars_of(name);
    let t = string_of(&trim_exec(&cs));
    let down = to_lowercase_str(t.as_str());
    let wanted = chars_of(down.as_str());
    let mut i: usize = 0;
    while i < 6
        invariant
            i <= 6,
            wanted@ == lowered(trim(name@)),
            first_sort(wanted@, 0) == first_sort(wanted@, i as int),
        decreases 6 - i,
    {
        proof {
            assert(sorts()[i as int] == (SORTS@[i as int].0@, SORTS@[i as int].1@, SORTS@[i as int].2));
        }
        if str_is(SORTS[i].0, &wanted) {
            return Some((SORTS[i].1, SORTS[i].2));
        }
        i += 1;
    }
    None
}

/// What is being asked for: a term, or a category.
#[derive(Clone, Debug)]
pub enum Subject {
    Term(String),
    /// A category id, or `Brands/Chisel`.
    Group(String),
}

/// A group id as a path: its slashes kept as separators, each segment
/// encoded.
pub open spec fn group_path(group: Seq<char>) -> Seq<char> {
    join(
        split(trim_end_char(trim_start_char(group, '/'), '/'), '/').map_values(
            |seg: Seq<char>| encoded(seg),
        ),
        "/"@,
    )
}

/// The path for what is asked.
pub open spec fn subject_path(subject: Subject) -> Seq<char> {
    match subject {
        Subject::Term(term) => "/search/"@ + encoded(trim(term@)),
        Subject::Group(group) => "/browse/group_id/"@ + group_path(group@),
    }
}

/// One page of results, however it is being narrowed.
#[derive(Clone, Debug)]
pub struct Query {
    /// Zero-based, as this crate counts everywhere.
    pub page: u64,
    pub per_page: Option<u64>,
    /// Facet name and value. Several with the same name are an OR.
    pub filters: Vec<(String, String)>,
    pub sort: Option<String>,
}

/// The filter parameters, bracketed the way the service reads them.
pub open spec fn filter_params(fs: Seq<(Seq<char>, Seq<char>)>) -> Seq<(Seq<char>, Seq<char>)> {
    fs.map_values(|f: (Seq<char>, Seq<char>)| ("filters["@ + f.0 + "]"@, f.1))
}

/// The sort parameters: none for an unknown name, which is dropped rather
/// than passed on to be ignored.
pub open spec fn sort_params(sort: Option<String>) -> Seq<(Seq<char>, Seq<char>)> {
    match sort {
        Some(name) => match sort_of(name@) {
            Some(p) => seq![("sort_by"@, p.0), ("sort_order"@, order_text(p.1))],
            None => Seq::empty(),
        },
        None => Seq::empty(),
    }
}

/// Every parameter of a query, in the order sent. The service counts pages
/// from one.
pub open spec fn params_of(q: Query) -> Seq<(Seq<char>, Seq<char>)> {
    let per = match q.per_page {
        Some(n) => n,
        None => PAGE_SIZE,
    };
    seq![("num_results_per_page"@, decimal(per as nat)), ("page"@, decimal((q.page + 1) as nat))]
        + filter_params(view_pairs(q.filters@)) + sort_params(q.sort)
}

/// The whole URL for a query about a subject.
pub open spec fn query_url(
    q: Query,
    e: Endpoints,
    subject: Subject,
    client: Seq<char>,
    session: u64,
) -> Seq<char> {
    constructor_url(e.search@, e.key@, subject_path(subject), client, session) + "&"@ + query(
        params_of(q),
    )
}

/// A group id's path.
fn group_path_exec(group: &str) -> (r: Vec<char>)
    ensures
        r@ == group_path(group@),
{
    let cs = chars_of(group);
    let a = trim_start_char_exec(&cs, '/');
    let b = trim_end_char_exec(&a, '/');
    let segs = split_exec(&b, '/');
    let ghost want = split(b@, '/').map_values(|seg: Seq<char>| encoded(seg));
    let mut parts: Vec<Vec<char>> = Vec::new();
    let mut i: usize = 0;
    while i < segs.len()
        invariant
            i <= segs.len(),
            views(segs@) == split(b@, '/'),
            want == split(b@, '/').map_values(|seg: Seq<char>| encoded(seg)),
            views(parts@) == want.take(i as int),
        decreases segs.len() - i,
    {
        let seg = string_of(&segs[i]);
        let enc = encode(seg.as_str());
        let ev = chars_of(enc.as_str());
        let ghost before = parts@;
        parts.push(ev);
        proof {
            assert(views(segs@)[i as int] == segs@[i as int]@);
            assert(views(parts@) =~= views(before).push(ev@));
            assert(want.take(i + 1) =~= want.take(i as int).push(want[i as int]));
        }
        i += 1;
    }
    assert(want.take(segs.len() as int) =~= want);
    let sep = chars_of("/");
    join_exec(&parts, &sep)
}

/// The path for what is asked.
fn subject_path_exec(subject: &Subject) -> (r: Vec<char>)
    ensures
        r@ == subject_path(*subject),
{
    match subject {
        Subject::Term(term) => {
            let mut r = chars_of("/search/");
            let cs = chars_of(term.as_str());
            let t = trim_exec(&cs);
            let ts = string_of(&t);
            let enc = encode(ts.as_str());
            extend_str(&mut r, enc.as_str());
            r
        },
        Subject::Group(group) => {
            let mut r = chars_of("/browse/group_id/");
            let g = group_path_exec(group.as_str());
            extend(&mut r, &g);
            r
        },
    }
}

/// Two strings from characters.
fn pair(a: Vec<char>, b: Vec<char>) -> (r: (String, String))
    ensures
        r.0@ == a@,
        r.1@ == b@,
{
    (string_of(&a), string_of(&b))
}

impl Query {
    /// The first page, at the default size, unfiltered and unsorted.
    pub fn new() -> (q: Query)
        ensures
            q.page == 0,
            q.per_page is None,
            q.filters@.len() == 0,
            q.sort is None,
    {
        Query { page: 0, per_page: None, filters: Vec::new(), sort: None }
    }

    /// The same query at another page.
    pub fn page(self, page: u64) -> (q: Query)
        ensures
            q == (Query { page, ..self }),
    {
        Query { page, ..self }
    }

    /// The same query with another page size.
    pub fn per_page(self, per_page: Option<u64>) -> (q: Query)
        ensures
            q == (Query { per_page, ..self }),
    {
        Query { per_page, ..self }
    }

    /// The same query narrowed by one more facet value.
    pub fn filter(self, name: &str, value: &str) -> (q: Query)
        ensures
            q.page == self.page,
            q.per_page == self.per_page,
            q.sort == self.sort,
            view_pairs(q.filters@) == view_pairs(self.filters@).push((name@, value@)),
    {
        let mut q = self;
        let ghost before = q.filters@;
        q.filters.push((owned(name), owned(value)));
        assert(view_pairs(q.filters@) =~= view_pairs(before).push((name@, value@)));
        q
    }

    /// The same query in another order.
    pub fn sorted_by(self, sort: Option<String>) -> (q: Query)
        ensures
            q == (Query { sort, ..self }),
    {
        Query { sort, ..self }
    }

    /// The URL for a keyword search.
    pub fn search(&self, endpoints: &Endpoints, term: &str, client: &str, session: u64) -> (r:
        String)
        requires
            self.page < u64::MAX,
        ensures
            exists|t: String|
                t@ == term@ && r@ == query_url(*self, *endpoints, Subject::Term(t), client@, session),
    {
        let subject = Subject::Term(owned(term));
        self.url(endpoints, &subject, client, session)
    }

    /// The URL for a category or brand listing.
    pub fn browse(&self, endpoints: &Endpoints, group: &str, client: &str, session: u64) -> (r:
        String)
        requires
            self.page < u64::MAX,
        ensures
            exists|g: String|
                g@ == group@ && r@ == query_url(*self, *endpoints, Subject::Group(g), client@, session),
    {
        let subject = Subject::Group(owned(group));
        self.url(endpoints, &subject, client, session)
    }

    /// Every parameter, in the order sent.
    fn params(&self) -> (r: Vec<(String, String)>)
        requires
            self.page < u64::MAX,
        ensures
            view_pairs(r@) == params_of(*self),
    {
        let per = match self.per_page {
            Some(n) => n,
            None => PAGE_SIZE,
        };
        let mut r: Vec<(String, String)> = Vec::new();
        r.push(pair(chars_of("num_results_per_page"), decimal_exec(per)));
        r.push(pair(chars_of("page"), decimal_exec(self.page + 1)));
        let ghost head = view_pairs(r@);
        let mut i: usize = 0;
        while i < self.filters.len()
            invariant
                i <= self.filters.len(),
                view_pairs(r@) == head + filter_params(view_pairs(self.filters@)).take(i as int),
            decreases self.filters.len() - i,
        {
            let mut name = chars_of("filters[");
            extend_str(&mut name, self.filters[i].0.as_str());
            extend_str(&mut name, "]");
            let value = chars_of(self.filters[i].1.as_str());
            let p = pair(name, value);
            let ghost before = r@;
            r.push(p);
            proof {
                let fs = filter_params(view_pairs(self.filters@));
                assert(view_pairs(r@) =~= view_pairs(before).push((p.0@, p.1@)));
                assert(fs[i as int] == (p.0@, p.1@));
                assert(fs.take(i + 1) =~= fs.take(i as int).push(fs[i as int]));
            }
            i += 1;
        }
        assert(filter_params(view_pairs(self.filters@)).take(self.filters.len() as int)
            =~= filter_params(view_pairs(self.filters@)));
        let ghost mid = r@;
        match &self.sort {
            Some(name) => match sort(name.as_str()) {
                Some((by, order)) => {
                    r.push(pair(chars_of("sort_by"), chars_of(by)));
                    r.push(pair(chars_of("sort_order"), chars_of(order.as_str())));
                    assert(view_pairs(r@) =~= view_pairs(mid) + sort_params(self.sort));
                },
                None => {
                    assert(view_pairs(r@) =~= view_pairs(mid) + sort_params(self.sort));
                },
            },
            None => {
                assert(view_pairs(r@) =~= view_pairs(mid) + sort_params(self.sort));
            },
        }
        assert(view_pairs(r@) =~= params_of(*self));
        r
    }

    /// The URL for a query about a subject.
    fn url(&self, endpoints: &Endpoints, subject: &Subject, client: &str, session: u64) -> (r:
        String)
        requires
            self.page < u64::MAX,
        ensures
            r@ == query_url(*self, *endpoints, *subject, client@, session),
    {
        let path = subject_path_exec(subject);
        let ps = string_of(&path);
        let base = endpoints.constructor(ps.as_str(), client, session);
        let params = self.params();
        let qs = query_string(&params);
        let mut out = chars_of(base.as_str());
        extend_str(&mut out, "&");
        extend_str(&mut out, qs.as_str());
        string_of(&out)
    }
}

impl Default for Query {
    /// The first page, at the default size, unfiltered and unsorted.
    fn default() -> (q: Query)
        ensures
            q.page == 0,
            q.per_page is None,
            q.filters@.len() == 0,
            q.sort is None,
    {
        Query::new()
    }
}

/// The URL for what the site would suggest as someone types.
pub fn autocomplete(endpoints: &Endpoints, term: &str, client: &str, session: u64) -> (r: String)
    ensures
        r@ == constructor_url(
            endpoints.search@,
            endpoints.key@,
            "/autocomplete/"@ + encoded(trim(term@)),
            client@,
            session,
        ),
{
    let mut path = chars_of("/autocomplete/");
    let cs = chars_of(term);
    let t = trim_exec(&cs);
    let ts = string_of(&t);
    let enc = encode(ts.as_str());
    extend_str(&mut path, enc.as_str());
    let p = string_of(&path);
    endpoints.constructor(p.as_str(), client, session)
}

} // verus!
