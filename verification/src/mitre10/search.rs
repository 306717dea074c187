//! Finding things: Algolia, with the storefront's own index and replicas.
//!
//! A sort is a replica index; availability and category are filter clauses.

use vstd::prelude::*;
use vstd::utf8::encode_utf8;
use crate::json::Json;
use crate::mitre10::domain::{CategoryNode, level_of_code};
use crate::text::{
    chars_of, decimal, decimal_exec, eq_str, extend, extend_str, join, join_exec, lower, lower_char, opt_str,
    owned, percent_encode, percent_encode_str, starts_with, starts_with_exec, str_views, string_of, strs,
    to_lower, trim, trim_exec, views,
};

verus! {

/// What one page holds when nothing says otherwise.
pub const PAGE_SIZE: u64 = 24;

/// The base index, sorted by relevance.
pub const PRODUCT_INDEX: &'static str = "retail_products_relevance";

/// Which index a query reads: relevance, or a replica sorted some other way.
#[derive(Clone, Debug, PartialEq, Eq)]
pub enum Sort {
    Relevance,
    /// A replica by name: a bare suffix, or a full `retail_` index name.
    Index(String),
}

/// Dashes as underscores.
pub open spec fn underscored(s: Seq<char>) -> Seq<char> {
    s.map_values(|c: char| if c == '-' { '_' } else { c })
}

/// The sort a name picks: nothing, `relevance` or `default` is the base
/// index; anything else names a replica, its dashes as underscores.
pub open spec fn sort_named(name: Seq<char>) -> Option<Seq<char>> {
    let k = lower(trim(name));
    if k.len() == 0 || k == "relevance"@ || k == "default"@ {
        None
    } else {
        Some(underscored(k))
    }
}

/// A sort name is read without regard to case: a name and its lower-cased
/// form pick the same sort, whatever is picked is the trimmed name with no
/// upper-case letter and no dash in it, and a name that trims and lower-cases to nothing, `relevance` or
/// `default` picks the base index.
pub proof fn lemma_a_sort_name_ignores_case(name: Seq<char>)
    ensures
        sort_named(name) == sort_named(lower(name)),
        sort_named(name) matches Some(n) ==> lower(n) == n && !n.contains('-') && n.len() == trim(name).len(),
        (lower(trim(name)).len() == 0 || lower(trim(name)) == "relevance"@ || lower(trim(name))
            == "default"@) ==> sort_named(name) is None,
{
    crate::text::lemma_trim_lower(name);
    crate::text::lemma_lower_idempotent(trim(name));
    let k = lower(trim(name));
    assert forall|i: int| 0 <= i < k.len() implies lower_char(underscored(k)[i]) == underscored(k)[i] by {
        crate::text::lemma_lower_idempotent(trim(name));
        assert(lower(k)[i] == k[i]);
    }
    assert(lower(underscored(k)) =~= underscored(k));
    assert forall|i: int| 0 <= i < k.len() implies underscored(k)[i] != '-' by {}
}

/// The index a replica name reads: a full `retail_` name as it is, a bare
/// suffix on the products index.
pub open spec fn index_named(name: Seq<char>) -> Seq<char> {
    if starts_with(name, "retail_"@) {
        name
    } else {
        "retail_products_"@ + name
    }
}

impl Sort {
    /// A sort by name, case and surrounding space ignored.
    pub fn parse(name: &str) -> (s: Sort)
        ensures
            match sort_named(name@) {
                None => s == Sort::Relevance,
                Some(n) => s matches Sort::Index(x) && x@ == n,
            },
    {
        let cs = chars_of(name);
        let t = trim_exec(&cs);
        let k = to_lower(&t);
        if k.len() == 0 || crate::text::str_is("relevance", &k) || crate::text::str_is("default", &k) {
            return Sort::Relevance;
        }
        let mut out: Vec<char> = Vec::new();
        let mut i: usize = 0;
        while i < k.len()
            invariant
                i <= k.len(),
                out@ == underscored(k@.take(i as int)),
            decreases k.len() - i,
        {
            if k[i] == '-' {
                out.push('_');
            } else {
                out.push(k[i]);
            }
            assert(out@ =~= underscored(k@.take(i + 1)));
            i += 1;
        }
        assert(k@.take(k.len() as int) =~= k@);
        Sort::Index(string_of(&out))
    }

    /// The index name the sort reads.
    pub fn index(&self) -> (r: String)
        ensures
            r@ == match *self {
                Sort::Relevance => PRODUCT_INDEX@,
                Sort::Index(n) => index_named(n@),
            },
    {
        match self {
            Sort::Relevance => owned(PRODUCT_INDEX),
            Sort::Index(name) => {
                let cs = chars_of(name.as_str());
                let p = chars_of("retail_");
                if starts_with_exec(&cs, &p) {
                    name.clone()
                } else {
                    let mut v = chars_of("retail_products_");
                    extend_str(&mut v, name.as_str());
                    string_of(&v)
                }
            },
        }
    }
}

impl Default for Sort {
    /// Relevance.
    fn default() -> (s: Sort)
        ensures
            s == Sort::Relevance,
    {
        Sort::Relevance
    }
}

/// Where a product has to be had: collected from a store, delivered to a
/// postcode group, or both (either will do).
#[derive(Clone, Debug, PartialEq)]
pub struct Availability {
    pub collect_from: Option<String>,
    pub deliver_to: Option<String>,
}

/// The filter clause an availability makes: the ways it allows, OR-ed, in
/// brackets; nothing when it allows none.
pub open spec fn availability_clause(collect_from: Option<Seq<char>>, deliver_to: Option<Seq<char>>) -> Option<Seq<char>> {
    let any: Seq<Seq<char>> = (match collect_from {
        Some(s) => seq!["clickAndCollect:"@ + s],
        None => Seq::empty(),
    }) + (match deliver_to {
        Some(g) => seq!["homeDelivery:"@ + g, "expressDelivery:"@ + g],
        None => Seq::empty(),
    });
    if any.len() == 0 {
        None
    } else {
        Some("("@ + crate::text::join(any, " OR "@) + ")"@)
    }
}

impl Availability {
    /// Collect from one store.
    pub fn collect(store: &str) -> (a: Availability)
        ensures
            a.collect_from matches Some(s) && s@ == store@,
            a.deliver_to is None,
    {
        Availability { collect_from: Some(owned(store)), deliver_to: None }
    }

    /// Deliver to one postcode group.
    pub fn deliver(group: &str) -> (a: Availability)
        ensures
            a.deliver_to matches Some(g) && g@ == group@,
            a.collect_from is None,
    {
        Availability { collect_from: None, deliver_to: Some(owned(group)) }
    }

    /// The filter clause this availability makes.
    pub fn clause(&self) -> (r: Option<String>)
        ensures
            crate::text::opt_str(r) == availability_clause(
                crate::text::opt_str(self.collect_from),
                crate::text::opt_str(self.deliver_to),
            ),
    {
        let mut any: Vec<Vec<char>> = Vec::new();
        match &self.collect_from {
            Some(s) => {
                let mut v = chars_of("clickAndCollect:");
                extend_str(&mut v, s.as_str());
                any.push(v);
            },
            None => {},
        }
        match &self.deliver_to {
            Some(g) => {
                let mut h = chars_of("homeDelivery:");
                extend_str(&mut h, g.as_str());
                any.push(h);
                let mut x = chars_of("expressDelivery:");
                extend_str(&mut x, g.as_str());
                any.push(x);
            },
            None => {},
        }
        proof {
            let want: Seq<Seq<char>> = (match crate::text::opt_str(self.collect_from) {
                Some(s) => seq!["clickAndCollect:"@ + s],
                None => Seq::empty(),
            }) + (match crate::text::opt_str(self.deliver_to) {
                Some(g) => seq!["homeDelivery:"@ + g, "expressDelivery:"@ + g],
                None => Seq::empty(),
            });
            assert(crate::text::views(any@) =~= want);
        }
        if any.len() == 0 {
            return None;
        }
        let mut out = chars_of("(");
        let sep = chars_of(" OR ");
        let joined = crate::text::join_exec(&any, &sep);
        crate::text::extend(&mut out, &joined);
        extend_str(&mut out, ")");
        Some(string_of(&out))
    }
}

impl Default for Availability {
    /// Anywhere: no clause.
    fn default() -> (a: Availability)
        ensures
            a.collect_from is None,
            a.deliver_to is None,
    {
        Availability { collect_from: None, deliver_to: None }
    }
}

/// What the site would suggest as someone types.
#[derive(Clone, Debug)]
pub struct Suggest {
    term: String,
    limit: u64,
}

impl Suggest {
    /// The term typed so far.
    pub closed spec fn term_of(&self) -> Seq<char> {
        self.term@
    }

    /// How many suggestions are wanted.
    pub closed spec fn limit_of(&self) -> u64 {
        self.limit
    }

    pub fn new(term: &str, limit: u64) -> (s: Suggest)
        ensures
            s.term_of() == term@,
            s.limit_of() == limit,
    {
        Suggest { term: owned(term), limit }
    }

    /// The request for the query-suggestions index: the term form-encoded,
    /// and how many are wanted.
    pub fn body(&self) -> (r: Json)
        ensures
            request_body(
                r,
                PRODUCT_INDEX@ + "_query_suggestions"@,
                "query="@ + form_encoded(self.term_of()) + "&hitsPerPage="@ + decimal(
                    self.limit_of() as nat,
                ),
            ),
    {
        let mut index = chars_of(PRODUCT_INDEX);
        extend_str(&mut index, "_query_suggestions");
        let mut params = chars_of("query=");
        let t = form_encode(self.term.as_str());
        extend(&mut params, &t);
        extend_str(&mut params, "&hitsPerPage=");
        let d = decimal_exec(self.limit);
        extend(&mut params, &d);
        request(string_of(&index), string_of(&params))
    }
}


/// The text of a list of strings as a JSON array.
pub uninterp spec fn json_string_array(items: Seq<Seq<char>>) -> Seq<char>;

/// Writes a list of strings as a JSON array.
///
/// Calls `serde_json::to_string` on the `Vec<String>`, which cannot fail for
/// strings. The result is named [`json_string_array`] of the strings.
#[verifier::external_body]
fn to_json_strings(items: &Vec<String>) -> (r: String)
    ensures
        r@ == json_string_array(strs(items@)),
{
    serde_json::to_string(items).unwrap_or_default()
}

/// The facets worth asking for: the ones the site's own sidebar offers.
pub const FACETS: [&'static str; 8] = [
    "availableNationWide",
    "brandName",
    "colour",
    "essential",
    "prices.sortPrice",
    "size",
    "storesWithStock",
    "subFineline",
];

/// What a query asks, by its characters.
pub struct QueryView {
    pub term: Option<Seq<char>>,
    pub category: Option<Seq<char>>,
    /// The index the sort reads.
    pub index: Seq<char>,
    pub collect_from: Option<Seq<char>>,
    pub deliver_to: Option<Seq<char>>,
    pub in_stock_at: Option<Seq<char>>,
    pub brand: Option<Seq<char>>,
    pub colour: Option<Seq<char>>,
    pub size: Option<Seq<char>>,
    /// The bounds of the price range, as the amounts print.
    pub min_price: Option<Seq<char>>,
    pub max_price: Option<Seq<char>>,
    pub page: u64,
    pub page_size: Option<u64>,
}

/// The index a sort reads.
pub open spec fn sort_index(s: Sort) -> Seq<char> {
    match s {
        Sort::Relevance => PRODUCT_INDEX@,
        Sort::Index(n) => index_named(n@),
    }
}

/// What to ask the index.
#[derive(Clone, Debug)]
pub struct Query {
    term: Option<String>,
    category: Option<String>,
    sort: Sort,
    availability: Availability,
    /// A numeric store code: products the index believes that shop has.
    in_stock_at: Option<String>,
    brand: Option<String>,
    colour: Option<String>,
    size: Option<String>,
    /// The bounds of a price range, as the amounts print: `13`, `19.5`.
    min_price: Option<String>,
    max_price: Option<String>,
    page: u64,
    page_size: Option<u64>,
}

impl View for Query {
    type V = QueryView;

    closed spec fn view(&self) -> QueryView {
        QueryView {
            term: opt_str(self.term),
            category: opt_str(self.category),
            index: sort_index(self.sort),
            collect_from: opt_str(self.availability.collect_from),
            deliver_to: opt_str(self.availability.deliver_to),
            in_stock_at: opt_str(self.in_stock_at),
            brand: opt_str(self.brand),
            colour: opt_str(self.colour),
            size: opt_str(self.size),
            min_price: opt_str(self.min_price),
            max_price: opt_str(self.max_price),
            page: self.page,
            page_size: self.page_size,
        }
    }
}

/// A query asking for a term, or browsing, with nothing else set.
pub open spec fn plain_query(term: Seq<char>, category: Option<Seq<char>>) -> QueryView {
    QueryView {
        term: Some(term),
        category,
        index: PRODUCT_INDEX@,
        collect_from: None,
        deliver_to: None,
        in_stock_at: None,
        brand: None,
        colour: None,
        size: None,
        min_price: None,
        max_price: None,
        page: 0,
        page_size: None,
    }
}

/// How many products a page of a query holds.
pub open spec fn page_size_of(q: QueryView) -> u64 {
    match q.page_size {
        Some(n) => n,
        None => PAGE_SIZE,
    }
}

/// The category a query browses and the index level that holds it.
pub open spec fn category_level_of(q: QueryView) -> Option<(Seq<char>, u8)> {
    match q.category {
        Some(code) => match level_of_code(code) {
            Some(l) => Some((code, l)),
            None => None,
        },
        None => None,
    }
}

/// Algolia's `filters`: online products, gettable the way asked, in the
/// category's own level.
pub open spec fn filters_of(q: QueryView) -> Seq<char> {
    let avail: Seq<Seq<char>> = match availability_clause(q.collect_from, q.deliver_to) {
        Some(c) => seq![c],
        None => Seq::empty(),
    };
    let cat: Seq<Seq<char>> = match category_level_of(q) {
        Some((code, level)) => seq!["categoryID.lvl"@ + decimal(level as nat) + ":"@ + code],
        None => Seq::empty(),
    };
    join(seq!["online:true"@] + avail + cat, " AND "@)
}

/// One facet filter, where its value is set.
pub open spec fn facet_filter(name: Seq<char>, v: Option<Seq<char>>) -> Seq<Seq<char>> {
    match v {
        Some(x) => seq![name + ":"@ + x],
        None => Seq::empty(),
    }
}

/// Algolia's `facetFilters`, one group per attribute: separate groups are
/// ANDed, which is what the site does for a brand and a colour.
pub open spec fn facet_filters_of(q: QueryView) -> Seq<Seq<char>> {
    facet_filter("brandName"@, q.brand) + facet_filter("colour"@, q.colour) + facet_filter(
        "size"@,
        q.size,
    ) + facet_filter("storesWithStock"@, q.in_stock_at)
}

/// Algolia's `numericFilters`, on the sort price.
pub open spec fn numeric_filters_of(q: QueryView) -> Seq<Seq<char>> {
    (match q.min_price {
        Some(v) => seq!["prices.sortPrice>="@ + v],
        None => Seq::empty(),
    }) + (match q.max_price {
        Some(v) => seq!["prices.sortPrice<="@ + v],
        None => Seq::empty(),
    })
}

/// A list of facet filters as JSON: each its own one-element group.
pub open spec fn groups_text(fs: Seq<Seq<char>>) -> Seq<char> {
    "["@ + join(fs.map_values(|f: Seq<char>| json_string_array(seq![f])), ","@) + "]"@
}

/// A form value encoded as Algolia wants it: every byte but ASCII letters,
/// digits and `-_.~` as `%XX`.
pub open spec fn form_encoded(v: Seq<char>) -> Seq<char> {
    percent_encode(encode_utf8(v), false)
}

/// The parameters of one record query, in order: the fixed ones, then the
/// facet and numeric filters where there are any.
pub open spec fn params_list(q: QueryView) -> Seq<(Seq<char>, Seq<char>)> {
    seq![
        ("query"@, match q.term {
            Some(t) => t,
            None => Seq::empty(),
        }),
        ("hitsPerPage"@, decimal(page_size_of(q) as nat)),
        ("page"@, decimal(q.page as nat)),
        ("filters"@, filters_of(q)),
        ("facets"@, json_string_array(str_views(FACETS@))),
        ("maxValuesPerFacet"@, "100"@),
        ("ruleContexts"@, json_string_array(seq!["standard"@])),
    ] + (if facet_filters_of(q).len() > 0 {
        seq![("facetFilters"@, groups_text(facet_filters_of(q)))]
    } else {
        Seq::empty()
    }) + (if numeric_filters_of(q).len() > 0 {
        seq![("numericFilters"@, json_string_array(numeric_filters_of(q)))]
    } else {
        Seq::empty()
    })
}

/// The `params` string of one record query: each parameter form-encoded as
/// `key=value`, joined by `&`.
pub open spec fn params_of(q: QueryView) -> Seq<char> {
    join(
        params_list(q).map_values(
            |p: (Seq<char>, Seq<char>)| form_encoded(p.0) + "="@ + form_encoded(p.1),
        ),
        "&"@,
    )
}

/// A request body for Algolia's multi-query endpoint: one request, naming
/// its index and carrying its params.
pub open spec fn request_body(r: Json, index: Seq<char>, params: Seq<char>) -> bool {
    &&& r matches Json::Object(top)
    &&& top@.len() == 1
    &&& top@[0].0@ == "requests"@
    &&& top@[0].1 matches Json::Array(rs)
    &&& rs@.len() == 1
    &&& rs@[0] matches Json::Object(m)
    &&& m@.len() == 2
    &&& m@[0].0@ == "indexName"@
    &&& m@[0].1 matches Json::Str(i)
    &&& i@ == index
    &&& m@[1].0@ == "params"@
    &&& m@[1].1 matches Json::Str(p)
    &&& p@ == params
}

/// The body of a one-request multi-query.
fn request(index: String, params: String) -> (r: Json)
    ensures
        request_body(r, index@, params@),
{
    let mut m: Vec<(String, Json)> = Vec::new();
    m.push((owned("indexName"), Json::Str(index)));
    m.push((owned("params"), Json::Str(params)));
    let mut rs: Vec<Json> = Vec::new();
    rs.push(Json::Object(m));
    let mut top: Vec<(String, Json)> = Vec::new();
    top.push((owned("requests"), Json::Array(rs)));
    proof {
        reveal_strlit("requests");
        reveal_strlit("indexName");
        reveal_strlit("params");
    }
    Json::Object(top)
}

/// A form value, encoded.
fn form_encode(v: &str) -> (r: Vec<char>)
    ensures
        r@ == form_encoded(v@),
{
    percent_encode_str(v, false)
}

/// A copy of an optional string.
fn copy_opt(o: &Option<String>) -> (r: Option<String>)
    ensures
        opt_str(r) == opt_str(*o),
{
    match o {
        Some(s) => Some(s.clone()),
        None => None,
    }
}

impl Query {
    /// A keyword search.
    pub fn search(term: &str) -> (q: Query)
        ensures
            q@ == plain_query(term@, None),
    {
        let q = Query {
            term: Some(owned(term)),
            category: None,
            sort: Sort::Relevance,
            availability: Availability { collect_from: None, deliver_to: None },
            in_stock_at: None,
            brand: None,
            colour: None,
            size: None,
            min_price: None,
            max_price: None,
            page: 0,
            page_size: None,
        };
        assert(q@ == plain_query(term@, None));
        q
    }

    /// Everything in a category: an empty term, and the code, whose prefix
    /// decides which level is filtered.
    pub fn category(code: &str) -> (q: Query)
        ensures
            q@ == plain_query(Seq::empty(), Some(code@)),
    {
        let q = Query {
            term: Some(String::new()),
            category: Some(owned(code)),
            sort: Sort::Relevance,
            availability: Availability { collect_from: None, deliver_to: None },
            in_stock_at: None,
            brand: None,
            colour: None,
            size: None,
            min_price: None,
            max_price: None,
            page: 0,
            page_size: None,
        };
        assert(q@ == plain_query(Seq::empty(), Some(code@)));
        q
    }

    pub fn with_sort(self, sort: Sort) -> (q: Query)
        ensures
            q@ == (QueryView { index: sort_index(sort), ..self@ }),
    {
        Query { sort, ..self }
    }

    pub fn with_availability(self, availability: Availability) -> (q: Query)
        ensures
            q@ == (QueryView {
                collect_from: opt_str(availability.collect_from),
                deliver_to: opt_str(availability.deliver_to),
                ..self@
            }),
    {
        Query { availability, ..self }
    }

    pub fn in_stock_at(self, store: Option<String>) -> (q: Query)
        ensures
            q@ == (QueryView { in_stock_at: opt_str(store), ..self@ }),
    {
        Query { in_stock_at: store, ..self }
    }

    pub fn with_brand(self, brand: Option<String>) -> (q: Query)
        ensures
            q@ == (QueryView { brand: opt_str(brand), ..self@ }),
    {
        Query { brand, ..self }
    }

    pub fn with_colour(self, colour: Option<String>) -> (q: Query)
        ensures
            q@ == (QueryView { colour: opt_str(colour), ..self@ }),
    {
        Query { colour, ..self }
    }

    pub fn with_size(self, size: Option<String>) -> (q: Query)
        ensures
            q@ == (QueryView { size: opt_str(size), ..self@ }),
    {
        Query { size, ..self }
    }

    /// A price range, its bounds as the amounts print.
    pub fn with_price(self, min: Option<String>, max: Option<String>) -> (q: Query)
        ensures
            q@ == (QueryView { min_price: opt_str(min), max_price: opt_str(max), ..self@ }),
    {
        Query { min_price: min, max_price: max, ..self }
    }

    pub fn with_page(self, page: u64) -> (q: Query)
        ensures
            q@ == (QueryView { page, ..self@ }),
    {
        Query { page, ..self }
    }

    pub fn with_page_size(self, size: Option<u64>) -> (q: Query)
        ensures
            q@ == (QueryView { page_size: size, ..self@ }),
    {
        Query { page_size: size, ..self }
    }

    pub fn page(&self) -> (r: u64)
        ensures
            r == self@.page,
    {
        self.page
    }

    pub fn page_size(&self) -> (r: u64)
        ensures
            r == page_size_of(self@),
    {
        match self.page_size {
            Some(n) => n,
            None => PAGE_SIZE,
        }
    }

    /// The term, where there is one that is not empty.
    pub fn term(&self) -> (r: Option<&str>)
        ensures
            match r {
                Some(t) => self@.term == Some(t@) && t@.len() > 0,
                None => !(self@.term matches Some(t) && t.len() > 0),
            },
    {
        match &self.term {
            Some(t) => {
                let cs = chars_of(t.as_str());
                if cs.len() > 0 {
                    Some(t.as_str())
                } else {
                    None
                }
            },
            None => None,
        }
    }

    /// The index the query reads.
    pub fn index(&self) -> (r: String)
        ensures
            r@ == self@.index,
    {
        self.sort.index()
    }

    /// The category being browsed and the index level that holds it; a code
    /// with no level, a top menu entry, has none.
    pub fn category_level(&self) -> (r: Option<(&str, u8)>)
        ensures
            match r {
                Some((c, l)) => category_level_of(self@) == Some((c@, l)),
                None => category_level_of(self@) is None,
            },
    {
        let code = match &self.category {
            Some(c) => c.as_str(),
            None => return None,
        };
        match CategoryNode::level_of(code) {
            Some(level) => Some((code, level)),
            None => None,
        }
    }

    /// Algolia's `filters` string.
    fn filters(&self) -> (r: String)
        ensures
            r@ == filters_of(self@),
    {
        let mut clauses: Vec<Vec<char>> = Vec::new();
        clauses.push(chars_of("online:true"));
        match self.availability.clause() {
            Some(c) => clauses.push(chars_of(c.as_str())),
            None => {},
        }
        match self.category_level() {
            Some((code, level)) => {
                let mut v = chars_of("categoryID.lvl");
                let d = decimal_exec(level as u64);
                extend(&mut v, &d);
                extend_str(&mut v, ":");
                extend_str(&mut v, code);
                clauses.push(v);
            },
            None => {},
        }
        proof {
            reveal_strlit("online:true");
            let q = self@;
            let avail: Seq<Seq<char>> = match availability_clause(q.collect_from, q.deliver_to) {
                Some(c) => seq![c],
                None => Seq::empty(),
            };
            let cat: Seq<Seq<char>> = match category_level_of(q) {
                Some((code, level)) => seq!["categoryID.lvl"@ + decimal(level as nat) + ":"@ + code],
                None => Seq::empty(),
            };
            assert(views(clauses@) =~= seq!["online:true"@] + avail + cat);
        }
        let sep = chars_of(" AND ");
        let j = join_exec(&clauses, &sep);
        string_of(&j)
    }

    /// Algolia's `facetFilters`, one group per attribute that is set.
    fn facet_filters(&self) -> (r: Vec<String>)
        ensures
            strs(r@) == facet_filters_of(self@),
    {
        let mut out: Vec<String> = Vec::new();
        push_filter(&mut out, "brandName", &self.brand);
        push_filter(&mut out, "colour", &self.colour);
        push_filter(&mut out, "size", &self.size);
        push_filter(&mut out, "storesWithStock", &self.in_stock_at);
        assert(strs(out@) =~= facet_filters_of(self@));
        out
    }

    /// Algolia's `numericFilters` on the sort price.
    fn numeric_filters(&self) -> (r: Vec<String>)
        ensures
            strs(r@) == numeric_filters_of(self@),
    {
        let mut out: Vec<String> = Vec::new();
        match &self.min_price {
            Some(v) => {
                let mut t = chars_of("prices.sortPrice>=");
                extend_str(&mut t, v.as_str());
                out.push(string_of(&t));
            },
            None => {},
        }
        match &self.max_price {
            Some(v) => {
                let mut t = chars_of("prices.sortPrice<=");
                extend_str(&mut t, v.as_str());
                out.push(string_of(&t));
            },
            None => {},
        }
        assert(strs(out@) =~= numeric_filters_of(self@));
        out
    }

    /// The `params` string of one record query, form-encoded as Algolia
    /// wants.
    pub fn params(&self) -> (r: String)
        ensures
            r@ == params_of(self@),
    {
        let mut params: Vec<(String, String)> = Vec::new();
        let term = match &self.term {
            Some(t) => t.clone(),
            None => String::new(),
        };
        params.push((owned("query"), term));
        params.push((owned("hitsPerPage"), string_of(&decimal_exec(self.page_size()))));
        params.push((owned("page"), string_of(&decimal_exec(self.page))));
        params.push((owned("filters"), self.filters()));
        let mut facets: Vec<String> = Vec::new();
        let mut i: usize = 0;
        while i < 8
            invariant
                i <= 8,
                strs(facets@) == str_views(FACETS@).take(i as int),
            decreases 8 - i,
        {
            let f = owned(FACETS[i]);
            let ghost before = facets@;
            facets.push(f);
            proof {
                assert(str_views(FACETS@).len() == 8);
                assert(str_views(FACETS@)[i as int] == FACETS@[i as int]@);
                assert(strs(facets@) =~= strs(before).push(f@));
                assert(str_views(FACETS@).take(i + 1) =~= str_views(FACETS@).take(i as int).push(
                    FACETS@[i as int]@,
                ));
            }
            i += 1;
        }
        assert(str_views(FACETS@).take(8) =~= str_views(FACETS@));
        params.push((owned("facets"), to_json_strings(&facets)));
        params.push((owned("maxValuesPerFacet"), owned("100")));
        let mut standard: Vec<String> = Vec::new();
        standard.push(owned("standard"));
        assert(strs(standard@) =~= seq!["standard"@]);
        params.push((owned("ruleContexts"), to_json_strings(&standard)));
        let ghost fixed = params@;
        let ff = self.facet_filters();
        if ff.len() > 0 {
            params.push((owned("facetFilters"), groups(&ff)));
        }
        let ghost with_facets = params@;
        let nf = self.numeric_filters();
        if nf.len() > 0 {
            params.push((owned("numericFilters"), to_json_strings(&nf)));
        }
        proof {
            reveal_strlit("query");
            reveal_strlit("hitsPerPage");
            reveal_strlit("page");
            reveal_strlit("filters");
            reveal_strlit("facets");
            reveal_strlit("maxValuesPerFacet");
            reveal_strlit("100");
            reveal_strlit("ruleContexts");
            reveal_strlit("standard");
            reveal_strlit("facetFilters");
            reveal_strlit("numericFilters");
            assert(crate::ordered::view_pairs(params@) =~= params_list(self@));
        }
        let mut texts: Vec<Vec<char>> = Vec::new();
        let ghost ps = crate::ordered::view_pairs(params@);
        let mut k: usize = 0;
        while k < params.len()
            invariant
                k <= params.len(),
                ps == crate::ordered::view_pairs(params@),
                views(texts@) == ps.take(k as int).map_values(
                    |p: (Seq<char>, Seq<char>)| form_encoded(p.0) + "="@ + form_encoded(p.1),
                ),
            decreases params.len() - k,
        {
            let mut t = form_encode(params[k].0.as_str());
            extend_str(&mut t, "=");
            let v = form_encode(params[k].1.as_str());
            extend(&mut t, &v);
            let ghost before = texts@;
            texts.push(t);
            proof {
                assert(ps[k as int] == (params@[k as int].0@, params@[k as int].1@));
                assert(views(texts@) =~= views(before).push(t@));
                assert(ps.take(k + 1) =~= ps.take(k as int).push(ps[k as int]));
                assert(views(texts@) =~= ps.take(k + 1).map_values(
                    |p: (Seq<char>, Seq<char>)| form_encoded(p.0) + "="@ + form_encoded(p.1),
                ));
            }
            k += 1;
        }
        assert(ps.take(params.len() as int) =~= ps);
        let sep = chars_of("&");
        let j = join_exec(&texts, &sep);
        string_of(&j)
    }

    /// The request body: one record query in the list Algolia's multi-query
    /// endpoint expects.
    pub fn body(&self) -> (r: Json)
        ensures
            request_body(r, self@.index, params_of(self@)),
    {
        request(self.index(), self.params())
    }
}

/// One facet filter, where its value is set.
fn push_filter(out: &mut Vec<String>, name: &str, v: &Option<String>)
    ensures
        strs(final(out)@) == strs(old(out)@) + facet_filter(name@, opt_str(*v)),
{
    match v {
        Some(x) => {
            let mut t = chars_of(name);
            extend_str(&mut t, ":");
            extend_str(&mut t, x.as_str());
            let s = string_of(&t);
            let ghost before = out@;
            out.push(s);
            assert(strs(out@) =~= strs(before) + facet_filter(name@, opt_str(*v)));
        },
        None => {
            assert(strs(out@) =~= strs(out@) + facet_filter(name@, opt_str(*v)));
        },
    }
}

/// Facet filters as JSON, each its own one-element group.
fn groups(fs: &Vec<String>) -> (r: String)
    ensures
        r@ == groups_text(strs(fs@)),
{
    let ghost ss = strs(fs@);
    let mut parts: Vec<Vec<char>> = Vec::new();
    let mut i: usize = 0;
    while i < fs.len()
        invariant
            i <= fs.len(),
            ss == strs(fs@),
            views(parts@) == ss.take(i as int).map_values(|f: Seq<char>| json_string_array(seq![f])),
        decreases fs.len() - i,
    {
        let mut one: Vec<String> = Vec::new();
        one.push(fs[i].clone());
        assert(strs(one@) =~= seq![ss[i as int]]);
        let t = to_json_strings(&one);
        let ghost before = parts@;
        parts.push(chars_of(t.as_str()));
        proof {
            assert(views(parts@) =~= views(before).push(t@));
            assert(ss.take(i + 1) =~= ss.take(i as int).push(ss[i as int]));
            assert(views(parts@) =~= ss.take(i + 1).map_values(|f: Seq<char>| json_string_array(seq![f])));
        }
        i += 1;
    }
    assert(ss.take(fs.len() as int) =~= ss);
    let mut v = chars_of("[");
    let sep = chars_of(",");
    let j = join_exec(&parts, &sep);
    extend(&mut v, &j);
    extend_str(&mut v, "]");
    string_of(&v)
}

} // verus!
