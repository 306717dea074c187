//! The JSON the search backend sends, as records, and what they become.
//!
//! Decoding the text is the caller's; these are the records it decodes into
//! and the rules that turn them into [`crate::farmers::domain`] values. Almost
//! every field is optional: neither API is documented, and a dash is better
//! than a failed command.

use vstd::prelude::*;
use crate::farmers::domain::{
    Account, Amount, Category, CategoryRef, Facet, FacetOption, Hit, Image, Listing, Product,
    Suggestion, Variant, VariationValue,
};
use crate::json::{str_value, Json};
use crate::text::{
    chars_of, contains, contains_exec, eq_str, opt_str, owned, parse_i64, parse_i64_exec, split,
    split_exec, string_of, strs, views,
};

verus! {

/// The envelope every Intershop list arrives in.
#[derive(Debug)]
pub struct Elements<T> {
    pub elements: Vec<T>,
}

/// A product picture as Intershop describes it.
#[derive(Clone, Debug)]
pub struct WireImage {
    pub effective_url: Option<String>,
    /// `typeID` on the wire.
    pub type_id: Option<String>,
    pub image_actual_width: Option<u32>,
    pub image_actual_height: Option<u32>,
    pub primary_image: bool,
}

/// One step of a category path.
#[derive(Clone, Debug)]
pub struct PathEntry {
    pub id: Option<String>,
    pub name: Option<String>,
}

/// Where a product sits by default.
#[derive(Clone, Debug)]
pub struct DefaultCategory {
    pub category_path: Vec<PathEntry>,
}

/// A promotion's title.
#[derive(Clone, Debug)]
pub struct Promotion {
    pub title: Option<String>,
}

/// The last non-empty piece, if there is one.
pub open spec fn last_segment(parts: Seq<Seq<char>>) -> Option<Seq<char>>
    decreases parts.len(),
{
    if parts.len() == 0 {
        None
    } else if parts.last().len() > 0 {
        Some(parts.last())
    } else {
        last_segment(parts.drop_last())
    }
}

/// The id off the end of an Intershop cross-reference.
///
/// These are path fragments rather than URLs --
/// `Farmers-Shop-Site/-;loc=en_NZ/products/6867065002` -- so this takes the
/// last non-empty segment rather than parsing.
pub fn id_of(uri: &str) -> (r: Option<String>)
    ensures
        opt_str(r) == last_segment(split(uri@, '/')),
{
    let cs = chars_of(uri);
    let parts = split_exec(&cs, '/');
    let mut i = parts.len();
    assert(views(parts@).take(i as int) =~= views(parts@));
    while i > 0
        invariant
            i <= parts.len(),
            views(parts@) == split(uri@, '/'),
            last_segment(split(uri@, '/')) == last_segment(views(parts@).take(i as int)),
        decreases i,
    {
        proof {
            let t = views(parts@).take(i as int);
            assert(t.drop_last() =~= views(parts@).take(i - 1));
            assert(t.last() == parts@[i - 1]@);
        }
        if parts[i - 1].len() > 0 {
            return Some(string_of(&parts[i - 1]));
        }
        i -= 1;
    }
    None
}

/// The search answer's envelope.
#[derive(Debug)]
pub struct SearchEnvelope {
    pub response: SearchResponse,
}

/// One page of search or browse results as the index sends it.
#[derive(Debug)]
pub struct SearchResponse {
    pub results: Vec<WireHit>,
    pub total_num_results: i64,
    pub facets: Vec<WireFacet>,
    /// Present instead of results when a merchandising rule claims the term.
    pub redirect: Option<Redirect>,
}

#[derive(Clone, Debug)]
pub struct Redirect {
    pub data: Option<RedirectData>,
}

#[derive(Clone, Debug)]
pub struct RedirectData {
    pub url: Option<String>,
}

/// One search result.
#[derive(Clone, Debug)]
pub struct WireHit {
    /// The product title; `value` because the index is generic over what it
    /// holds.
    pub value: Option<String>,
    pub data: Option<HitData>,
}

#[derive(Clone, Debug)]
pub struct HitData {
    pub id: Option<String>,
    pub url: Option<String>,
    /// The master's own code first, then the buyable variants.
    pub sku: Vec<String>,
    pub image_url: Option<String>,
    pub manufacturername: Option<String>,
    pub stockstatus: Option<String>,
    pub group_ids: Vec<String>,
}

/// The strings of `v` other than `x`, in order.
pub open spec fn others(v: Seq<Seq<char>>, x: Seq<char>) -> Seq<Seq<char>>
    decreases v.len(),
{
    if v.len() == 0 {
        Seq::empty()
    } else if v.last() == x {
        others(v.drop_last(), x)
    } else {
        others(v.drop_last(), x).push(v.last())
    }
}

/// An optional string's characters, or nothing.
pub open spec fn or_empty(o: Option<String>) -> Seq<char> {
    match o {
        Some(s) => s@,
        None => Seq::empty(),
    }
}

/// An optional string kept only when it is not empty.
pub open spec fn non_empty(o: Option<String>) -> Option<Seq<char>> {
    match o {
        Some(s) => if s@.len() > 0 {
            Some(s@)
        } else {
            None
        },
        None => None,
    }
}

/// Whether a search result can become a hit: it has data with an id.
pub open spec fn has_id(w: WireHit) -> bool {
    w.data matches Some(d) && d.id is Some
}

/// Whether `h` is what search result `w` becomes.
pub open spec fn hit_of(w: WireHit, h: Hit) -> bool {
    let d = w.data.unwrap();
    &&& h.sku@ == d.id.unwrap()@
    &&& h.name@ == or_empty(w.value)
    &&& opt_str(h.brand) == non_empty(d.manufacturername)
    &&& opt_str(h.url) == opt_str(d.url)
    &&& opt_str(h.image) == opt_str(d.image_url)
    &&& opt_str(h.stock_status) == opt_str(d.stockstatus)
    &&& strs(h.variants@) == others(strs(d.sku@), d.id.unwrap()@)
    &&& strs(h.categories@) == strs(d.group_ids@)
}

/// A copy of an optional string.
fn copy_opt(o: &Option<String>) -> (r: Option<String>)
    ensures
        opt_str(r) == opt_str(*o),
{
    match o {
        Some(s) => Some(s.clone()),
        None => None,
    }
}

/// A copy of a list of strings.
fn copy_all(v: &Vec<String>) -> (r: Vec<String>)
    ensures
        strs(r@) == strs(v@),
{
    let mut r: Vec<String> = Vec::new();
    let mut i: usize = 0;
    while i < v.len()
        invariant
            i <= v.len(),
            strs(r@) == strs(v@).take(i as int),
        decreases v.len() - i,
    {
        let s = v[i].clone();
        let ghost before = r@;
        r.push(s);
        proof {
            assert(strs(r@) =~= strs(before).push(s@));
            assert(strs(v@).take(i + 1) =~= strs(v@).take(i as int).push(v@[i as int]@));
        }
        i += 1;
    }
    assert(strs(v@).take(v.len() as int) =~= strs(v@));
    r
}

/// The strings of `v` other than `x`.
fn without(v: &Vec<String>, x: &str) -> (r: Vec<String>)
    ensures
        strs(r@) == others(strs(v@), x@),
{
    let mut r: Vec<String> = Vec::new();
    let mut i: usize = 0;
    while i < v.len()
        invariant
            i <= v.len(),
            strs(r@) == others(strs(v@).take(i as int), x@),
        decreases v.len() - i,
    {
        proof {
            assert(strs(v@).take(i + 1).drop_last() =~= strs(v@).take(i as int));
            assert(strs(v@).take(i + 1).last() == v@[i as int]@);
        }
        if !crate::text::eq_str(v[i].as_str(), x) {
            let s = v[i].clone();
            let ghost before = r@;
            r.push(s);
            assert(strs(r@) =~= strs(before).push(s@));
        }
        i += 1;
    }
    assert(strs(v@).take(v.len() as int) =~= strs(v@));
    r
}

/// What a search result becomes, without consuming it.
fn hit_from(w: &WireHit) -> (r: Option<Hit>)
    ensures
        r is None <==> !has_id(*w),
        r matches Some(h) ==> hit_of(*w, h),
{
    let data = match &w.data {
        Some(d) => d,
        None => return None,
    };
    let sku = match &data.id {
        Some(id) => id.clone(),
        None => return None,
    };
    let name = match &w.value {
        Some(v) => v.clone(),
        None => String::new(),
    };
    let brand = match &data.manufacturername {
        Some(b) => if chars_of(b.as_str()).len() > 0 {
            Some(b.clone())
        } else {
            None
        },
        None => None,
    };
    let variants = without(&data.sku, sku.as_str());
    let url = copy_opt(&data.url);
    let image = copy_opt(&data.image_url);
    let stock_status = copy_opt(&data.stockstatus);
    let categories = copy_all(&data.group_ids);
    assert(name@ == or_empty(w.value));
    assert(opt_str(brand) == non_empty(data.manufacturername));
    assert(sku@ == data.id.unwrap()@);
    Some(
        Hit {
            sku,
            name,
            brand,
            url,
            image,
            stock_status,
            variants,
            categories,
        },
    )
}

impl WireHit {
    /// The hit, or nothing for a result with no id. The master's own code
    /// leads its `sku` list; what is left is the buyable variants.
    pub fn into_hit(self) -> (r: Option<Hit>)
        ensures
            r is None <==> !has_id(self),
            r matches Some(h) ==> hit_of(self, h),
    {
        hit_from(&self)
    }
}

/// One facet as the index sends it.
#[derive(Clone, Debug)]
pub struct WireFacet {
    pub name: Option<String>,
    pub display_name: Option<String>,
    pub options: Vec<WireFacetOption>,
    pub hidden: bool,
}

#[derive(Clone, Debug)]
pub struct WireFacetOption {
    pub value: Option<String>,
    pub display_name: Option<String>,
    pub count: i64,
}

/// The options that carry a value, in order.
pub open spec fn valued(os: Seq<WireFacetOption>) -> Seq<WireFacetOption>
    decreases os.len(),
{
    if os.len() == 0 {
        Seq::empty()
    } else if os.last().value is Some {
        valued(os.drop_last()).push(os.last())
    } else {
        valued(os.drop_last())
    }
}

/// Whether `o` is what wire option `w` becomes: its display name falls back
/// to its value.
pub open spec fn option_of(w: WireFacetOption, o: FacetOption) -> bool {
    &&& o.value@ == w.value.unwrap()@
    &&& o.display_name@ == match w.display_name {
        Some(d) => d@,
        None => w.value.unwrap()@,
    }
    &&& o.count == w.count
}

/// Whether `f` is what wire facet `w` becomes: named, its display name
/// falling back to its name, its valueless options dropped.
pub open spec fn facet_of(w: WireFacet, f: Facet) -> bool {
    &&& f.name@ == w.name.unwrap()@
    &&& f.display_name@ == match w.display_name {
        Some(d) => d@,
        None => w.name.unwrap()@,
    }
    &&& f.options@.len() == valued(w.options@).len()
    &&& forall|i: int| 0 <= i < f.options@.len() ==> option_of(valued(w.options@)[i], #[trigger] f.options@[i])
}

/// An optional string's copy, or a fallback's.
fn copy_or(o: &Option<String>, fallback: &String) -> (r: String)
    ensures
        r@ == match *o {
            Some(s) => s@,
            None => fallback@,
        },
{
    match o {
        Some(s) => s.clone(),
        None => fallback.clone(),
    }
}

/// What a facet becomes; nothing for one with no name.
fn facet_from(w: &WireFacet) -> (r: Option<Facet>)
    ensures
        r is None <==> w.name is None,
        r matches Some(f) ==> facet_of(*w, f),
{
    let name = match &w.name {
        Some(n) => n.clone(),
        None => return None,
    };
    let mut options: Vec<FacetOption> = Vec::new();
    let mut i: usize = 0;
    while i < w.options.len()
        invariant
            i <= w.options.len(),
            options@.len() == valued(w.options@.take(i as int)).len(),
            forall|j: int|
                0 <= j < options@.len() ==> option_of(
                    valued(w.options@.take(i as int))[j],
                    #[trigger] options@[j],
                ),
        decreases w.options.len() - i,
    {
        proof {
            assert(w.options@.take(i + 1).drop_last() =~= w.options@.take(i as int));
            assert(w.options@.take(i + 1).last() == w.options@[i as int]);
        }
        let o = &w.options[i];
        match &o.value {
            Some(v) => {
                let value = v.clone();
                let display_name = copy_or(&o.display_name, v);
                options.push(FacetOption { value, display_name, count: o.count });
            },
            None => {},
        }
        i += 1;
    }
    assert(w.options@.take(w.options.len() as int) =~= w.options@);
    let display_name = copy_or(&w.display_name, &name);
    Some(Facet { name, display_name, options })
}

/// The results that become hits, in order.
pub open spec fn with_ids(ws: Seq<WireHit>) -> Seq<WireHit>
    decreases ws.len(),
{
    if ws.len() == 0 {
        Seq::empty()
    } else if has_id(ws.last()) {
        with_ids(ws.drop_last()).push(ws.last())
    } else {
        with_ids(ws.drop_last())
    }
}

/// The facets that are offered: shown, and named.
pub open spec fn offered(fs: Seq<WireFacet>) -> Seq<WireFacet>
    decreases fs.len(),
{
    if fs.len() == 0 {
        Seq::empty()
    } else if !fs.last().hidden && fs.last().name is Some {
        offered(fs.drop_last()).push(fs.last())
    } else {
        offered(fs.drop_last())
    }
}

/// Where a redirect points, if it points anywhere.
pub open spec fn redirect_url(r: Option<Redirect>) -> Option<Seq<char>> {
    match r {
        Some(r) => match r.data {
            Some(d) => opt_str(d.url),
            None => None,
        },
        None => None,
    }
}

impl SearchResponse {
    /// The page of results: hits for the results with an id, the facets
    /// that are not hidden, and the redirect if a merchandising rule claimed
    /// the term.
    pub fn into_listing(self, page: u64) -> (l: Listing)
        ensures
            l.page == page,
            l.total == self.total_num_results,
            l.hits@.len() == with_ids(self.results@).len(),
            forall|i: int| 0 <= i < l.hits@.len() ==> hit_of(with_ids(self.results@)[i], #[trigger] l.hits@[i]),
            l.facets@.len() == offered(self.facets@).len(),
            forall|i: int| 0 <= i < l.facets@.len() ==> facet_of(offered(self.facets@)[i], #[trigger] l.facets@[i]),
            opt_str(l.redirect) == redirect_url(self.redirect),
    {
        let mut hits: Vec<Hit> = Vec::new();
        let mut i: usize = 0;
        while i < self.results.len()
            invariant
                i <= self.results.len(),
                hits@.len() == with_ids(self.results@.take(i as int)).len(),
                forall|j: int|
                    0 <= j < hits@.len() ==> hit_of(
                        with_ids(self.results@.take(i as int))[j],
                        #[trigger] hits@[j],
                    ),
            decreases self.results.len() - i,
        {
            proof {
                assert(self.results@.take(i + 1).drop_last() =~= self.results@.take(i as int));
                assert(self.results@.take(i + 1).last() == self.results@[i as int]);
            }
            match hit_from(&self.results[i]) {
                Some(h) => hits.push(h),
                None => {},
            }
            i += 1;
        }
        assert(self.results@.take(self.results.len() as int) =~= self.results@);
        let mut facets: Vec<Facet> = Vec::new();
        let mut k: usize = 0;
        while k < self.facets.len()
            invariant
                k <= self.facets.len(),
                facets@.len() == offered(self.facets@.take(k as int)).len(),
                forall|j: int|
                    0 <= j < facets@.len() ==> facet_of(
                        offered(self.facets@.take(k as int))[j],
                        #[trigger] facets@[j],
                    ),
            decreases self.facets.len() - k,
        {
            proof {
                assert(self.facets@.take(k + 1).drop_last() =~= self.facets@.take(k as int));
                assert(self.facets@.take(k + 1).last() == self.facets@[k as int]);
            }
            if !self.facets[k].hidden {
                match facet_from(&self.facets[k]) {
                    Some(f) => facets.push(f),
                    None => {},
                }
            }
            k += 1;
        }
        assert(self.facets@.take(self.facets.len() as int) =~= self.facets@);
        let redirect = match &self.redirect {
            Some(r) => match &r.data {
                Some(d) => copy_opt(&d.url),
                None => None,
            },
            None => None,
        };
        Listing { hits, total: self.total_num_results, page, facets, redirect }
    }
}

/// The autocomplete answer: suggestions by section, in the order of the
/// sections' names.
#[derive(Debug)]
pub struct AutocompleteEnvelope {
    pub sections: Vec<(String, Vec<WireSuggestion>)>,
}

#[derive(Clone, Debug)]
pub struct WireSuggestion {
    pub value: Option<String>,
}

/// The suggestions of one section that carry a value, with the section.
pub open spec fn section_suggestions(section: Seq<char>, items: Seq<WireSuggestion>) -> Seq<
    (Seq<char>, Seq<char>),
>
    decreases items.len(),
{
    if items.len() == 0 {
        Seq::empty()
    } else {
        let rest = section_suggestions(section, items.drop_last());
        match items.last().value {
            Some(v) => rest.push((v@, section)),
            None => rest,
        }
    }
}

/// Every section's suggestions, section by section.
pub open spec fn all_suggestions(sections: Seq<(String, Vec<WireSuggestion>)>) -> Seq<
    (Seq<char>, Seq<char>),
>
    decreases sections.len(),
{
    if sections.len() == 0 {
        Seq::empty()
    } else {
        all_suggestions(sections.drop_last()) + section_suggestions(
            sections.last().0@,
            sections.last().1@,
        )
    }
}

/// Suggestions by value and section.
pub open spec fn suggestion_views(v: Seq<Suggestion>) -> Seq<(Seq<char>, Seq<char>)> {
    v.map_values(|s: Suggestion| (s.value@, s.section@))
}

impl AutocompleteEnvelope {
    /// Every suggestion with a value, keeping the section it came from.
    pub fn into_suggestions(self) -> (r: Vec<Suggestion>)
        ensures
            suggestion_views(r@) == all_suggestions(self.sections@),
    {
        let mut r: Vec<Suggestion> = Vec::new();
        let mut i: usize = 0;
        while i < self.sections.len()
            invariant
                i <= self.sections.len(),
                suggestion_views(r@) == all_suggestions(self.sections@.take(i as int)),
            decreases self.sections.len() - i,
        {
            proof {
                assert(self.sections@.take(i + 1).drop_last() =~= self.sections@.take(i as int));
                assert(self.sections@.take(i + 1).last() == self.sections@[i as int]);
            }
            let section = &self.sections[i].0;
            let items = &self.sections[i].1;
            let ghost start = suggestion_views(r@);
            let mut k: usize = 0;
            while k < items.len()
                invariant
                    k <= items.len(),
                    suggestion_views(r@) == start + section_suggestions(section@, items@.take(k as int)),
                decreases items.len() - k,
            {
                proof {
                    assert(items@.take(k + 1).drop_last() =~= items@.take(k as int));
                    assert(items@.take(k + 1).last() == items@[k as int]);
                }
                match &items[k].value {
                    Some(v) => {
                        let s = Suggestion { value: v.clone(), section: section.clone() };
                        let ghost before = r@;
                        r.push(s);
                        assert(suggestion_views(r@) =~= suggestion_views(before).push((s.value@, s.section@)));
                    },
                    None => {},
                }
                k += 1;
            }
            assert(items@.take(items.len() as int) =~= items@);
            i += 1;
        }
        assert(self.sections@.take(self.sections.len() as int) =~= self.sections@);
        r
    }
}

/// An account that says only whether someone is signed in.
pub fn account(signed_in: bool) -> (a: Account)
    ensures
        a.signed_in == signed_in,
        a.email is None,
        a.first_name is None,
        a.last_name is None,
{
    Account { signed_in, email: None, first_name: None, last_name: None }
}


/// A loosely typed name and value pair: the same array holds booleans,
/// strings and numbers.
#[derive(Debug)]
pub struct Attribute {
    pub name: String,
    pub value: Json,
}

/// The value of the first attribute with a name.
pub open spec fn attribute_of(attributes: Seq<Attribute>, name: Seq<char>) -> Option<Json>
    decreases attributes.len(),
{
    if attributes.len() == 0 {
        None
    } else if attributes[0].name@ == name {
        Some(attributes[0].value)
    } else {
        attribute_of(attributes.drop_first(), name)
    }
}

/// The value of the first attribute with a name.
fn attribute<'a>(attributes: &'a Vec<Attribute>, name: &str) -> (r: Option<&'a Json>)
    ensures
        match r {
            Some(v) => attribute_of(attributes@, name@) == Some(*v),
            None => attribute_of(attributes@, name@) is None,
        },
{
    let mut i: usize = 0;
    assert(attributes@.skip(0) =~= attributes@);
    while i < attributes.len()
        invariant
            i <= attributes.len(),
            attribute_of(attributes@, name@) == attribute_of(attributes@.skip(i as int), name@),
        decreases attributes.len() - i,
    {
        assert(attributes@.skip(i as int)[0] == attributes@[i as int]);
        assert(attributes@.skip(i as int).drop_first() =~= attributes@.skip(i + 1));
        if eq_str(attributes[i].name.as_str(), name) {
            return Some(&attributes[i].value);
        }
        i += 1;
    }
    None
}

/// One category as Intershop describes it, with the ones below it.
#[derive(Debug)]
pub struct WireCategory {
    pub id: Option<String>,
    pub name: Option<String>,
    pub description: Option<String>,
    pub attributes: Vec<Attribute>,
    pub has_online_products: bool,
    pub online_products_count_in_sub_categories: Option<i64>,
    pub sub_categories: Vec<WireCategory>,
}

/// The internal note the catalogue keeps on its top-level categories.
pub const INTERNAL_NOTE: &'static str = "DO NOT DELETE";

/// A description a shopper would read: not blank, and not the catalogue's
/// internal note.
pub open spec fn described(d: Option<String>) -> Option<Seq<char>> {
    match d {
        Some(x) => if x@.len() > 0 && !contains(x@, INTERNAL_NOTE@) {
            Some(x@)
        } else {
            None
        },
        None => None,
    }
}

/// The category a record reads as, and the ones below it in the same order.
pub open spec fn category_from(w: WireCategory, c: Category) -> bool
    decreases w,
{
    &&& c.id@ == or_empty(w.id)
    &&& c.name@ == or_empty(w.name)
    &&& opt_str(c.description) == described(w.description)
    &&& opt_str(c.path) == str_value(attribute_of(w.attributes@, "URLRewrite"@))
    &&& c.product_count == w.online_products_count_in_sub_categories
    &&& c.has_products == w.has_online_products
    &&& c.children@.len() == w.sub_categories@.len()
    &&& forall|i: int|
        0 <= i < w.sub_categories@.len() ==> category_from(
            #[trigger] w.sub_categories@[i],
            c.children@[i],
        )
}

/// The category a record reads as.
fn category_of(w: &WireCategory) -> (c: Category)
    ensures
        category_from(*w, c),
    decreases w,
{
    let description = match &w.description {
        Some(d) => {
            let cs = chars_of(d.as_str());
            let note = chars_of(INTERNAL_NOTE);
            if cs.len() > 0 && !contains_exec(&cs, &note) {
                Some(d.clone())
            } else {
                None
            }
        },
        None => None,
    };
    let path = match attribute(&w.attributes, "URLRewrite") {
        Some(Json::Str(p)) => Some(p.clone()),
        _ => None,
    };
    let mut children: Vec<Category> = Vec::new();
    let mut i: usize = 0;
    while i < w.sub_categories.len()
        invariant
            i <= w.sub_categories.len(),
            children@.len() == i,
            forall|j: int|
                0 <= j < i ==> category_from(#[trigger] w.sub_categories@[j], children@[j]),
        decreases w.sub_categories.len() - i,
    {
        assert(decreases_to!(*w => w.sub_categories));
        assert(decreases_to!(w.sub_categories => w.sub_categories@));
        let c = category_of(&w.sub_categories[i]);
        children.push(c);
        i += 1;
    }
    Category {
        id: match &w.id {
            Some(x) => x.clone(),
            None => String::new(),
        },
        name: match &w.name {
            Some(x) => x.clone(),
            None => String::new(),
        },
        description,
        path,
        product_count: w.online_products_count_in_sub_categories,
        has_products: w.has_online_products,
        children,
    }
}

impl WireCategory {
    /// The category this record describes. The top-level categories carry
    /// the catalogue's internal note as a description, which is dropped.
    pub fn into_category(self) -> (c: Category)
        ensures
            category_from(self, c),
    {
        category_of(&self)
    }
}

} // verus!

verus! {

/// An amount as Intershop sends it: a number, and the currency it is in.
#[derive(Clone, Debug)]
pub struct Price {
    /// The number as it was printed.
    pub value: Option<String>,
    pub currency: Option<String>,
}

/// The currency an amount is in when the record does not say.
pub const HOME_CURRENCY: &'static str = "NZD";

/// An amount's number and currency, where the record has a number.
pub open spec fn amount_of(p: Option<Price>) -> Option<(Seq<char>, Seq<char>)> {
    match p {
        Some(pr) => match pr.value {
            Some(v) => Some(
                (
                    v@,
                    match pr.currency {
                        Some(c) => c@,
                        None => HOME_CURRENCY@,
                    },
                ),
            ),
            None => None,
        },
        None => None,
    }
}

/// An amount by its number and currency.
pub open spec fn amount_view(a: Option<Amount>) -> Option<(Seq<char>, Seq<char>)> {
    match a {
        Some(m) => Some((m.value@, m.currency@)),
        None => None,
    }
}

/// The amount a price record names; none where it has no number.
fn money(p: &Option<Price>) -> (r: Option<Amount>)
    ensures
        amount_view(r) == amount_of(*p),
{
    match p {
        Some(pr) => match &pr.value {
            Some(v) => {
                let currency = match &pr.currency {
                    Some(c) => c.clone(),
                    None => owned(HOME_CURRENCY),
                };
                Some(Amount { value: v.clone(), currency })
            },
            None => None,
        },
        None => None,
    }
}

/// A loosely typed value as sent: null, a string, or anything else as the
/// JSON text it prints as.
#[derive(Clone, Debug)]
pub enum Sent {
    Null,
    Text(String),
    Printed(String),
}

/// A variation axis and its value, as loosely typed as the rest of the API:
/// a size arrives as a string, and a numeric one as a number.
#[derive(Clone, Debug)]
pub struct VariationAttribute {
    pub name: Option<String>,
    pub value: Option<Sent>,
}

/// The axis and value an attribute names; none where either is missing or
/// the value is null.
pub open spec fn variation_value(a: VariationAttribute) -> Option<(Seq<char>, Seq<char>)> {
    match a.name {
        Some(n) => match a.value {
            Some(Sent::Text(s)) => Some((n@, s@)),
            Some(Sent::Printed(s)) => Some((n@, s@)),
            _ => None,
        },
        None => None,
    }
}

/// The value an attribute names.
fn value_of(a: &VariationAttribute) -> (r: Option<VariationValue>)
    ensures
        match r {
            Some(v) => variation_value(*a) == Some((v.axis@, v.value@)),
            None => variation_value(*a) is None,
        },
{
    let value = match &a.value {
        Some(Sent::Text(s)) => s.clone(),
        Some(Sent::Printed(s)) => s.clone(),
        _ => return None,
    };
    match &a.name {
        Some(n) => Some(VariationValue { axis: n.clone(), value }),
        None => None,
    }
}

/// The attributes that name a value, in order.
pub open spec fn valued_attributes(s: Seq<VariationAttribute>) -> Seq<VariationAttribute>
    decreases s.len(),
{
    if s.len() == 0 {
        Seq::empty()
    } else if variation_value(s.last()) is Some {
        valued_attributes(s.drop_last()).push(s.last())
    } else {
        valued_attributes(s.drop_last())
    }
}

/// The values a list of attributes names, in order.
pub open spec fn values_named(vs: Seq<VariationValue>, s: Seq<VariationAttribute>) -> bool {
    &&& vs.len() == valued_attributes(s).len()
    &&& forall|i: int|
        0 <= i < vs.len() ==> variation_value(valued_attributes(s)[i]) == Some(
            (#[trigger] vs[i].axis@, vs[i].value@),
        )
}

/// The values a list of attributes names, skipping the ones that name none.
fn values_of(s: &Vec<VariationAttribute>) -> (r: Vec<VariationValue>)
    ensures
        values_named(r@, s@),
{
    let mut r: Vec<VariationValue> = Vec::new();
    let mut i: usize = 0;
    while i < s.len()
        invariant
            i <= s.len(),
            values_named(r@, s@.take(i as int)),
        decreases s.len() - i,
    {
        proof {
            assert(s@.take(i + 1).drop_last() =~= s@.take(i as int));
            assert(s@.take(i + 1).last() == s@[i as int]);
        }
        match value_of(&s[i]) {
            Some(v) => r.push(v),
            None => {},
        }
        i += 1;
    }
    assert(s@.take(s.len() as int) =~= s@);
    r
}

/// A count that arrives as a number from one endpoint and as a string from
/// another: read as `str::parse::<i64>` reads the text either way.
pub open spec fn loose_i64_of(v: Option<Json>) -> Option<i64> {
    match v {
        Some(Json::Number { text, .. }) => parse_i64(text@),
        Some(Json::Str(s)) => parse_i64(s@),
        _ => None,
    }
}

/// A count read loosely.
fn loose_i64(v: &Option<Json>) -> (r: Option<i64>)
    ensures
        r == loose_i64_of(*v),
{
    match v {
        Some(Json::Number { text, .. }) => {
            let cs = chars_of(text.as_str());
            parse_i64_exec(&cs)
        },
        Some(Json::Str(s)) => {
            let cs = chars_of(s.as_str());
            parse_i64_exec(&cs)
        },
        _ => None,
    }
}

/// The pictures that have an address, in order.
pub open spec fn addressed(ws: Seq<WireImage>) -> Seq<WireImage>
    decreases ws.len(),
{
    if ws.len() == 0 {
        Seq::empty()
    } else if ws.last().effective_url is Some {
        addressed(ws.drop_last()).push(ws.last())
    } else {
        addressed(ws.drop_last())
    }
}

/// Whether `i` is the picture record `w` describes.
pub open spec fn image_of(w: WireImage, i: Image) -> bool {
    &&& i.url@ == w.effective_url.unwrap()@
    &&& opt_str(i.size) == opt_str(w.type_id)
    &&& i.width == w.image_actual_width
    &&& i.height == w.image_actual_height
    &&& i.primary == w.primary_image
}

/// The pictures, skipping the ones with no address.
fn images_of(ws: &Vec<WireImage>) -> (r: Vec<Image>)
    ensures
        r@.len() == addressed(ws@).len(),
        forall|i: int| 0 <= i < r@.len() ==> image_of(addressed(ws@)[i], #[trigger] r@[i]),
{
    let mut r: Vec<Image> = Vec::new();
    let mut i: usize = 0;
    while i < ws.len()
        invariant
            i <= ws.len(),
            r@.len() == addressed(ws@.take(i as int)).len(),
            forall|j: int|
                0 <= j < r@.len() ==> image_of(addressed(ws@.take(i as int))[j], #[trigger] r@[j]),
        decreases ws.len() - i,
    {
        proof {
            assert(ws@.take(i + 1).drop_last() =~= ws@.take(i as int));
            assert(ws@.take(i + 1).last() == ws@[i as int]);
        }
        let w = &ws[i];
        match &w.effective_url {
            Some(url) => {
                r.push(
                    Image {
                        url: url.clone(),
                        size: copy_opt(&w.type_id),
                        width: w.image_actual_width,
                        height: w.image_actual_height,
                        primary: w.primary_image,
                    },
                );
            },
            None => {},
        }
        i += 1;
    }
    assert(ws@.take(ws.len() as int) =~= ws@);
    r
}

/// The path steps that have an id, in order.
pub open spec fn identified(ps: Seq<PathEntry>) -> Seq<PathEntry>
    decreases ps.len(),
{
    if ps.len() == 0 {
        Seq::empty()
    } else if ps.last().id is Some {
        identified(ps.drop_last()).push(ps.last())
    } else {
        identified(ps.drop_last())
    }
}

/// Whether `c` is the category a path step names.
pub open spec fn step_of(p: PathEntry, c: CategoryRef) -> bool {
    c.id@ == p.id.unwrap()@ && c.name@ == or_empty(p.name)
}

/// The path steps a product's default category lists; none where it has no
/// default category.
pub open spec fn path_of(d: Option<DefaultCategory>) -> Seq<PathEntry> {
    match d {
        Some(c) => c.category_path@,
        None => Seq::empty(),
    }
}

/// The category path, skipping the steps with no id.
fn path_steps(ps: &Vec<PathEntry>) -> (r: Vec<CategoryRef>)
    ensures
        r@.len() == identified(ps@).len(),
        forall|i: int| 0 <= i < r@.len() ==> step_of(identified(ps@)[i], #[trigger] r@[i]),
{
    let mut r: Vec<CategoryRef> = Vec::new();
    let mut i: usize = 0;
    while i < ps.len()
        invariant
            i <= ps.len(),
            r@.len() == identified(ps@.take(i as int)).len(),
            forall|j: int|
                0 <= j < r@.len() ==> step_of(identified(ps@.take(i as int))[j], #[trigger] r@[j]),
        decreases ps.len() - i,
    {
        proof {
            assert(ps@.take(i + 1).drop_last() =~= ps@.take(i as int));
            assert(ps@.take(i + 1).last() == ps@[i as int]);
        }
        match &ps[i].id {
            Some(id) => {
                let name = match &ps[i].name {
                    Some(n) => n.clone(),
                    None => String::new(),
                };
                r.push(CategoryRef { id: id.clone(), name });
            },
            None => {},
        }
        i += 1;
    }
    assert(ps@.take(ps.len() as int) =~= ps@);
    r
}

/// The promotions' titles, skipping the untitled ones.
pub open spec fn titles(ps: Seq<Promotion>) -> Seq<Seq<char>>
    decreases ps.len(),
{
    if ps.len() == 0 {
        Seq::empty()
    } else {
        match ps.last().title {
            Some(t) => titles(ps.drop_last()).push(t@),
            None => titles(ps.drop_last()),
        }
    }
}

/// The promotions' titles.
fn titles_of(ps: &Vec<Promotion>) -> (r: Vec<String>)
    ensures
        strs(r@) == titles(ps@),
{
    let mut r: Vec<String> = Vec::new();
    let mut i: usize = 0;
    while i < ps.len()
        invariant
            i <= ps.len(),
            strs(r@) == titles(ps@.take(i as int)),
        decreases ps.len() - i,
    {
        proof {
            assert(ps@.take(i + 1).drop_last() =~= ps@.take(i as int));
            assert(ps@.take(i + 1).last() == ps@[i as int]);
        }
        match &ps[i].title {
            Some(t) => {
                let s = t.clone();
                let ghost before = r@;
                r.push(s);
                assert(strs(r@) =~= strs(before).push(s@));
            },
            None => {},
        }
        i += 1;
    }
    assert(ps@.take(ps.len() as int) =~= ps@);
    r
}

/// A product record as Intershop sends it.
#[derive(Debug)]
pub struct WireProduct {
    pub sku: Option<String>,
    pub product_name: Option<String>,
    pub name: Option<String>,
    pub short_description: Option<String>,
    pub long_description: Option<String>,
    pub manufacturer: Option<String>,
    pub list_price: Option<Price>,
    pub sale_price: Option<Price>,
    pub min_sale_price: Option<Price>,
    pub max_sale_price: Option<Price>,
    pub in_stock: Option<bool>,
    /// A number on a product record and a string on a variation record.
    pub available_stock: Option<Json>,
    pub product_master: Option<bool>,
    /// `productMasterSKU` on the wire.
    pub product_master_sku: Option<String>,
    pub images: Vec<WireImage>,
    pub default_category: Option<DefaultCategory>,
    pub variable_variation_attributes: Vec<VariationAttribute>,
    pub variation_attribute_values: Vec<VariationAttribute>,
    pub promotions: Vec<Promotion>,
    pub average_rating: Option<String>,
    pub number_of_reviews: Option<i64>,
    pub ready_for_shipment_min: Option<i64>,
    pub ready_for_shipment_max: Option<i64>,
}

/// The attributes that describe a product's values: a master describes its
/// variants' values, a variant its own, and one list or the other is filled.
pub open spec fn described_values(w: WireProduct) -> Seq<VariationAttribute> {
    if w.variable_variation_attributes@.len() == 0 {
        w.variation_attribute_values@
    } else {
        w.variable_variation_attributes@
    }
}

/// Whether `p` is the product record `w` describes.
pub open spec fn product_of(w: WireProduct, p: Product) -> bool {
    &&& p.sku@ == or_empty(w.sku)
    &&& opt_str(p.name) == (if w.product_name is Some {
        opt_str(w.product_name)
    } else {
        opt_str(w.name)
    })
    &&& opt_str(p.brand) == non_empty(w.manufacturer)
    &&& opt_str(p.short_description) == non_empty(w.short_description)
    &&& opt_str(p.long_description) == non_empty(w.long_description)
    &&& amount_view(p.list_price) == amount_of(w.list_price)
    &&& amount_view(p.sale_price) == amount_of(w.sale_price)
    &&& amount_view(p.min_price) == amount_of(w.min_sale_price)
    &&& amount_view(p.max_price) == amount_of(w.max_sale_price)
    &&& p.in_stock == w.in_stock
    &&& p.available_stock == loose_i64_of(w.available_stock)
    &&& opt_str(p.master_sku) == opt_str(w.product_master_sku)
    &&& p.master == (w.product_master == Some(true))
    &&& p.images@.len() == addressed(w.images@).len()
    &&& forall|i: int|
        0 <= i < p.images@.len() ==> image_of(addressed(w.images@)[i], #[trigger] p.images@[i])
    &&& p.category_path@.len() == identified(path_of(w.default_category)).len()
    &&& forall|i: int|
        0 <= i < p.category_path@.len() ==> step_of(
            identified(path_of(w.default_category))[i],
            #[trigger] p.category_path@[i],
        )
    &&& values_named(p.variation_values@, described_values(w))
    &&& strs(p.promotions@) == titles(w.promotions@)
    &&& opt_str(p.rating) == opt_str(w.average_rating)
    &&& p.review_count == w.number_of_reviews
    &&& p.ships_in == (match (w.ready_for_shipment_min, w.ready_for_shipment_max) {
        (Some(a), Some(b)) => Some((a, b)),
        _ => None,
    })
}

/// A blank string kept as none.
fn filled(o: &Option<String>) -> (r: Option<String>)
    ensures
        opt_str(r) == non_empty(*o),
{
    match o {
        Some(s) => if chars_of(s.as_str()).len() > 0 {
            Some(s.clone())
        } else {
            None
        },
        None => None,
    }
}

/// The product a record describes, without consuming it.
fn product_from(w: &WireProduct) -> (p: Product)
    ensures
        product_of(*w, p),
{
    let name = match &w.product_name {
        Some(n) => Some(n.clone()),
        None => copy_opt(&w.name),
    };
    let values = if w.variable_variation_attributes.len() == 0 {
        values_of(&w.variation_attribute_values)
    } else {
        values_of(&w.variable_variation_attributes)
    };
    let category_path = match &w.default_category {
        Some(c) => path_steps(&c.category_path),
        None => {
            let empty: Vec<PathEntry> = Vec::new();
            assert(empty@ =~= path_of(w.default_category));
            path_steps(&empty)
        },
    };
    let ships_in = match (w.ready_for_shipment_min, w.ready_for_shipment_max) {
        (Some(a), Some(b)) => Some((a, b)),
        _ => None,
    };
    Product {
        sku: match &w.sku {
            Some(s) => s.clone(),
            None => String::new(),
        },
        name,
        brand: filled(&w.manufacturer),
        short_description: filled(&w.short_description),
        long_description: filled(&w.long_description),
        list_price: money(&w.list_price),
        sale_price: money(&w.sale_price),
        min_price: money(&w.min_sale_price),
        max_price: money(&w.max_sale_price),
        in_stock: w.in_stock,
        available_stock: loose_i64(&w.available_stock),
        master_sku: copy_opt(&w.product_master_sku),
        master: match w.product_master {
            Some(m) => m,
            None => false,
        },
        images: images_of(&w.images),
        category_path,
        variation_values: values,
        promotions: titles_of(&w.promotions),
        rating: copy_opt(&w.average_rating),
        review_count: w.number_of_reviews,
        ships_in,
    }
}

impl WireProduct {
    /// The product this record describes: the product name before the
    /// plain one, blank text as none, pictures with no address and path
    /// steps with no id skipped, and a count read whether it came as a
    /// number or as a string.
    pub fn into_product(self) -> (p: Product)
        ensures
            product_of(self, p),
    {
        product_from(&self)
    }
}

/// One entry of a master's variations.
#[derive(Debug)]
pub struct WireVariation {
    pub uri: Option<String>,
    pub title: Option<String>,
    pub attributes: Vec<Attribute>,
    pub variable_variation_attribute_values: Vec<VariationAttribute>,
    pub in_stock: Option<bool>,
    pub available_stock: Option<Json>,
}

/// The variant's code: the id off the end of its cross-reference.
pub open spec fn variation_sku(w: WireVariation) -> Option<Seq<char>> {
    match w.uri {
        Some(u) => last_segment(split(u@, '/')),
        None => None,
    }
}

/// Whether `v` is the variant record `w` describes.
pub open spec fn variant_of(w: WireVariation, v: Variant) -> bool {
    &&& Some(v.sku@) == variation_sku(w)
    &&& opt_str(v.name) == opt_str(w.title)
    &&& v.default == (attribute_of(w.attributes@, "defaultVariation"@) == Some(Json::Bool(true)))
    &&& values_named(v.values@, w.variable_variation_attribute_values@)
    &&& v.in_stock == w.in_stock
    &&& v.available_stock == loose_i64_of(w.available_stock)
}

impl WireVariation {
    /// The variant this record describes, or none where it has no
    /// cross-reference to take its code from.
    pub fn into_variant(self) -> (r: Option<Variant>)
        ensures
            r is None <==> variation_sku(self) is None,
            r matches Some(v) ==> variant_of(self, v),
    {
        let sku = match &self.uri {
            Some(u) => match id_of(u.as_str()) {
                Some(s) => s,
                None => return None,
            },
            None => return None,
        };
        let default = match attribute(&self.attributes, "defaultVariation") {
            Some(Json::Bool(b)) => *b,
            _ => false,
        };
        Some(
            Variant {
                sku,
                name: copy_opt(&self.title),
                default,
                values: values_of(&self.variable_variation_attribute_values),
                in_stock: self.in_stock,
                available_stock: loose_i64(&self.available_stock),
            },
        )
    }
}

} // verus!
