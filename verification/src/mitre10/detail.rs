//! A product page, as `/products/{code}` describes it.
//!
//! The amounts, the rating and the counts on a page are decimal numbers the
//! caller reads; everything else on the page -- what it is called, where it
//! sits, what it looks like, how it varies -- is read here.

use vstd::prelude::*;
use crate::json::{field, first_text_at, text_at, truth_at, Json};
use crate::mitre10::domain::{stock_level_of, StockLevel};
use crate::mitre10::error::Error;
use crate::mitre10::wire::{any_str, bool_of, either, first_of2, first_of3, items_at, items_of, str_of};
use crate::text::{chars_of, contains, contains_exec, opt_str, owned, str_views, strs};

verus! {

/// One buyable variation of a configurable product.
#[derive(Clone, Debug)]
pub struct Variant {
    pub code: String,
    pub name: Option<String>,
    pub url: Option<String>,
}

/// A product page: everything the grid has and what only the page knows,
/// less the amounts, rating and counts.
#[derive(Clone, Debug)]
pub struct ProductDetail {
    pub code: String,
    /// The site's own heading, longer than `name`.
    pub title: Option<String>,
    pub name: String,
    pub brand: Option<String>,
    pub summary: Option<String>,
    pub description: Option<String>,
    pub price_badge: Option<String>,
    pub model_number: Option<String>,
    pub unit: Option<String>,
    pub net_content_uom: Option<String>,
    /// The shop the page's prices and stock are for.
    pub store: Option<String>,
    pub store_name: Option<String>,
    pub stock_indicator: Option<StockLevel>,
    pub click_and_collect: bool,
    pub home_delivery: bool,
    pub purchasable: bool,
    pub categories: Vec<String>,
    pub breadcrumbs: Vec<String>,
    pub specifications: Vec<(String, String)>,
    pub images: Vec<String>,
    pub url: Option<String>,
    pub variants: Vec<Variant>,
}

/// The text each item carries under one name, skipping the items without.
pub open spec fn texts_in(items: Seq<Json>, key: Seq<char>) -> Seq<Seq<char>>
    decreases items.len(),
{
    if items.len() == 0 {
        Seq::empty()
    } else {
        let rest = texts_in(items.drop_last(), key);
        match text_at(items.last(), key) {
            Some(t) => rest.push(t),
            None => rest,
        }
    }
}

/// The text each item of an array member carries under one name.
fn texts_of(v: &Json, member: &str, key: &str) -> (r: Vec<String>)
    ensures
        strs(r@) == texts_in(items_at(*v, member@), key@),
{
    let mut out: Vec<String> = Vec::new();
    let items = match items_of(v, member) {
        Some(items) => items,
        None => {
            assert(strs(out@) =~= Seq::<Seq<char>>::empty());
            return out;
        },
    };
    let mut i: usize = 0;
    assert(strs(out@) =~= texts_in(items@.take(0), key@));
    while i < items.len()
        invariant
            i <= items.len(),
            strs(out@) == texts_in(items@.take(i as int), key@),
        decreases items.len() - i,
    {
        assert(items@.take(i + 1).drop_last() =~= items@.take(i as int));
        assert(items@.take(i + 1).last() == items@[i as int]);
        match str_of(&items[i], key) {
            Some(t) => {
                let ghost before = out@;
                out.push(t);
                assert(strs(out@) =~= strs(before).push(t@));
            },
            None => {},
        }
        i += 1;
    }
    assert(items@.take(items.len() as int) =~= items@);
    out
}

/// A specification entry's name and value: the name from `key` or `name`,
/// the value from `value`; none unless both read as text.
pub open spec fn spec_entry(e: Json) -> Option<(Seq<char>, Seq<char>)> {
    match first_text_at(e, seq!["key"@, "name"@]) {
        Some(k) => match first_text_at(e, seq!["value"@]) {
            Some(x) => Some((k, x)),
            None => None,
        },
        None => None,
    }
}

/// The entries that have both a name and a value, in order.
pub open spec fn spec_entries(es: Seq<Json>) -> Seq<(Seq<char>, Seq<char>)>
    decreases es.len(),
{
    if es.len() == 0 {
        Seq::empty()
    } else {
        let rest = spec_entries(es.drop_last());
        match spec_entry(es.last()) {
            Some(p) => rest.push(p),
            None => rest,
        }
    }
}

/// The entries of a page's specification table.
pub open spec fn specifications_of(v: Json) -> Seq<(Seq<char>, Seq<char>)> {
    match field(v, "mitre10ProductSpecifications"@) {
        Some(s) => spec_entries(items_at(s, "entry"@)),
        None => Seq::empty(),
    }
}

/// Pairs of strings by their characters.
pub open spec fn pair_views(v: Seq<(String, String)>) -> Seq<(Seq<char>, Seq<char>)> {
    v.map_values(|p: (String, String)| (p.0@, p.1@))
}

/// A page's specification table.
fn specifications(v: &Json) -> (r: Vec<(String, String)>)
    ensures
        pair_views(r@) == specifications_of(*v),
{
    let mut out: Vec<(String, String)> = Vec::new();
    let table = match v.get("mitre10ProductSpecifications") {
        Some(s) => s,
        None => {
            assert(pair_views(out@) =~= Seq::<(Seq<char>, Seq<char>)>::empty());
            return out;
        },
    };
    let entries = match items_of(table, "entry") {
        Some(es) => es,
        None => {
            assert(pair_views(out@) =~= Seq::<(Seq<char>, Seq<char>)>::empty());
            return out;
        },
    };
    let mut i: usize = 0;
    assert(pair_views(out@) =~= spec_entries(entries@.take(0)));
    while i < entries.len()
        invariant
            i <= entries.len(),
            pair_views(out@) == spec_entries(entries@.take(i as int)),
        decreases entries.len() - i,
    {
        assert(entries@.take(i + 1).drop_last() =~= entries@.take(i as int));
        assert(entries@.take(i + 1).last() == entries@[i as int]);
        let e = &entries[i];
        let key = first_of2(e, "key", "name");
        let value = match key {
            Some(_) => {
                let keys: [&str; 1] = ["value"];
                assert(str_views(keys@) =~= seq!["value"@]);
                any_str(e, &keys)
            },
            None => None,
        };
        match (key, value) {
            (Some(k), Some(x)) => {
                let ghost before = out@;
                let ghost pair = (k@, x@);
                out.push((k, x));
                assert(pair_views(out@) =~= pair_views(before).push(pair));
            },
            _ => {},
        }
        i += 1;
    }
    assert(entries@.take(entries.len() as int) =~= entries@);
    out
}

/// Whether a picture is a large one: no format named, or a format that is
/// the 1500-pixel rendition or the zoom.
pub open spec fn large_picture(i: Json) -> bool {
    match text_at(i, "format"@) {
        Some(f) => contains(f, "1500"@) || f == "zoom"@,
        None => true,
    }
}

/// The addresses of the large pictures, in order.
pub open spec fn picture_urls(is: Seq<Json>) -> Seq<Seq<char>>
    decreases is.len(),
{
    if is.len() == 0 {
        Seq::empty()
    } else {
        let rest = picture_urls(is.drop_last());
        if large_picture(is.last()) && text_at(is.last(), "url"@) is Some {
            rest.push(text_at(is.last(), "url"@).unwrap())
        } else {
            rest
        }
    }
}

/// The addresses of a page's large pictures.
fn pictures(v: &Json) -> (r: Vec<String>)
    ensures
        strs(r@) == picture_urls(items_at(*v, "images"@)),
{
    let mut out: Vec<String> = Vec::new();
    let items = match items_of(v, "images") {
        Some(items) => items,
        None => {
            assert(strs(out@) =~= Seq::<Seq<char>>::empty());
            return out;
        },
    };
    let mut i: usize = 0;
    assert(strs(out@) =~= picture_urls(items@.take(0)));
    while i < items.len()
        invariant
            i <= items.len(),
            strs(out@) == picture_urls(items@.take(i as int)),
        decreases items.len() - i,
    {
        assert(items@.take(i + 1).drop_last() =~= items@.take(i as int));
        assert(items@.take(i + 1).last() == items@[i as int]);
        let large = match str_of(&items[i], "format") {
            Some(f) => {
                let fc = chars_of(f.as_str());
                let big = chars_of("1500");
                contains_exec(&fc, &big) || crate::text::eq_str(f.as_str(), "zoom")
            },
            None => true,
        };
        if large {
            match str_of(&items[i], "url") {
                Some(u) => {
                    let ghost before = out@;
                    out.push(u);
                    assert(strs(out@) =~= strs(before).push(u@));
                },
                None => {},
            }
        }
        i += 1;
    }
    assert(items@.take(items.len() as int) =~= items@);
    out
}

/// Whether `w` is the variation record `o` describes.
pub open spec fn variant_of(o: Json, w: Variant) -> bool {
    &&& w.code@ == match text_at(o, "code"@) {
        Some(c) => c,
        None => Seq::empty(),
    }
    &&& opt_str(w.name) == first_text_at(o, seq!["name"@, "displayName"@])
    &&& opt_str(w.url) == text_at(o, "url"@)
}

/// A page's variations, one for each record, in order.
fn variants(v: &Json) -> (r: Vec<Variant>)
    ensures
        r@.len() == items_at(*v, "variantOptions"@).len(),
        forall|i: int|
            0 <= i < r@.len() ==> variant_of(items_at(*v, "variantOptions"@)[i], #[trigger] r@[i]),
{
    let mut out: Vec<Variant> = Vec::new();
    let items = match items_of(v, "variantOptions") {
        Some(items) => items,
        None => return out,
    };
    let mut i: usize = 0;
    while i < items.len()
        invariant
            i <= items.len(),
            items@ == items_at(*v, "variantOptions"@),
            out@.len() == i,
            forall|j: int| 0 <= j < i ==> variant_of(items@[j], #[trigger] out@[j]),
        decreases items.len() - i,
    {
        let o = &items[i];
        let code = match str_of(o, "code") {
            Some(c) => c,
            None => String::new(),
        };
        out.push(Variant { code, name: first_of2(o, "name", "displayName"), url: str_of(o, "url") });
        i += 1;
    }
    out
}

/// The stock word a page carries: its own `stockIndicator`, else the
/// `stockLevelStatus` of its `stock` record.
pub open spec fn stock_word(v: Json) -> Option<Seq<char>> {
    either(
        text_at(v, "stockIndicator"@),
        match field(v, "stock"@) {
            Some(s) => text_at(s, "stockLevelStatus"@),
            None => None,
        },
    )
}

/// A truth value that is false where it is absent.
pub open spec fn flag(v: Json, key: Seq<char>) -> bool {
    match truth_at(v, key) {
        Some(b) => b,
        None => false,
    }
}

/// The refusal for a product answer with no code.
pub open spec fn no_product_code() -> Seq<char> {
    "the product answer carried no code"@
}

/// Whether `d` is the product page `v` describes.
pub open spec fn detail_of(v: Json, d: ProductDetail) -> bool {
    &&& text_at(v, "code"@) == Some(d.code@)
    &&& opt_str(d.title) == text_at(v, "title"@)
    &&& d.name@ == match first_text_at(v, seq!["name"@, "title"@]) {
        Some(n) => n,
        None => Seq::empty(),
    }
    &&& opt_str(d.brand) == first_text_at(v, seq!["brandName"@, "subBrandName"@])
    &&& opt_str(d.summary) == text_at(v, "summary"@)
    &&& opt_str(d.description) == first_text_at(
        v,
        seq!["longDescription"@, "description"@, "shortDescription"@],
    )
    &&& opt_str(d.price_badge) == match field(v, "priceLabel"@) {
        Some(l) => text_at(l, "priceBadge"@),
        None => None,
    }
    &&& opt_str(d.model_number) == text_at(v, "modelNumber"@)
    &&& opt_str(d.unit) == first_text_at(v, seq!["uom"@, "ccDisplayName"@])
    &&& opt_str(d.net_content_uom) == text_at(v, "netContentUOM"@)
    &&& opt_str(d.store) == text_at(v, "preferredStoreId"@)
    &&& opt_str(d.store_name) == text_at(v, "preferredStore"@)
    &&& d.stock_indicator == match stock_word(v) {
        Some(w) => Some(stock_level_of(w)),
        None => None,
    }
    &&& d.click_and_collect == flag(v, "clickToCollect"@)
    &&& d.home_delivery == flag(v, "homeDelivery"@)
    &&& d.purchasable == flag(v, "purchasable"@)
    &&& strs(d.categories@) == texts_in(items_at(v, "categories"@), "code"@)
    &&& strs(d.breadcrumbs@) == texts_in(items_at(v, "breadcrumbs"@), "name"@)
    &&& pair_views(d.specifications@) == specifications_of(v)
    &&& strs(d.images@) == picture_urls(items_at(v, "images"@))
    &&& opt_str(d.url) == first_text_at(v, seq!["url"@, "canonicalUrl"@])
    &&& d.variants@.len() == items_at(v, "variantOptions"@).len()
    &&& forall|i: int|
        0 <= i < d.variants@.len() ==> variant_of(
            items_at(v, "variantOptions"@)[i],
            #[trigger] d.variants@[i],
        )
}

/// A product page, less its amounts, rating and counts; a page with no code
/// is a shape error.
pub fn product_detail(v: &Json) -> (r: Result<ProductDetail, Error>)
    ensures
        text_at(*v, "code"@) is None ==> (r matches Err(Error::Shape(m)) && m@ == no_product_code()),
        text_at(*v, "code"@) is Some ==> (r matches Ok(d) && detail_of(*v, d)),
{
    let code = match str_of(v, "code") {
        Some(c) => c,
        None => return Err(Error::Shape(owned("the product answer carried no code"))),
    };
    let name = match first_of2(v, "name", "title") {
        Some(n) => n,
        None => String::new(),
    };
    let price_badge = match v.get("priceLabel") {
        Some(l) => str_of(l, "priceBadge"),
        None => None,
    };
    let word = match str_of(v, "stockIndicator") {
        Some(w) => Some(w),
        None => match v.get("stock") {
            Some(s) => str_of(s, "stockLevelStatus"),
            None => None,
        },
    };
    let stock_indicator = match &word {
        Some(w) => Some(StockLevel::parse(w.as_str())),
        None => None,
    };
    let click_and_collect = match bool_of(v, "clickToCollect") {
        Some(b) => b,
        None => false,
    };
    let home_delivery = match bool_of(v, "homeDelivery") {
        Some(b) => b,
        None => false,
    };
    let purchasable = match bool_of(v, "purchasable") {
        Some(b) => b,
        None => false,
    };
    Ok(
        ProductDetail {
            code,
            title: str_of(v, "title"),
            name,
            brand: first_of2(v, "brandName", "subBrandName"),
            summary: str_of(v, "summary"),
            description: first_of3(v, "longDescription", "description", "shortDescription"),
            price_badge,
            model_number: str_of(v, "modelNumber"),
            unit: first_of2(v, "uom", "ccDisplayName"),
            net_content_uom: str_of(v, "netContentUOM"),
            store: str_of(v, "preferredStoreId"),
            store_name: str_of(v, "preferredStore"),
            stock_indicator,
            click_and_collect,
            home_delivery,
            purchasable,
            categories: texts_of(v, "categories", "code"),
            breadcrumbs: texts_of(v, "breadcrumbs", "name"),
            specifications: specifications(v),
            images: pictures(v),
            url: first_of2(v, "url", "canonicalUrl"),
            variants: variants(v),
        },
    )
}

} // verus!
