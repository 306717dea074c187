//! A grid row and a page of them, as the search index answers.
//!
//! The prices and the paging numbers are decimal numbers the caller reads;
//! what a row is -- its code, its names, where it is stocked, what it is on
//! promotion for -- is read here.

use vstd::prelude::*;
use crate::json::{field, first_text_at, text_at, truth_at, Json};
use crate::mitre10::domain::{stocked_at, Promotion};
use crate::mitre10::error::Error;
use crate::mitre10::wire::{
    bool_of, code_from_url, codes, codes_at, first_of2, first_of3, promotion_of, promotion_view,
    promotions, str_of, url_code,
};
use crate::text::{opt_str, owned, strs};

verus! {

/// A product as a grid row, less its prices.
#[derive(Clone, Debug)]
pub struct Product {
    pub code: String,
    pub name: String,
    pub brand: Option<String>,
    pub size: Option<String>,
    pub colour: Option<String>,
    pub unit: Option<String>,
    pub url: Option<String>,
    pub image: Option<String>,
    /// Whether the product is sold online at all, nationwide.
    pub available_nationwide: bool,
    /// Numeric store codes that have it on the shelf, as of the last reindex.
    pub stores_with_stock: Vec<String>,
    /// Numeric store codes that will do click and collect for it.
    pub click_and_collect: Vec<String>,
    pub promotions: Vec<Promotion>,
}

impl Product {
    /// Whether the index thinks this store has it: its view, not the shop's.
    pub fn in_stock_at(&self, store: &str) -> (r: bool)
        ensures
            r == exists|i: int|
                0 <= i < self.stores_with_stock@.len() && #[trigger] self.stores_with_stock@[i]@
                    == store@,
    {
        stocked_at(&self.stores_with_stock, store)
    }
}

/// The code a hit is known by: its `objectID`, `code` or `productCode`,
/// else the one on the end of its URL, else nothing.
pub open spec fn hit_code(hit: Json) -> Seq<char> {
    match first_text_at(hit, seq!["objectID"@, "code"@, "productCode"@]) {
        Some(c) => c,
        None => match text_at(hit, "url"@) {
            Some(u) => match url_code(u) {
                Some(c) => c,
                None => Seq::empty(),
            },
            None => Seq::empty(),
        },
    }
}

/// The picture a hit shows: the largest rendition it names.
pub open spec fn hit_image(hit: Json) -> Option<Seq<char>> {
    match field(hit, "images"@) {
        Some(i) => first_text_at(i, seq!["img515Wx515H"@, "img300Wx300H"@, "img96Wx96H"@]),
        None => None,
    }
}

/// The price labels a hit carries.
pub open spec fn labels_of(hit: Json) -> Seq<Json> {
    match field(hit, "prices"@) {
        Some(p) => match field(p, "labels"@) {
            Some(Json::Array(labels)) => labels@,
            _ => Seq::empty(),
        },
        None => Seq::empty(),
    }
}

/// A text or nothing, as the empty text.
pub open spec fn or_blank(t: Option<Seq<char>>) -> Seq<char> {
    match t {
        Some(x) => x,
        None => Seq::empty(),
    }
}

/// Whether `p` is the row a hit describes.
pub open spec fn row_of(hit: Json, p: Product) -> bool {
    &&& p.code@ == hit_code(hit)
    &&& p.name@ == or_blank(first_text_at(hit, seq!["name"@, "title"@]))
    &&& opt_str(p.brand) == first_text_at(hit, seq!["brandName"@, "brand"@])
    &&& opt_str(p.size) == text_at(hit, "size"@)
    &&& opt_str(p.colour) == first_text_at(hit, seq!["colour"@, "supplierColour"@])
    &&& opt_str(p.unit) == text_at(hit, "unit"@)
    &&& opt_str(p.url) == text_at(hit, "url"@)
    &&& opt_str(p.image) == hit_image(hit)
    &&& p.available_nationwide == (truth_at(hit, "availableNationWide"@) == Some(true))
    &&& strs(p.stores_with_stock@) == codes_at(hit, "storesWithStock"@)
    &&& strs(p.click_and_collect@) == codes_at(hit, "clickAndCollect"@)
    &&& p.promotions@.len() == labels_of(hit).len()
    &&& forall|i: int|
        0 <= i < p.promotions@.len() ==> #[trigger] promotion_view(p.promotions@[i]) == promotion_of(
            labels_of(hit)[i],
        )
}

/// One index document as a grid row, less its prices.
pub fn product(hit: &Json) -> (p: Product)
    ensures
        row_of(*hit, p),
{
    let code = match first_of3(hit, "objectID", "code", "productCode") {
        Some(c) => c,
        None => match str_of(hit, "url") {
            Some(u) => match code_from_url(u.as_str()) {
                Some(c) => c,
                None => String::new(),
            },
            None => String::new(),
        },
    };
    let name = match first_of2(hit, "name", "title") {
        Some(n) => n,
        None => String::new(),
    };
    let image = match hit.get("images") {
        Some(i) => first_of3(i, "img515Wx515H", "img300Wx300H", "img96Wx96H"),
        None => None,
    };
    let available_nationwide = match bool_of(hit, "availableNationWide") {
        Some(b) => b,
        None => false,
    };
    let promos = match hit.get("prices") {
        Some(p) => promotions(p),
        None => Vec::new(),
    };
    Product {
        code,
        name,
        brand: first_of2(hit, "brandName", "brand"),
        size: str_of(hit, "size"),
        colour: first_of2(hit, "colour", "supplierColour"),
        unit: str_of(hit, "unit"),
        url: str_of(hit, "url"),
        image,
        available_nationwide,
        stores_with_stock: codes(hit, "storesWithStock"),
        click_and_collect: codes(hit, "clickAndCollect"),
        promotions: promos,
    }
}

/// Whether an answer carries a results block to read a page from.
pub open spec fn has_results(body: Json) -> bool {
    field(body, "results"@) matches Some(Json::Array(rs)) && rs@.len() > 0
}

/// The first results block of a multi-query answer; an answer without one is
/// a shape error rather than an empty page.
pub fn results_block(body: &Json) -> (r: Result<&Json, Error>)
    ensures
        has_results(*body) ==> (r matches Ok(b) && field(*body, "results"@) matches Some(Json::Array(rs))
            && *b == rs@[0]),
        !has_results(*body) ==> (r matches Err(Error::Shape(m)) && m@
            == "the search index answered with no results block"@),
{
    match body.get("results") {
        Some(Json::Array(rs)) => {
            if rs.len() > 0 {
                return Ok(&rs[0]);
            }
        },
        _ => {},
    }
    Err(Error::Shape(owned("the search index answered with no results block")))
}

/// The rows of one results block, one per hit, in order.
pub fn rows(result: &Json) -> (r: Vec<Product>)
    ensures
        match field(*result, "hits"@) {
            Some(Json::Array(hits)) => r@.len() == hits@.len() && forall|i: int|
                0 <= i < hits@.len() ==> row_of(hits@[i], #[trigger] r@[i]),
            _ => r@.len() == 0,
        },
{
    let mut out: Vec<Product> = Vec::new();
    let hits = match result.get("hits") {
        Some(Json::Array(hits)) => hits,
        _ => return out,
    };
    let mut i: usize = 0;
    while i < hits.len()
        invariant
            i <= hits.len(),
            out@.len() == i,
            forall|j: int| 0 <= j < i ==> row_of(hits@[j], #[trigger] out@[j]),
        decreases hits.len() - i,
    {
        out.push(product(&hits[i]));
        i += 1;
    }
    out
}

} // verus!
