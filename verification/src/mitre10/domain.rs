//! What Mitre 10 sells, where, and how it is got, as this crate hands it out.
//!
//! Prices stay with the caller: they are decimal amounts, and nothing here
//! computes with them.

use vstd::prelude::*;
use crate::ordered::{
    lemma_less_irreflexive, lemma_less_total, lemma_less_transitive, less, less_exec,
};
use crate::text::{
    alnum_lower, alnum_lower_exec, chars_of, eq_ignore_case, eq_str, opt_str, same,
    same_ignore_case, str_is, strs, upper_char, upper_char_exec,
};

verus! {

/// A promotion badge, as the index carries it.
#[derive(Clone, Debug)]
pub struct Promotion {
    /// `WAS_NOW`, `MULTIBUY` and friends.
    pub badge: Option<String>,
    /// The catalogue offer this belongs to, e.g. `CT0327`.
    pub offer_id: Option<String>,
    pub starts: Option<String>,
    pub ends: Option<String>,
    pub text: Option<String>,
}

#[derive(Clone, Debug)]
pub struct Facet {
    pub name: String,
    pub options: Vec<FacetOption>,
}

#[derive(Clone, Debug)]
pub struct FacetOption {
    pub value: String,
    pub count: u64,
}

/// How available a product is at one shop: the storefront's own vocabulary,
/// not a stock count.
#[derive(Copy, Clone, Debug, PartialEq, Eq, Structural)]
pub enum StockLevel {
    InStock,
    LowStock,
    OutOfStock,
    /// A value this crate does not know, carried rather than dropped so a
    /// new state costs a label, not the command.
    Unknown,
}

/// A stock word upper-cased, with dashes and spaces as underscores.
pub open spec fn stock_key(raw: Seq<char>) -> Seq<char> {
    raw.map_values(
        |c: char|
            if c == '-' || c == ' ' {
                '_'
            } else {
                upper_char(c)
            },
    )
}

/// What a stock word says.
pub open spec fn stock_level_of(raw: Seq<char>) -> StockLevel {
    let k = stock_key(raw);
    if k == "IN_STOCK"@ || k == "INSTOCK"@ {
        StockLevel::InStock
    } else if k == "LOW_STOCK"@ || k == "LOWSTOCK"@ {
        StockLevel::LowStock
    } else if k == "OUT_OF_STOCK"@ || k == "OUTOFSTOCK"@ || k == "NO_STOCK"@ {
        StockLevel::OutOfStock
    } else {
        StockLevel::Unknown
    }
}

/// The storefront's stock words read as what they say, however cased or
/// punctuated: the in-stock words as in stock, the low-stock words as low,
/// the out-of-stock words as out of stock; and a level that can be had
/// comes only from an in-stock or a low-stock word.
pub proof fn lemma_stock_words_read_as_they_say(raw: Seq<char>)
    ensures
        stock_key(raw) == "IN_STOCK"@ || stock_key(raw) == "INSTOCK"@ ==> stock_level_of(raw)
            == StockLevel::InStock,
        stock_key(raw) == "LOW_STOCK"@ || stock_key(raw) == "LOWSTOCK"@ ==> stock_level_of(raw)
            == StockLevel::LowStock,
        stock_key(raw) == "OUT_OF_STOCK"@ || stock_key(raw) == "OUTOFSTOCK"@ || stock_key(raw)
            == "NO_STOCK"@ ==> stock_level_of(raw) == StockLevel::OutOfStock,
        stock_level_of(raw) == StockLevel::InStock || stock_level_of(raw) == StockLevel::LowStock
            ==> stock_key(raw) == "IN_STOCK"@ || stock_key(raw) == "INSTOCK"@ || stock_key(raw)
            == "LOW_STOCK"@ || stock_key(raw) == "LOWSTOCK"@,
{
    reveal_strlit("IN_STOCK");
    reveal_strlit("INSTOCK");
    reveal_strlit("LOW_STOCK");
    reveal_strlit("LOWSTOCK");
    reveal_strlit("OUT_OF_STOCK");
    reveal_strlit("OUTOFSTOCK");
    reveal_strlit("NO_STOCK");
    assert("IN_STOCK"@ != "INSTOCK"@) by {
        assert("IN_STOCK"@.len() == 8);
        assert("INSTOCK"@.len() == 7);
    }
    assert("IN_STOCK"@ != "LOW_STOCK"@) by {
        assert("IN_STOCK"@.len() == 8);
        assert("LOW_STOCK"@.len() == 9);
    }
    assert("IN_STOCK"@ != "LOWSTOCK"@) by {
        assert("IN_STOCK"@[0] != "LOWSTOCK"@[0]);
    }
    assert("IN_STOCK"@ != "OUT_OF_STOCK"@) by {
        assert("IN_STOCK"@.len() == 8);
        assert("OUT_OF_STOCK"@.len() == 12);
    }
    assert("IN_STOCK"@ != "OUTOFSTOCK"@) by {
        assert("IN_STOCK"@.len() == 8);
        assert("OUTOFSTOCK"@.len() == 10);
    }
    assert("IN_STOCK"@ != "NO_STOCK"@) by {
        assert("IN_STOCK"@[0] != "NO_STOCK"@[0]);
    }
    assert("INSTOCK"@ != "LOW_STOCK"@) by {
        assert("INSTOCK"@.len() == 7);
        assert("LOW_STOCK"@.len() == 9);
    }
    assert("INSTOCK"@ != "LOWSTOCK"@) by {
        assert("INSTOCK"@.len() == 7);
        assert("LOWSTOCK"@.len() == 8);
    }
    assert("INSTOCK"@ != "OUT_OF_STOCK"@) by {
        assert("INSTOCK"@.len() == 7);
        assert("OUT_OF_STOCK"@.len() == 12);
    }
    assert("INSTOCK"@ != "OUTOFSTOCK"@) by {
        assert("INSTOCK"@.len() == 7);
        assert("OUTOFSTOCK"@.len() == 10);
    }
    assert("INSTOCK"@ != "NO_STOCK"@) by {
        assert("INSTOCK"@.len() == 7);
        assert("NO_STOCK"@.len() == 8);
    }
    assert("LOW_STOCK"@ != "LOWSTOCK"@) by {
        assert("LOW_STOCK"@.len() == 9);
        assert("LOWSTOCK"@.len() == 8);
    }
    assert("LOW_STOCK"@ != "OUT_OF_STOCK"@) by {
        assert("LOW_STOCK"@.len() == 9);
        assert("OUT_OF_STOCK"@.len() == 12);
    }
    assert("LOW_STOCK"@ != "OUTOFSTOCK"@) by {
        assert("LOW_STOCK"@.len() == 9);
        assert("OUTOFSTOCK"@.len() == 10);
    }
    assert("LOW_STOCK"@ != "NO_STOCK"@) by {
        assert("LOW_STOCK"@.len() == 9);
        assert("NO_STOCK"@.len() == 8);
    }
    assert("LOWSTOCK"@ != "OUT_OF_STOCK"@) by {
        assert("LOWSTOCK"@.len() == 8);
        assert("OUT_OF_STOCK"@.len() == 12);
    }
    assert("LOWSTOCK"@ != "OUTOFSTOCK"@) by {
        assert("LOWSTOCK"@.len() == 8);
        assert("OUTOFSTOCK"@.len() == 10);
    }
    assert("LOWSTOCK"@ != "NO_STOCK"@) by {
        assert("LOWSTOCK"@[0] != "NO_STOCK"@[0]);
    }
    assert("OUT_OF_STOCK"@ != "OUTOFSTOCK"@) by {
        assert("OUT_OF_STOCK"@.len() == 12);
        assert("OUTOFSTOCK"@.len() == 10);
    }
    assert("OUT_OF_STOCK"@ != "NO_STOCK"@) by {
        assert("OUT_OF_STOCK"@.len() == 12);
        assert("NO_STOCK"@.len() == 8);
    }
    assert("OUTOFSTOCK"@ != "NO_STOCK"@) by {
        assert("OUTOFSTOCK"@.len() == 10);
        assert("NO_STOCK"@.len() == 8);
    }
}

/// A stock word upper-cased, with dashes and spaces as underscores.
fn stock_key_exec(raw: &str) -> (r: Vec<char>)
    ensures
        r@ == stock_key(raw@),
{
    let cs = chars_of(raw);
    let mut r: Vec<char> = Vec::new();
    let mut i: usize = 0;
    while i < cs.len()
        invariant
            i <= cs.len(),
            cs@ == raw@,
            r@ == stock_key(cs@.take(i as int)),
        decreases cs.len() - i,
    {
        let c = cs[i];
        let d = if c == '-' || c == ' ' {
            '_'
        } else {
            upper_char_exec(c)
        };
        r.push(d);
        assert(r@ =~= stock_key(cs@.take(i + 1)));
        i += 1;
    }
    assert(cs@.take(cs.len() as int) =~= cs@);
    r
}

impl StockLevel {
    /// Read a stock word however it is cased or punctuated; one this crate
    /// does not know is [`StockLevel::Unknown`].
    pub fn parse(raw: &str) -> (r: StockLevel)
        ensures
            r == stock_level_of(raw@),
    {
        let k = stock_key_exec(raw);
        if str_is("IN_STOCK", &k) || str_is("INSTOCK", &k) {
            StockLevel::InStock
        } else if str_is("LOW_STOCK", &k) || str_is("LOWSTOCK", &k) {
            StockLevel::LowStock
        } else if str_is("OUT_OF_STOCK", &k) || str_is("OUTOFSTOCK", &k) || str_is("NO_STOCK", &k) {
            StockLevel::OutOfStock
        } else {
            StockLevel::Unknown
        }
    }

    pub fn label(self) -> (r: &'static str)
        ensures
            r@ == match self {
                StockLevel::InStock => "in stock"@,
                StockLevel::LowStock => "low stock"@,
                StockLevel::OutOfStock => "out of stock"@,
                StockLevel::Unknown => "unknown"@,
            },
    {
        match self {
            StockLevel::InStock => "in stock",
            StockLevel::LowStock => "low stock",
            StockLevel::OutOfStock => "out of stock",
            StockLevel::Unknown => "unknown",
        }
    }

    /// Whether it can be had: in stock, or low.
    pub fn is_available(self) -> (r: bool)
        ensures
            r == (self == StockLevel::InStock || self == StockLevel::LowStock),
    {
        match self {
            StockLevel::InStock | StockLevel::LowStock => true,
            _ => false,
        }
    }
}

/// One shop's answer for one product.
#[derive(Clone, Debug)]
pub struct Stock {
    /// The numeric store code.
    pub store: String,
    pub store_name: String,
    pub level: StockLevel,
}

#[derive(Clone, Debug)]
pub struct Address {
    pub line1: Option<String>,
    pub line2: Option<String>,
    pub suburb: Option<String>,
    pub town: Option<String>,
    pub postcode: Option<String>,
    pub formatted: Option<String>,
}

/// How an order is to be got: collected from a shop, or delivered.
#[derive(Copy, Clone, Debug, PartialEq, Eq, Structural)]
pub enum Fulfilment {
    ClickToCollect,
    HomeDelivery,
    ExpressDelivery,
}

/// What a person typed for a way of getting an order, if it names one.
pub open spec fn fulfilment_of(s: Seq<char>) -> Option<Fulfilment> {
    let k = alnum_lower(s);
    if k == "collect"@ || k == "clicktocollect"@ || k == "clickandcollect"@ || k == "ctc"@ || k
        == "pickup"@ {
        Some(Fulfilment::ClickToCollect)
    } else if k == "delivery"@ || k == "homedelivery"@ || k == "hd"@ || k == "deliver"@ {
        Some(Fulfilment::HomeDelivery)
    } else if k == "express"@ || k == "expressdelivery"@ {
        Some(Fulfilment::ExpressDelivery)
    } else {
        None
    }
}

impl Fulfilment {
    /// The spelling `changeDeliveryMode` takes.
    pub fn code(self) -> (r: &'static str)
        ensures
            r@ == match self {
                Fulfilment::ClickToCollect => "clickToCollect"@,
                Fulfilment::HomeDelivery => "homeDelivery"@,
                Fulfilment::ExpressDelivery => "expressDelivery"@,
            },
    {
        match self {
            Fulfilment::ClickToCollect => "clickToCollect",
            Fulfilment::HomeDelivery => "homeDelivery",
            Fulfilment::ExpressDelivery => "expressDelivery",
        }
    }

    /// Read what people type: case, spaces and punctuation do not matter.
    pub fn parse(s: &str) -> (r: Option<Fulfilment>)
        ensures
            r == fulfilment_of(s@),
    {
        let k = alnum_lower_exec(s);
        if str_is("collect", &k) || str_is("clicktocollect", &k) || str_is("clickandcollect", &k)
            || str_is("ctc", &k) || str_is("pickup", &k) {
            Some(Fulfilment::ClickToCollect)
        } else if str_is("delivery", &k) || str_is("homedelivery", &k) || str_is("hd", &k)
            || str_is("deliver", &k) {
            Some(Fulfilment::HomeDelivery)
        } else if str_is("express", &k) || str_is("expressdelivery", &k) {
            Some(Fulfilment::ExpressDelivery)
        } else {
            None
        }
    }

    pub fn label(self) -> (r: &'static str)
        ensures
            r@ == match self {
                Fulfilment::ClickToCollect => "click and collect"@,
                Fulfilment::HomeDelivery => "home delivery"@,
                Fulfilment::ExpressDelivery => "express delivery"@,
            },
    {
        match self {
            Fulfilment::ClickToCollect => "click and collect",
            Fulfilment::HomeDelivery => "home delivery",
            Fulfilment::ExpressDelivery => "express delivery",
        }
    }
}

/// The spelling `changeDeliveryMode` takes for a way of getting an order.
pub open spec fn fulfilment_code(f: Fulfilment) -> Seq<char> {
    match f {
        Fulfilment::ClickToCollect => "clickToCollect"@,
        Fulfilment::HomeDelivery => "homeDelivery"@,
        Fulfilment::ExpressDelivery => "expressDelivery"@,
    }
}

/// How a way of getting an order is written for a person.
pub open spec fn fulfilment_label(f: Fulfilment) -> Seq<char> {
    match f {
        Fulfilment::ClickToCollect => "click and collect"@,
        Fulfilment::HomeDelivery => "home delivery"@,
        Fulfilment::ExpressDelivery => "express delivery"@,
    }
}

/// How the codes and labels read once case and punctuation are dropped.
proof fn lemma_spellings()
    ensures
        alnum_lower("clickToCollect"@) == "clicktocollect"@,
        alnum_lower("click and collect"@) == "clickandcollect"@,
        alnum_lower("homeDelivery"@) == "homedelivery"@,
        alnum_lower("home delivery"@) == "homedelivery"@,
        alnum_lower("expressDelivery"@) == "expressdelivery"@,
        alnum_lower("express delivery"@) == "expressdelivery"@,
{
    reveal_strlit("clickToCollect");
    reveal_strlit("homeDelivery");
    reveal_strlit("expressDelivery");
    reveal_strlit("click and collect");
    reveal_strlit("home delivery");
    reveal_strlit("express delivery");
    reveal_strlit("clicktocollect");
    reveal_strlit("clickandcollect");
    reveal_strlit("homedelivery");
    reveal_strlit("expressdelivery");
    reveal_with_fuel(alnum_lower, 18);
    assert(alnum_lower("clickToCollect"@) =~= "clicktocollect"@);
    assert(alnum_lower("click and collect"@) =~= "clickandcollect"@);
    assert(alnum_lower("homeDelivery"@) =~= "homedelivery"@);
    assert(alnum_lower("home delivery"@) =~= "homedelivery"@);
    assert(alnum_lower("expressDelivery"@) =~= "expressdelivery"@);
    assert(alnum_lower("express delivery"@) =~= "expressdelivery"@);
}

/// What people type for a way of getting an order reads as that way,
/// however cased or punctuated, and nothing else reads as one.
pub proof fn lemma_fulfilment_words(s: Seq<char>)
    ensures
        alnum_lower(s) == "collect"@ || alnum_lower(s) == "clicktocollect"@ || alnum_lower(s)
            == "clickandcollect"@ || alnum_lower(s) == "ctc"@ || alnum_lower(s) == "pickup"@
            ==> fulfilment_of(s) == Some(Fulfilment::ClickToCollect),
        alnum_lower(s) == "delivery"@ || alnum_lower(s) == "homedelivery"@ || alnum_lower(s) == "hd"@
            || alnum_lower(s) == "deliver"@ ==> fulfilment_of(s) == Some(Fulfilment::HomeDelivery),
        alnum_lower(s) == "express"@ || alnum_lower(s) == "expressdelivery"@ ==> fulfilment_of(s)
            == Some(Fulfilment::ExpressDelivery),
        fulfilment_of(s) is Some ==> alnum_lower(s) == "collect"@ || alnum_lower(s) == "clicktocollect"@
            || alnum_lower(s) == "clickandcollect"@ || alnum_lower(s) == "ctc"@ || alnum_lower(s)
            == "pickup"@ || alnum_lower(s) == "delivery"@ || alnum_lower(s) == "homedelivery"@
            || alnum_lower(s) == "hd"@ || alnum_lower(s) == "deliver"@ || alnum_lower(s) == "express"@
            || alnum_lower(s) == "expressdelivery"@,
{
    reveal_strlit("collect");
    reveal_strlit("clicktocollect");
    reveal_strlit("clickandcollect");
    reveal_strlit("ctc");
    reveal_strlit("pickup");
    reveal_strlit("delivery");
    reveal_strlit("homedelivery");
    reveal_strlit("hd");
    reveal_strlit("deliver");
    reveal_strlit("express");
    reveal_strlit("expressdelivery");
    assert("collect"@ != "clicktocollect"@) by {
        assert("collect"@.len() == 7);
        assert("clicktocollect"@.len() == 14);
    }
    assert("collect"@ != "clickandcollect"@) by {
        assert("collect"@.len() == 7);
        assert("clickandcollect"@.len() == 15);
    }
    assert("collect"@ != "ctc"@) by {
        assert("collect"@.len() == 7);
        assert("ctc"@.len() == 3);
    }
    assert("collect"@ != "pickup"@) by {
        assert("collect"@.len() == 7);
        assert("pickup"@.len() == 6);
    }
    assert("collect"@ != "delivery"@) by {
        assert("collect"@.len() == 7);
        assert("delivery"@.len() == 8);
    }
    assert("collect"@ != "homedelivery"@) by {
        assert("collect"@.len() == 7);
        assert("homedelivery"@.len() == 12);
    }
    assert("collect"@ != "hd"@) by {
        assert("collect"@.len() == 7);
        assert("hd"@.len() == 2);
    }
    assert("collect"@ != "deliver"@) by {
        assert("collect"@[0] != "deliver"@[0]);
    }
    assert("collect"@ != "express"@) by {
        assert("collect"@[0] != "express"@[0]);
    }
    assert("collect"@ != "expressdelivery"@) by {
        assert("collect"@.len() == 7);
        assert("expressdelivery"@.len() == 15);
    }
    assert("clicktocollect"@ != "clickandcollect"@) by {
        assert("clicktocollect"@.len() == 14);
        assert("clickandcollect"@.len() == 15);
    }
    assert("clicktocollect"@ != "ctc"@) by {
        assert("clicktocollect"@.len() == 14);
        assert("ctc"@.len() == 3);
    }
    assert("clicktocollect"@ != "pickup"@) by {
        assert("clicktocollect"@.len() == 14);
        assert("pickup"@.len() == 6);
    }
    assert("clicktocollect"@ != "delivery"@) by {
        assert("clicktocollect"@.len() == 14);
        assert("delivery"@.len() == 8);
    }
    assert("clicktocollect"@ != "homedelivery"@) by {
        assert("clicktocollect"@.len() == 14);
        assert("homedelivery"@.len() == 12);
    }
    assert("clicktocollect"@ != "hd"@) by {
        assert("clicktocollect"@.len() == 14);
        assert("hd"@.len() == 2);
    }
    assert("clicktocollect"@ != "deliver"@) by {
        assert("clicktocollect"@.len() == 14);
        assert("deliver"@.len() == 7);
    }
    assert("clicktocollect"@ != "express"@) by {
        assert("clicktocollect"@.len() == 14);
        assert("express"@.len() == 7);
    }
    assert("clicktocollect"@ != "expressdelivery"@) by {
        assert("clicktocollect"@.len() == 14);
        assert("expressdelivery"@.len() == 15);
    }
    assert("clickandcollect"@ != "ctc"@) by {
        assert("clickandcollect"@.len() == 15);
        assert("ctc"@.len() == 3);
    }
    assert("clickandcollect"@ != "pickup"@) by {
        assert("clickandcollect"@.len() == 15);
        assert("pickup"@.len() == 6);
    }
    assert("clickandcollect"@ != "delivery"@) by {
        assert("clickandcollect"@.len() == 15);
        assert("delivery"@.len() == 8);
    }
    assert("clickandcollect"@ != "homedelivery"@) by {
        assert("clickandcollect"@.len() == 15);
        assert("homedelivery"@.len() == 12);
    }
    assert("clickandcollect"@ != "hd"@) by {
        assert("clickandcollect"@.len() == 15);
        assert("hd"@.len() == 2);
    }
    assert("clickandcollect"@ != "deliver"@) by {
        assert("clickandcollect"@.len() == 15);
        assert("deliver"@.len() == 7);
    }
    assert("clickandcollect"@ != "express"@) by {
        assert("clickandcollect"@.len() == 15);
        assert("express"@.len() == 7);
    }
    assert("clickandcollect"@ != "expressdelivery"@) by {
        assert("clickandcollect"@[0] != "expressdelivery"@[0]);
    }
    assert("ctc"@ != "pickup"@) by {
        assert("ctc"@.len() == 3);
        assert("pickup"@.len() == 6);
    }
    assert("ctc"@ != "delivery"@) by {
        assert("ctc"@.len() == 3);
        assert("delivery"@.len() == 8);
    }
    assert("ctc"@ != "homedelivery"@) by {
        assert("ctc"@.len() == 3);
        assert("homedelivery"@.len() == 12);
    }
    assert("ctc"@ != "hd"@) by {
        assert("ctc"@.len() == 3);
        assert("hd"@.len() == 2);
    }
    assert("ctc"@ != "deliver"@) by {
        assert("ctc"@.len() == 3);
        assert("deliver"@.len() == 7);
    }
    assert("ctc"@ != "express"@) by {
        assert("ctc"@.len() == 3);
        assert("express"@.len() == 7);
    }
    assert("ctc"@ != "expressdelivery"@) by {
        assert("ctc"@.len() == 3);
        assert("expressdelivery"@.len() == 15);
    }
    assert("pickup"@ != "delivery"@) by {
        assert("pickup"@.len() == 6);
        assert("delivery"@.len() == 8);
    }
    assert("pickup"@ != "homedelivery"@) by {
        assert("pickup"@.len() == 6);
        assert("homedelivery"@.len() == 12);
    }
    assert("pickup"@ != "hd"@) by {
        assert("pickup"@.len() == 6);
        assert("hd"@.len() == 2);
    }
    assert("pickup"@ != "deliver"@) by {
        assert("pickup"@.len() == 6);
        assert("deliver"@.len() == 7);
    }
    assert("pickup"@ != "express"@) by {
        assert("pickup"@.len() == 6);
        assert("express"@.len() == 7);
    }
    assert("pickup"@ != "expressdelivery"@) by {
        assert("pickup"@.len() == 6);
        assert("expressdelivery"@.len() == 15);
    }
    assert("delivery"@ != "homedelivery"@) by {
        assert("delivery"@.len() == 8);
        assert("homedelivery"@.len() == 12);
    }
    assert("delivery"@ != "hd"@) by {
        assert("delivery"@.len() == 8);
        assert("hd"@.len() == 2);
    }
    assert("delivery"@ != "deliver"@) by {
        assert("delivery"@.len() == 8);
        assert("deliver"@.len() == 7);
    }
    assert("delivery"@ != "express"@) by {
        assert("delivery"@.len() == 8);
        assert("express"@.len() == 7);
    }
    assert("delivery"@ != "expressdelivery"@) by {
        assert("delivery"@.len() == 8);
        assert("expressdelivery"@.len() == 15);
    }
    assert("homedelivery"@ != "hd"@) by {
        assert("homedelivery"@.len() == 12);
        assert("hd"@.len() == 2);
    }
    assert("homedelivery"@ != "deliver"@) by {
        assert("homedelivery"@.len() == 12);
        assert("deliver"@.len() == 7);
    }
    assert("homedelivery"@ != "express"@) by {
        assert("homedelivery"@.len() == 12);
        assert("express"@.len() == 7);
    }
    assert("homedelivery"@ != "expressdelivery"@) by {
        assert("homedelivery"@.len() == 12);
        assert("expressdelivery"@.len() == 15);
    }
    assert("hd"@ != "deliver"@) by {
        assert("hd"@.len() == 2);
        assert("deliver"@.len() == 7);
    }
    assert("hd"@ != "express"@) by {
        assert("hd"@.len() == 2);
        assert("express"@.len() == 7);
    }
    assert("hd"@ != "expressdelivery"@) by {
        assert("hd"@.len() == 2);
        assert("expressdelivery"@.len() == 15);
    }
    assert("deliver"@ != "express"@) by {
        assert("deliver"@[0] != "express"@[0]);
    }
    assert("deliver"@ != "expressdelivery"@) by {
        assert("deliver"@.len() == 7);
        assert("expressdelivery"@.len() == 15);
    }
    assert("express"@ != "expressdelivery"@) by {
        assert("express"@.len() == 7);
        assert("expressdelivery"@.len() == 15);
    }
}

/// Reading a way of getting an order back from its code, or from its
/// label, gives that way back.
pub proof fn lemma_a_fulfilment_reads_back(f: Fulfilment)
    ensures
        fulfilment_of(fulfilment_code(f)) == Some(f),
        fulfilment_of(fulfilment_label(f)) == Some(f),
{
    lemma_spellings();
    reveal_strlit("collect");
    reveal_strlit("clicktocollect");
    reveal_strlit("clickandcollect");
    reveal_strlit("ctc");
    reveal_strlit("pickup");
    reveal_strlit("delivery");
    reveal_strlit("homedelivery");
    reveal_strlit("hd");
    reveal_strlit("deliver");
    reveal_strlit("express");
    reveal_strlit("expressdelivery");
    assert("expressdelivery"@[0] != "clickandcollect"@[0]);
}

#[derive(Clone, Debug)]
pub struct Customer {
    pub uid: Option<String>,
    pub name: Option<String>,
    pub first_name: Option<String>,
    pub last_name: Option<String>,
    pub email: Option<String>,
    pub addresses: Vec<Address>,
}

/// The search-index level a category code names: its two-letter prefix is
/// its depth, `RD` a department, `RS` a section, `RF` a fineline, `RC` a
/// class. Anything else -- the `N1`..`N9` landing pages among them -- has
/// none.
pub open spec fn level_of_code(code: Seq<char>) -> Option<u8> {
    if code.len() < 2 || upper_char(code[0]) != 'R' {
        None
    } else if upper_char(code[1]) == 'D' {
        Some(0u8)
    } else if upper_char(code[1]) == 'S' {
        Some(1u8)
    } else if upper_char(code[1]) == 'F' {
        Some(2u8)
    } else if upper_char(code[1]) == 'C' {
        Some(3u8)
    } else {
        None
    }
}

/// One category, as `/categories/{code}` returns it.
#[derive(Clone, Debug)]
pub struct Category {
    pub code: String,
    pub name: String,
    pub url: Option<String>,
    pub meta_title: Option<String>,
    pub meta_description: Option<String>,
    /// Ancestors, outermost first. The storefront sends these and not the
    /// children.
    pub breadcrumbs: Vec<String>,
}

impl Category {
    /// Which `categoryID.lvlN` field in the search index holds this code.
    pub fn level(&self) -> (r: Option<u8>)
        ensures
            r == level_of_code(self.code@),
    {
        CategoryNode::level_of(self.code.as_str())
    }
}

/// A node of the navigation tree, which is where the category hierarchy
/// lives.
#[derive(Debug)]
pub struct CategoryNode {
    pub code: String,
    pub name: String,
    pub url: Option<String>,
    pub children: Vec<CategoryNode>,
}

/// A category node by its characters: code, name, URL and children.
pub struct NodeView {
    pub code: Seq<char>,
    pub name: Seq<char>,
    pub url: Option<Seq<char>>,
    pub children: Seq<NodeView>,
}

/// A node by its characters.
pub open spec fn node_view(n: CategoryNode) -> NodeView
    decreases n, 1nat,
{
    NodeView {
        code: n.code@,
        name: n.name@,
        url: opt_str(n.url),
        children: node_views(n.children@),
    }
}

/// A list of nodes by their characters.
pub open spec fn node_views(ns: Seq<CategoryNode>) -> Seq<NodeView>
    decreases ns, 0nat,
{
    if ns.len() == 0 {
        Seq::empty()
    } else {
        node_views(ns.subrange(0, ns.len() - 1)).push(node_view(ns[ns.len() - 1]))
    }
}

/// The views of a list are the view of each node, in order.
pub proof fn lemma_node_views(ns: Seq<CategoryNode>)
    ensures
        node_views(ns).len() == ns.len(),
        forall|i: int| 0 <= i < ns.len() ==> #[trigger] node_views(ns)[i] == node_view(ns[i]),
    decreases ns.len(),
{
    if ns.len() > 0 {
        let init = ns.subrange(0, ns.len() - 1);
        lemma_node_views(init);
        assert forall|i: int| 0 <= i < ns.len() implies #[trigger] node_views(ns)[i] == node_view(
            ns[i],
        ) by {
            if i < ns.len() - 1 {
                assert(init[i] == ns[i]);
            }
        }
    }
}

/// The views of two lists joined are their views joined.
pub proof fn lemma_node_views_append(a: Seq<CategoryNode>, b: Seq<CategoryNode>)
    ensures
        node_views(a + b) == node_views(a) + node_views(b),
{
    lemma_node_views(a);
    lemma_node_views(b);
    lemma_node_views(a + b);
    assert(node_views(a + b) =~= node_views(a) + node_views(b));
}

/// A node and everything below it, depth first, each with the names of the
/// nodes above it.
pub open spec fn walked(n: CategoryNode, above: Seq<Seq<char>>) -> Seq<(CategoryNode, Seq<Seq<char>>)>
    decreases n, 1nat,
{
    seq![(n, above)] + walked_list(n.children@, above.push(n.name@))
}

/// Each of a list of siblings walked in turn, under the same names.
pub open spec fn walked_list(ns: Seq<CategoryNode>, above: Seq<Seq<char>>) -> Seq<
    (CategoryNode, Seq<Seq<char>>),
>
    decreases ns, 0nat,
{
    if ns.len() == 0 {
        Seq::empty()
    } else {
        walked_list(ns.subrange(0, ns.len() - 1), above) + walked(ns[ns.len() - 1], above)
    }
}

/// The entries of a walk, by the characters of their paths.
pub open spec fn walk_view(v: Seq<(&CategoryNode, Vec<String>)>) -> Seq<(CategoryNode, Seq<Seq<char>>)> {
    v.map_values(|e: (&CategoryNode, Vec<String>)| (*e.0, strs(e.1@)))
}

/// The first node at or below `n` whose code matches, ignoring ASCII case,
/// depth first.
pub open spec fn found(n: CategoryNode, code: Seq<char>) -> Option<CategoryNode>
    decreases n, 1nat,
{
    if eq_ignore_case(n.code@, code) {
        Some(n)
    } else {
        found_list(n.children@, code)
    }
}

/// The first match among siblings, in order.
pub open spec fn found_list(ns: Seq<CategoryNode>, code: Seq<char>) -> Option<CategoryNode>
    decreases ns, 0nat,
{
    if ns.len() == 0 {
        None
    } else {
        match found_list(ns.subrange(0, ns.len() - 1), code) {
            Some(m) => Some(m),
            None => found(ns[ns.len() - 1], code),
        }
    }
}

/// A copy of a list of strings.
fn copy_strings(v: &Vec<String>) -> (r: Vec<String>)
    ensures
        strs(r@) == strs(v@),
{
    let mut r: Vec<String> = Vec::new();
    let mut i: usize = 0;
    while i < v.len()
        invariant
            i <= v.len(),
            strs(r@) == strs(v@).take(i as int),
        decreases v.len() - i,
    {
        let s = v[i].clone();
        let ghost before = r@;
        r.push(s);
        proof {
            assert(strs(r@) =~= strs(before).push(s@));
            assert(strs(v@).take(i + 1) =~= strs(v@).take(i as int).push(v@[i as int]@));
        }
        i += 1;
    }
    assert(strs(v@).take(v.len() as int) =~= strs(v@));
    r
}

impl CategoryNode {
    /// Which `categoryID.lvlN` field in the search index holds a code.
    pub fn level_of(code: &str) -> (r: Option<u8>)
        ensures
            r == level_of_code(code@),
    {
        let cs = chars_of(code);
        if cs.len() < 2 || upper_char_exec(cs[0]) != 'R' {
            return None;
        }
        let second = upper_char_exec(cs[1]);
        if second == 'D' {
            Some(0)
        } else if second == 'S' {
            Some(1)
        } else if second == 'F' {
            Some(2)
        } else if second == 'C' {
            Some(3)
        } else {
            None
        }
    }

    /// Which `categoryID.lvlN` field holds this node's code.
    pub fn level(&self) -> (r: Option<u8>)
        ensures
            r == level_of_code(self.code@),
    {
        CategoryNode::level_of(self.code.as_str())
    }

    /// Every node, depth first, with the path of names taken to reach it.
    pub fn walk(&self) -> (r: Vec<(&CategoryNode, Vec<String>)>)
        ensures
            walk_view(r@) == walked(*self, Seq::empty()),
    {
        let mut out: Vec<(&CategoryNode, Vec<String>)> = Vec::new();
        let mut path: Vec<String> = Vec::new();
        assert(strs(path@) =~= Seq::<Seq<char>>::empty());
        self.walk_inner(&mut path, &mut out);
        assert(walk_view(out@) =~= walk_view(Seq::empty()) + walked(*self, Seq::empty()));
        out
    }

    fn walk_inner<'a>(&'a self, path: &mut Vec<String>, out: &mut Vec<(&'a CategoryNode, Vec<String>)>)
        ensures
            strs(final(path)@) == strs(old(path)@),
            walk_view(final(out)@) == walk_view(old(out)@) + walked(*self, strs(old(path)@)),
        decreases self,
    {
        let ghost names = strs(path@);
        let ghost start = walk_view(out@);
        let here = copy_strings(path);
        out.push((self, here));
        assert(walk_view(out@) =~= start + seq![(*self, names)]);
        let name = self.name.clone();
        path.push(name);
        let ghost below = strs(path@);
        assert(below =~= names.push(self.name@));
        let mut i: usize = 0;
        assert(self.children@.subrange(0, 0) =~= Seq::<CategoryNode>::empty());
        while i < self.children.len()
            invariant
                i <= self.children.len(),
                strs(path@) == below,
                below == names.push(self.name@),
                walk_view(out@) == start + seq![(*self, names)] + walked_list(
                    self.children@.subrange(0, i as int),
                    below,
                ),
            decreases self.children.len() - i,
        {
            proof {
                let cs = self.children@.subrange(0, i + 1);
                assert(cs.subrange(0, cs.len() - 1) =~= self.children@.subrange(0, i as int));
                assert(cs[cs.len() - 1] == self.children@[i as int]);
            }
            self.children[i].walk_inner(path, out);
            assert(walk_view(out@) =~= start + seq![(*self, names)] + walked_list(
                self.children@.subrange(0, i + 1),
                below,
            ));
            i += 1;
        }
        assert(self.children@.subrange(0, self.children.len() as int) =~= self.children@);
        let ghost pre = path@;
        let _ = path.pop();
        proof {
            assert(path@ =~= pre.drop_last());
            assert(strs(pre).drop_last() =~= names);
            assert(strs(path@) =~= strs(pre).drop_last());
        }
        assert(walk_view(out@) =~= start + walked(*self, names));
    }

    /// The first node with this code, anywhere beneath here, ignoring ASCII
    /// case.
    pub fn find(&self, code: &str) -> (r: Option<&CategoryNode>)
        ensures
            match r {
                Some(n) => found(*self, code@) == Some(*n),
                None => found(*self, code@) is None,
            },
        decreases self,
    {
        let mine = chars_of(self.code.as_str());
        let wanted = chars_of(code);
        if same_ignore_case(&mine, &wanted) {
            return Some(self);
        }
        let mut i: usize = 0;
        assert(self.children@.subrange(0, 0) =~= Seq::<CategoryNode>::empty());
        while i < self.children.len()
            invariant
                i <= self.children.len(),
                found_list(self.children@.subrange(0, i as int), code@) is None,
                !eq_ignore_case(self.code@, code@),
            decreases self.children.len() - i,
        {
            proof {
                let cs = self.children@.subrange(0, i + 1);
                assert(cs.subrange(0, cs.len() - 1) =~= self.children@.subrange(0, i as int));
                assert(cs[cs.len() - 1] == self.children@[i as int]);
            }
            match self.children[i].find(code) {
                Some(n) => {
                    proof {
                        let cs = self.children@.subrange(0, i + 1);
                        assert(found_list(cs, code@) == Some(*n));
                        assert(self.children@.subrange(0, self.children.len() as int)
                            =~= self.children@);
                        lemma_found_list_extends(self.children@, i + 1, code@);
                    }
                    return Some(n);
                },
                None => {},
            }
            i += 1;
        }
        assert(self.children@.subrange(0, self.children.len() as int) =~= self.children@);
        None
    }
}

/// A match among the first siblings is the match among them all.
pub proof fn lemma_found_list_extends(ns: Seq<CategoryNode>, k: int, code: Seq<char>)
    requires
        0 <= k <= ns.len(),
        found_list(ns.subrange(0, k), code) is Some,
    ensures
        found_list(ns, code) == found_list(ns.subrange(0, k), code),
    decreases ns.len() - k,
{
    if k < ns.len() {
        let next = ns.subrange(0, k + 1);
        assert(next.subrange(0, next.len() - 1) =~= ns.subrange(0, k));
        lemma_found_list_extends(ns, k + 1, code);
    } else {
        assert(ns.subrange(0, k) =~= ns);
    }
}

impl Default for CategoryNode {
    /// A nameless leaf with no code.
    fn default() -> (n: CategoryNode)
        ensures
            n.code@.len() == 0,
            n.name@.len() == 0,
            n.url is None,
            n.children@.len() == 0,
    {
        CategoryNode { code: String::new(), name: String::new(), url: None, children: Vec::new() }
    }
}


/// Which handle a cart is addressed by: anonymous paths take the guid and
/// signed-in paths the code, and a cart with only one uses it either way.
pub open spec fn cart_handle_of(code: Option<Seq<char>>, guid: Option<Seq<char>>, signed_in: bool) -> Option<Seq<char>> {
    let (first, then) = if signed_in {
        (code, guid)
    } else {
        (guid, code)
    };
    match first {
        Some(x) => Some(x),
        None => then,
    }
}

/// The handle a cart is addressed by, for a caller signed in or not.
pub fn cart_handle<'a>(code: Option<&'a str>, guid: Option<&'a str>, signed_in: bool) -> (r: Option<&'a str>)
    ensures
        match r {
            Some(h) => cart_handle_of(
                match code {
                    Some(c) => Some(c@),
                    None => None,
                },
                match guid {
                    Some(g) => Some(g@),
                    None => None,
                },
                signed_in,
            ) == Some(h@),
            None => code is None && guid is None,
        },
{
    let (first, then) = if signed_in {
        (code, guid)
    } else {
        (guid, code)
    };
    match first {
        Some(x) => Some(x),
        None => then,
    }
}

/// The zero-based position of a page's first product, for a caller printing
/// `25-48 of 173`.
pub fn page_offset(page: u64, page_size: u64) -> (r: u64)
    requires
        page * page_size <= u64::MAX,
    ensures
        r == page * page_size,
{
    page * page_size
}

/// Whether there is a page after this one.
pub fn has_more_pages(page: u64, pages: u64) -> (r: bool)
    requires
        page < u64::MAX,
    ensures
        r == (page + 1 < pages),
{
    page + 1 < pages
}

/// Whether a store is among the numeric codes the index lists.
pub fn stocked_at(stores: &Vec<String>, store: &str) -> (r: bool)
    ensures
        r == exists|i: int| 0 <= i < stores@.len() && #[trigger] stores@[i]@ == store@,
{
    let mut i: usize = 0;
    while i < stores.len()
        invariant
            i <= stores.len(),
            forall|j: int| 0 <= j < i ==> #[trigger] stores@[j]@ != store@,
        decreases stores.len() - i,
    {
        if eq_str(stores[i].as_str(), store) {
            return true;
        }
        i += 1;
    }
    false
}

/// Whether position `x` is among the positions of an order.
pub open spec fn placed(order: Seq<usize>, x: int) -> bool {
    exists|i: int| 0 <= i < order.len() && order[i] == x
}

/// Whether line `a` comes before line `b`: by number, and where two carry
/// the same number, in the order they arrived.
pub open spec fn line_before(numbers: Seq<i64>, a: int, b: int) -> bool {
    numbers[a] < numbers[b] || (numbers[a] == numbers[b] && a < b)
}

/// The order to show cart lines in, by the line numbers the storefront gave
/// them: positions into `numbers`, sorted by number, lines with one number
/// kept in the order they arrived. The storefront answers with the line just
/// changed first, and the lines are numbered, so they are shown numbered.
#[verifier::rlimit(40)]
pub fn line_order(numbers: &Vec<i64>) -> (order: Vec<usize>)
    ensures
        order@.len() == numbers@.len(),
        forall|i: int| 0 <= i < order@.len() ==> order@[i] < numbers@.len(),
        forall|x: int| 0 <= x < numbers@.len() ==> #[trigger] placed(order@, x),
        forall|i: int, j: int|
            0 <= i < j < order@.len() ==> line_before(numbers@, order@[i] as int, order@[j] as int),
{
    let mut order: Vec<usize> = Vec::new();
    let mut k: usize = 0;
    while k < numbers.len()
        invariant
            k <= numbers.len(),
            order@.len() == k,
            forall|i: int| 0 <= i < order@.len() ==> order@[i] < k,
            forall|x: int| 0 <= x < k ==> #[trigger] placed(order@, x),
            forall|i: int, j: int|
                0 <= i < j < order@.len() ==> line_before(numbers@, order@[i] as int, order@[j] as int),
        decreases numbers.len() - k,
    {
        let key = numbers[k];
        let mut p: usize = 0;
        while p < order.len() && numbers[order[p]] <= key
            invariant
                p <= order.len(),
                order@.len() == k,
                k < numbers.len(),
                key == numbers@[k as int],
                forall|i: int| 0 <= i < order@.len() ==> order@[i] < k,
                forall|i: int| 0 <= i < p ==> numbers@[#[trigger] order@[i] as int] <= key,
            decreases order.len() - p,
        {
            p += 1;
        }
        proof {
            assert forall|i: int| p <= i < order@.len() implies numbers@[#[trigger] order@[i] as int] > key by {
                if p < order@.len() {
                    assert(numbers@[order@[p as int] as int] > key);
                    if i > p {
                        assert(line_before(numbers@, order@[p as int] as int, order@[i] as int));
                    }
                }
            }
        }
        let ghost before = order@;
        order.insert(p, k);
        proof {
            before.insert_ensures(p as int, k);
            assert forall|x: int| 0 <= x < k + 1 implies #[trigger] placed(order@, x) by {
                if x == k {
                    assert(order@[p as int] == x);
                } else {
                    assert(placed(before, x));
                    let w = choose|i: int| 0 <= i < before.len() && before[i] == x;
                    if w < p {
                        assert(order@[w] == x);
                    } else {
                        assert(order@[w + 1] == x);
                    }
                }
            }
            assert forall|i: int| 0 <= i < order@.len() implies order@[i] < k + 1 by {
                if i < p {
                    assert(order@[i] == before[i]);
                } else if i > p {
                    assert(order@[i] == before[i - 1]);
                }
            }
            assert forall|i: int, j: int|
                0 <= i < j < order@.len() implies line_before(
                numbers@,
                order@[i] as int,
                order@[j] as int,
            ) by {
                if j < p {
                    assert(order@[i] == before[i] && order@[j] == before[j]);
                } else if j == p {
                    assert(order@[i] == before[i]);
                    assert(numbers@[before[i] as int] <= key);
                } else if i < p {
                    assert(order@[i] == before[i] && order@[j] == before[j - 1]);
                } else if i == p {
                    assert(order@[j] == before[j - 1]);
                    assert(numbers@[before[j - 1] as int] > key);
                } else {
                    assert(order@[i] == before[i - 1] && order@[j] == before[j - 1]);
                }
            }
        }
        k += 1;
    }
    order
}

/// Whether facet entry `a` ranks before `b`: the larger count first, then
/// the value in text order, then the order they arrived in.
pub open spec fn ranks_before(counts: Seq<u64>, values: Seq<Seq<char>>, a: int, b: int) -> bool {
    ||| counts[a] > counts[b]
    ||| counts[a] == counts[b] && less(values[a], values[b])
    ||| counts[a] == counts[b] && values[a] == values[b] && a < b
}

/// Of two different entries, exactly one ranks first, and ranking is
/// transitive.
proof fn lemma_ranking(counts: Seq<u64>, values: Seq<Seq<char>>, a: int, b: int, c: int)
    ensures
        a != b ==> (ranks_before(counts, values, a, b) || ranks_before(counts, values, b, a)),
        !(ranks_before(counts, values, a, b) && ranks_before(counts, values, b, a)),
        ranks_before(counts, values, a, b) && ranks_before(counts, values, b, c) ==> ranks_before(
            counts,
            values,
            a,
            c,
        ),
{
    lemma_less_total(values[a], values[b]);
    lemma_less_total(values[b], values[c]);
    lemma_less_total(values[a], values[c]);
    lemma_less_irreflexive(values[a]);
    if less(values[a], values[b]) && less(values[b], values[c]) {
        lemma_less_transitive(values[a], values[b], values[c]);
    }
}

/// The order to show facet entries in, given their counts and values:
/// positions into both, the largest count first, then by value in text
/// order, entries alike in both kept in the order they arrived. Counts that
/// are all equal order by value alone.
pub fn facet_order(counts: &Vec<u64>, values: &Vec<String>) -> (order: Vec<usize>)
    requires
        counts@.len() == values@.len(),
    ensures
        order@.len() == counts@.len(),
        forall|i: int| 0 <= i < order@.len() ==> order@[i] < counts@.len(),
        forall|x: int| 0 <= x < counts@.len() ==> #[trigger] placed(order@, x),
        forall|i: int, j: int|
            0 <= i < j < order@.len() ==> ranks_before(
                counts@,
                strs(values@),
                order@[i] as int,
                order@[j] as int,
            ),
{
    let ghost vs = strs(values@);
    let mut order: Vec<usize> = Vec::new();
    let mut k: usize = 0;
    while k < counts.len()
        invariant
            k <= counts.len(),
            counts@.len() == values@.len(),
            vs == strs(values@),
            order@.len() == k,
            forall|i: int| 0 <= i < order@.len() ==> order@[i] < k,
            forall|x: int| 0 <= x < k ==> #[trigger] placed(order@, x),
            forall|i: int, j: int|
                0 <= i < j < order@.len() ==> ranks_before(counts@, vs, order@[i] as int, order@[j] as int),
        decreases counts.len() - k,
    {
        let kv = chars_of(values[k].as_str());
        let mut p: usize = 0;
        loop
            invariant
                p <= order.len(),
                order@.len() == k,
                k < counts.len(),
                counts@.len() == values@.len(),
                vs == strs(values@),
                kv@ == vs[k as int],
                forall|i: int| 0 <= i < order@.len() ==> order@[i] < k,
                forall|i: int| 0 <= i < p ==> ranks_before(counts@, vs, #[trigger] order@[i] as int, k as int),
            ensures
                p <= order.len(),
                forall|i: int| 0 <= i < p ==> ranks_before(counts@, vs, #[trigger] order@[i] as int, k as int),
                p < order.len() ==> !ranks_before(counts@, vs, order@[p as int] as int, k as int),
            decreases order.len() - p,
        {
            if p >= order.len() {
                break;
            }
            let x = order[p];
            let first = if counts[x] != counts[k] {
                counts[x] > counts[k]
            } else {
                let xv = chars_of(values[x].as_str());
                proof {
                    lemma_less_total(vs[x as int], vs[k as int]);
                }
                less_exec(&xv, &kv) || (crate::text::same(&xv, &kv))
            };
            proof {
                assert(vs[x as int] == values@[x as int]@);
                lemma_ranking(counts@, vs, x as int, k as int, k as int);
            }
            if !first {
                break;
            }
            p += 1;
        }
        proof {
            assert forall|i: int| p <= i < order@.len() implies ranks_before(
                counts@,
                vs,
                k as int,
                #[trigger] order@[i] as int,
            ) by {
                let x = order@[p as int] as int;
                lemma_ranking(counts@, vs, x, k as int, k as int);
                if i > p {
                    lemma_ranking(counts@, vs, k as int, x, order@[i] as int);
                }
            }
        }
        let ghost before = order@;
        order.insert(p, k);
        proof {
            before.insert_ensures(p as int, k);
            assert forall|x: int| 0 <= x < k + 1 implies #[trigger] placed(order@, x) by {
                if x == k {
                    assert(order@[p as int] == x);
                } else {
                    assert(placed(before, x));
                    let w = choose|i: int| 0 <= i < before.len() && before[i] == x;
                    if w < p {
                        assert(order@[w] == x);
                    } else {
                        assert(order@[w + 1] == x);
                    }
                }
            }
            assert forall|i: int| 0 <= i < order@.len() implies order@[i] < k + 1 by {
                if i < p {
                    assert(order@[i] == before[i]);
                } else if i > p {
                    assert(order@[i] == before[i - 1]);
                }
            }
            assert forall|i: int, j: int|
                0 <= i < j < order@.len() implies ranks_before(
                counts@,
                vs,
                order@[i] as int,
                order@[j] as int,
            ) by {
                if j < p {
                    assert(order@[i] == before[i] && order@[j] == before[j]);
                } else if j == p {
                    assert(order@[i] == before[i]);
                } else if i < p {
                    assert(order@[i] == before[i] && order@[j] == before[j - 1]);
                } else if i == p {
                    assert(order@[j] == before[j - 1]);
                } else {
                    assert(order@[i] == before[i - 1] && order@[j] == before[j - 1]);
                }
            }
        }
        k += 1;
    }
    order
}

} // verus!
