//! A shop, a cart, an order and the saved list, as the OCC API describes
//! them.
//!
//! Their amounts, quantities, counts and coordinates are decimal numbers the
//! caller reads; everything else on each record is read here.

use vstd::prelude::*;
use crate::json::{field, first_text_at, text_at, truth_at, Json};
use crate::mitre10::domain::Address;
use crate::mitre10::listing::or_blank;
use crate::mitre10::wire::{
    address, address_of, address_view, either, entities, entities_of, first_of2, items_at, items_of,
    str_of,
};
use crate::text::{opt_str, strs};

verus! {

/// A shop, less its coordinates.
#[derive(Clone, Debug)]
pub struct Store {
    /// The numeric code every other call takes.
    pub code: String,
    /// The SAP code, which only a product's preferred store carries.
    pub sap_code: Option<String>,
    pub name: String,
    pub address: Option<Address>,
    pub phone: Option<String>,
    pub email: Option<String>,
    pub postcode_group: Option<String>,
    pub today_hours: Option<String>,
    pub express_delivery: bool,
}

/// A member of the record under another member, where both are there.
pub open spec fn text_under(v: Json, outer: Seq<char>, key: Seq<char>) -> Option<Seq<char>> {
    match field(v, outer) {
        Some(o) => text_at(o, key),
        None => None,
    }
}

/// The first of several names that reads as text in the record under a
/// member.
pub open spec fn first_under(v: Json, outer: Seq<char>, keys: Seq<Seq<char>>) -> Option<Seq<char>> {
    match field(v, outer) {
        Some(o) => first_text_at(o, keys),
        None => None,
    }
}

/// Whether `s` is the shop record `v` describes: `name` is the numeric code
/// on this endpoint and `displayName` the human name.
pub open spec fn store_of(v: Json, s: Store) -> bool {
    &&& s.code@ == or_blank(first_text_at(v, seq!["staticStoreCode"@, "name"@]))
    &&& opt_str(s.sap_code) == text_at(v, "storeCode"@)
    &&& s.name@ == or_blank(first_text_at(v, seq!["displayName"@, "name"@]))
    &&& match (s.address, field(v, "address"@)) {
        (Some(a), Some(x)) => address_view(a) == address_of(x),
        (None, None) => true,
        _ => false,
    }
    &&& opt_str(s.phone) == text_under(v, "address"@, "phone"@)
    &&& opt_str(s.email) == text_under(v, "address"@, "email"@)
    &&& opt_str(s.postcode_group) == text_at(v, "postcodeGroup"@)
    &&& opt_str(s.today_hours) == first_under(
        v,
        "todayOpeningHours"@,
        seq!["formattedHour"@, "openingTime"@],
    )
    &&& s.express_delivery == (truth_at(v, "expressDeliveryEnabled"@) == Some(true))
}

/// One shop.
pub fn store(v: &Json) -> (s: Store)
    ensures
        store_of(*v, s),
{
    let (addr, phone, email) = match v.get("address") {
        Some(a) => (Some(address(a)), str_of(a, "phone"), str_of(a, "email")),
        None => (None, None, None),
    };
    let today_hours = match v.get("todayOpeningHours") {
        Some(h) => first_of2(h, "formattedHour", "openingTime"),
        None => None,
    };
    let express_delivery = match crate::mitre10::wire::bool_of(v, "expressDeliveryEnabled") {
        Some(b) => b,
        None => false,
    };
    Store {
        code: or_empty(first_of2(v, "staticStoreCode", "name")),
        sap_code: str_of(v, "storeCode"),
        name: or_empty(first_of2(v, "displayName", "name")),
        address: addr,
        phone,
        email,
        postcode_group: str_of(v, "postcodeGroup"),
        today_hours,
        express_delivery,
    }
}

/// A text, or the empty one.
fn or_empty(t: Option<String>) -> (r: String)
    ensures
        r@ == or_blank(opt_str(t)),
{
    match t {
        Some(s) => s,
        None => String::new(),
    }
}

/// The shop records an answer lists: `myStoreList`, else `stores`.
pub open spec fn store_records(v: Json) -> Seq<Json> {
    match field(v, "myStoreList"@) {
        Some(Json::Array(ss)) => ss@,
        Some(_) => Seq::empty(),
        None => items_at(v, "stores"@),
    }
}

/// The shop records an answer lists.
pub fn store_list(v: &Json) -> (r: Option<&Vec<Json>>)
    ensures
        match r {
            Some(ss) => ss@ == store_records(*v),
            None => store_records(*v) == Seq::<Json>::empty(),
        },
{
    match v.get("myStoreList") {
        Some(Json::Array(ss)) => Some(ss),
        Some(_) => None,
        None => items_of(v, "stores"),
    }
}

/// The shops an answer lists, in order.
pub fn stores(v: &Json) -> (r: Vec<Store>)
    ensures
        r@.len() == store_records(*v).len(),
        forall|i: int| 0 <= i < r@.len() ==> store_of(store_records(*v)[i], #[trigger] r@[i]),
{
    let mut out: Vec<Store> = Vec::new();
    let list = match store_list(v) {
        Some(ss) => ss,
        None => return out,
    };
    let mut i: usize = 0;
    while i < list.len()
        invariant
            i <= list.len(),
            list@ == store_records(*v),
            out@.len() == i,
            forall|j: int| 0 <= j < i ==> store_of(list@[j], #[trigger] out@[j]),
        decreases list.len() - i,
    {
        out.push(store(&list[i]));
        i += 1;
    }
    out
}

/// One line of a cart, less its number, quantity and amounts.
#[derive(Clone, Debug)]
pub struct CartLine {
    pub code: String,
    pub name: String,
    pub url: Option<String>,
    pub pickup_store: Option<String>,
    pub updateable: bool,
}

/// Whether `l` is the cart entry `v` describes; a line is updateable unless
/// it says otherwise.
pub open spec fn cart_line_of(v: Json, l: CartLine) -> bool {
    &&& l.code@ == or_blank(text_under(v, "product"@, "code"@))
    &&& l.name@ == or_blank(first_under(v, "product"@, seq!["name"@, "title"@]))
    &&& opt_str(l.url) == text_under(v, "product"@, "url"@)
    &&& opt_str(l.pickup_store) == first_under(
        v,
        "deliveryPointOfService"@,
        seq!["displayName"@, "name"@],
    )
    &&& l.updateable == match truth_at(v, "updateable"@) {
        Some(b) => b,
        None => true,
    }
}

/// One cart entry.
pub fn cart_line(v: &Json) -> (l: CartLine)
    ensures
        cart_line_of(*v, l),
{
    let (code, name, url) = match v.get("product") {
        Some(p) => (str_of(p, "code"), first_of2(p, "name", "title"), str_of(p, "url")),
        None => (None, None, None),
    };
    let pickup_store = match v.get("deliveryPointOfService") {
        Some(p) => first_of2(p, "displayName", "name"),
        None => None,
    };
    let updateable = match crate::mitre10::wire::bool_of(v, "updateable") {
        Some(b) => b,
        None => true,
    };
    CartLine { code: or_empty(code), name: or_empty(name), url, pickup_store, updateable }
}

/// How a cart is to be delivered, less what it costs.
#[derive(Clone, Debug)]
pub struct Delivery {
    pub code: Option<String>,
    pub name: Option<String>,
}

/// A cart, less its counts and amounts; its lines in the order sent.
#[derive(Clone, Debug)]
pub struct Cart {
    pub code: Option<String>,
    pub guid: Option<String>,
    pub delivery: Option<Delivery>,
    pub lines: Vec<CartLine>,
    pub vouchers: Vec<String>,
    pub pickup_store: Option<String>,
}

/// The first of several names each item reads as text under, skipping the
/// items with none.
pub open spec fn first_texts_in(items: Seq<Json>, keys: Seq<Seq<char>>) -> Seq<Seq<char>>
    decreases items.len(),
{
    if items.len() == 0 {
        Seq::empty()
    } else {
        let rest = first_texts_in(items.drop_last(), keys);
        match first_text_at(items.last(), keys) {
            Some(t) => rest.push(t),
            None => rest,
        }
    }
}

/// The delivery mode's name, with its entities decoded.
pub open spec fn delivery_name(d: Json) -> Option<Seq<char>> {
    match text_at(d, "name"@) {
        Some(n) => Some(entities_of(n)),
        None => None,
    }
}

/// Whether `c` is the cart `v` describes.
pub open spec fn cart_of(v: Json, c: Cart) -> bool {
    &&& opt_str(c.code) == text_at(v, "code"@)
    &&& opt_str(c.guid) == text_at(v, "guid"@)
    &&& match (c.delivery, field(v, "deliveryMode"@)) {
        (Some(d), Some(m)) => opt_str(d.code) == text_at(m, "code"@) && opt_str(d.name)
            == delivery_name(m),
        (None, None) => true,
        _ => false,
    }
    &&& c.lines@.len() == items_at(v, "entries"@).len()
    &&& forall|i: int| 0 <= i < c.lines@.len() ==> cart_line_of(items_at(v, "entries"@)[i], #[trigger] c.lines@[i])
    &&& strs(c.vouchers@) == first_texts_in(items_at(v, "appliedVouchers"@), seq!["code"@, "voucherCode"@])
    &&& opt_str(c.pickup_store) == either(
        first_under(v, "pickupLocation"@, seq!["displayName"@, "name"@]),
        text_at(v, "ctccollectToStoreDisplayName"@),
    )
}

/// The voucher codes a cart carries.
fn vouchers(v: &Json) -> (r: Vec<String>)
    ensures
        strs(r@) == first_texts_in(items_at(*v, "appliedVouchers"@), seq!["code"@, "voucherCode"@]),
{
    let mut out: Vec<String> = Vec::new();
    let items = match items_of(v, "appliedVouchers") {
        Some(items) => items,
        None => {
            assert(strs(out@) =~= Seq::<Seq<char>>::empty());
            return out;
        },
    };
    let ghost keys = seq!["code"@, "voucherCode"@];
    let mut i: usize = 0;
    assert(strs(out@) =~= first_texts_in(items@.take(0), keys));
    while i < items.len()
        invariant
            i <= items.len(),
            keys == seq!["code"@, "voucherCode"@],
            strs(out@) == first_texts_in(items@.take(i as int), keys),
        decreases items.len() - i,
    {
        assert(items@.take(i + 1).drop_last() =~= items@.take(i as int));
        assert(items@.take(i + 1).last() == items@[i as int]);
        match first_of2(&items[i], "code", "voucherCode") {
            Some(t) => {
                let ghost before = out@;
                out.push(t);
                assert(strs(out@) =~= strs(before).push(t@));
            },
            None => {},
        }
        i += 1;
    }
    assert(items@.take(items.len() as int) =~= items@);
    out
}

/// A cart, less its counts and amounts.
pub fn cart(v: &Json) -> (c: Cart)
    ensures
        cart_of(*v, c),
{
    let delivery = match v.get("deliveryMode") {
        Some(d) => {
            let name = match str_of(d, "name") {
                Some(n) => Some(entities(n.as_str())),
                None => None,
            };
            Some(Delivery { code: str_of(d, "code"), name })
        },
        None => None,
    };
    let mut lines: Vec<CartLine> = Vec::new();
    match items_of(v, "entries") {
        Some(es) => {
            let mut i: usize = 0;
            while i < es.len()
                invariant
                    i <= es.len(),
                    es@ == items_at(*v, "entries"@),
                    lines@.len() == i,
                    forall|j: int| 0 <= j < i ==> cart_line_of(es@[j], #[trigger] lines@[j]),
                decreases es.len() - i,
            {
                lines.push(cart_line(&es[i]));
                i += 1;
            }
        },
        None => {},
    }
    let pickup_store = match v.get("pickupLocation") {
        Some(p) => match first_of2(p, "displayName", "name") {
            Some(s) => Some(s),
            None => str_of(v, "ctccollectToStoreDisplayName"),
        },
        None => str_of(v, "ctccollectToStoreDisplayName"),
    };
    Cart {
        code: str_of(v, "code"),
        guid: str_of(v, "guid"),
        delivery,
        lines,
        vouchers: vouchers(v),
        pickup_store,
    }
}

/// One line of an order, less its quantity and amount.
#[derive(Clone, Debug)]
pub struct OrderLine {
    pub code: String,
    pub name: String,
}

/// An order, less its total.
#[derive(Clone, Debug)]
pub struct Order {
    pub code: String,
    pub placed: Option<String>,
    pub status: Option<String>,
    pub lines: Vec<OrderLine>,
}

/// Whether `l` is the order entry `e` describes.
pub open spec fn order_line_of(e: Json, l: OrderLine) -> bool {
    &&& l.code@ == or_blank(text_under(e, "product"@, "code"@))
    &&& l.name@ == or_blank(first_under(e, "product"@, seq!["name"@, "title"@]))
}

/// Whether `o` is the order `v` describes.
pub open spec fn order_of(v: Json, o: Order) -> bool {
    &&& o.code@ == or_blank(first_text_at(v, seq!["code"@, "guid"@]))
    &&& opt_str(o.placed) == first_text_at(v, seq!["placed"@, "created"@])
    &&& opt_str(o.status) == first_text_at(v, seq!["statusDisplay"@, "status"@])
    &&& o.lines@.len() == items_at(v, "entries"@).len()
    &&& forall|i: int| 0 <= i < o.lines@.len() ==> order_line_of(items_at(v, "entries"@)[i], #[trigger] o.lines@[i])
}

/// One order.
pub fn order(v: &Json) -> (o: Order)
    ensures
        order_of(*v, o),
{
    let mut lines: Vec<OrderLine> = Vec::new();
    match items_of(v, "entries") {
        Some(es) => {
            let mut i: usize = 0;
            while i < es.len()
                invariant
                    i <= es.len(),
                    es@ == items_at(*v, "entries"@),
                    lines@.len() == i,
                    forall|j: int| 0 <= j < i ==> order_line_of(es@[j], #[trigger] lines@[j]),
                decreases es.len() - i,
            {
                let (code, name) = match es[i].get("product") {
                    Some(p) => (str_of(p, "code"), first_of2(p, "name", "title")),
                    None => (None, None),
                };
                lines.push(OrderLine { code: or_empty(code), name: or_empty(name) });
                i += 1;
            }
        },
        None => {},
    }
    Order {
        code: or_empty(first_of2(v, "code", "guid")),
        placed: first_of2(v, "placed", "created"),
        status: first_of2(v, "statusDisplay", "status"),
        lines,
    }
}

/// The orders of a page of the history, in order.
pub fn orders(v: &Json) -> (r: Vec<Order>)
    ensures
        r@.len() == items_at(*v, "orders"@).len(),
        forall|i: int| 0 <= i < r@.len() ==> order_of(items_at(*v, "orders"@)[i], #[trigger] r@[i]),
{
    let mut out: Vec<Order> = Vec::new();
    let list = match items_of(v, "orders") {
        Some(os) => os,
        None => return out,
    };
    let mut i: usize = 0;
    while i < list.len()
        invariant
            i <= list.len(),
            list@ == items_at(*v, "orders"@),
            out@.len() == i,
            forall|j: int| 0 <= j < i ==> order_of(list@[j], #[trigger] out@[j]),
        decreases list.len() - i,
    {
        out.push(order(&list[i]));
        i += 1;
    }
    out
}

/// A product on the saved list, less its price.
#[derive(Clone, Debug)]
pub struct WishlistItem {
    pub code: String,
    pub name: String,
    pub url: Option<String>,
}

/// The entries of the saved list: `entries`, else `wishlistEntries`.
pub open spec fn saved_entries(v: Json) -> Seq<Json> {
    match field(v, "entries"@) {
        Some(Json::Array(es)) => es@,
        Some(_) => Seq::empty(),
        None => items_at(v, "wishlistEntries"@),
    }
}

/// The product record an entry describes: its `product`, else the entry.
pub open spec fn saved_product(e: Json) -> Json {
    match field(e, "product"@) {
        Some(p) => p,
        None => e,
    }
}

/// The product records of the entries that name a code, in order.
pub open spec fn coded_products(es: Seq<Json>) -> Seq<Json>
    decreases es.len(),
{
    if es.len() == 0 {
        Seq::empty()
    } else {
        let rest = coded_products(es.drop_last());
        if text_at(saved_product(es.last()), "code"@) is Some {
            rest.push(saved_product(es.last()))
        } else {
            rest
        }
    }
}

/// Whether `w` is the saved product `p` describes.
pub open spec fn saved_item_of(p: Json, w: WishlistItem) -> bool {
    &&& Some(w.code@) == text_at(p, "code"@)
    &&& w.name@ == or_blank(first_text_at(p, seq!["name"@, "title"@]))
    &&& opt_str(w.url) == text_at(p, "url"@)
}

/// Borrowed records by what they hold.
pub open spec fn held(v: Seq<&Json>) -> Seq<Json> {
    v.map_values(|r: &Json| *r)
}

/// The saved list's product records that become items, in order: the ones
/// with a code.
pub fn saved_products(v: &Json) -> (r: Vec<&Json>)
    ensures
        held(r@) == coded_products(saved_entries(*v)),
{
    let mut out: Vec<&Json> = Vec::new();
    let es: &Vec<Json> = match v.get("entries") {
        Some(Json::Array(es)) => es,
        Some(_) => {
            assert(held(out@) =~= coded_products(Seq::<Json>::empty()));
            return out;
        },
        None => match items_of(v, "wishlistEntries") {
            Some(es) => es,
            None => {
                assert(held(out@) =~= coded_products(Seq::<Json>::empty()));
                return out;
            },
        },
    };
    let mut i: usize = 0;
    assert(held(out@) =~= coded_products(es@.take(0)));
    while i < es.len()
        invariant
            i <= es.len(),
            es@ == saved_entries(*v),
            held(out@) == coded_products(es@.take(i as int)),
        decreases es.len() - i,
    {
        assert(es@.take(i + 1).drop_last() =~= es@.take(i as int));
        assert(es@.take(i + 1).last() == es@[i as int]);
        let e = &es[i];
        let p: &Json = match e.get("product") {
            Some(p) => p,
            None => e,
        };
        if str_of(p, "code").is_some() {
            let ghost before = out@;
            out.push(p);
            assert(held(out@) =~= held(before).push(*p));
        }
        i += 1;
    }
    assert(es@.take(es.len() as int) =~= es@);
    out
}

/// The saved list: one item for each entry whose product names a code.
pub fn wishlist(v: &Json) -> (r: Vec<WishlistItem>)
    ensures
        r@.len() == coded_products(saved_entries(*v)).len(),
        forall|i: int|
            0 <= i < r@.len() ==> saved_item_of(coded_products(saved_entries(*v))[i], #[trigger] r@[i]),
{
    let products = saved_products(v);
    let mut out: Vec<WishlistItem> = Vec::new();
    let mut i: usize = 0;
    while i < products.len()
        invariant
            i <= products.len(),
            held(products@) == coded_products(saved_entries(*v)),
            out@.len() == i,
            forall|j: int| 0 <= j < i ==> saved_item_of(*products@[j], #[trigger] out@[j]),
        decreases products.len() - i,
    {
        let p = products[i];
        proof {
            lemma_coded_products_have_codes(saved_entries(*v), i as int);
            assert(held(products@)[i as int] == *p);
        }
        let code = match str_of(p, "code") {
            Some(c) => c,
            None => String::new(),
        };
        out.push(WishlistItem { code, name: or_empty(first_of2(p, "name", "title")), url: str_of(p, "url") });
        i += 1;
    }
    out
}

/// Every product record the saved list keeps names a code.
proof fn lemma_coded_products_have_codes(es: Seq<Json>, i: int)
    requires
        0 <= i < coded_products(es).len(),
    ensures
        text_at(coded_products(es)[i], "code"@) is Some,
    decreases es.len(),
{
    if es.len() > 0 {
        let rest = coded_products(es.drop_last());
        if i < rest.len() {
            lemma_coded_products_have_codes(es.drop_last(), i);
        }
    }
}

} // verus!
