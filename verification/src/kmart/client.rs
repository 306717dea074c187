//! How the gateway's answers become a cart, a wishlist and a stock list.

use vstd::prelude::*;
use crate::kmart::domain::{
    Availability, Cart, CartLine, Customer, Postcode, Price, Store, StoreStock, TradingDay, Wishlist,
    WishlistItem,
};
use crate::kmart::error::{challenge_body, is_challenge_body, Error};
use crate::kmart::wire::{
    Attribute, AvailabilityData, CartBody, ChannelStock, CncStock, Custom, CustomerData, GqlEnvelope,
    LineItem, LinePrice, Location, LocationData, Money, PostcodeData, PostcodeSuggestion, ShippingInfo,
    TradingHours, WishlistBody, WishlistLine,
};
use crate::ordered::view_pairs;
use crate::text::{
    chars_of, contains, contains_exec, eq_str, extend_str, opt_str, owned, parse_u64, parse_u64_exec,
    string_of, strs, trim, trim_exec,
};

verus! {

/// The text of an optional string, or nothing.
pub open spec fn or_empty(s: Option<String>) -> Seq<char> {
    match s {
        Some(t) => t@,
        None => Seq::empty(),
    }
}

/// A count, or a default where it is missing.
pub open spec fn count_or(n: Option<i64>, d: i64) -> i64 {
    match n {
        Some(q) => q,
        None => d,
    }
}

/// The price an amount stands for, where it has one.
pub open spec fn price_of(m: Option<Money>) -> Option<Price> {
    match m {
        Some(money) => match money.cent_amount {
            Some(c) => Some(Price { cents: c }),
            None => None,
        },
        None => None,
    }
}

/// The shipping rate's price.
pub open spec fn shipping_price(s: Option<ShippingInfo>) -> Option<Price> {
    match s {
        Some(info) => match info.shipping_rate {
            Some(rate) => price_of(rate.price),
            None => None,
        },
        None => None,
    }
}

/// The shipping method's name.
pub open spec fn shipping_method(s: Option<ShippingInfo>) -> Option<Seq<char>> {
    match s {
        Some(info) => opt_str(info.shipping_method_name),
        None => None,
    }
}

/// A line's unit price.
pub open spec fn unit_price_of(p: Option<LinePrice>) -> Option<Price> {
    match p {
        Some(lp) => price_of(lp.value),
        None => None,
    }
}

/// The marketplace seller a line is sold by.
pub open spec fn seller_of(c: Option<Custom>) -> Option<Seq<char>> {
    match c {
        Some(custom) => match custom.fields {
            Some(f) => opt_str(f.seller_name),
            None => None,
        },
        None => None,
    }
}

/// The variant options worth showing: `Size` and `Colour`. The gateway
/// attaches the whole merchandising record and nothing marks the
/// presentational few, so they are named.
pub open spec fn shown_option(name: Seq<char>) -> bool {
    name == "Size"@ || name == "Colour"@
}

/// An attribute as an option worth showing: a named one, with a value that
/// is not blank.
pub open spec fn option_of(a: Attribute) -> Option<(Seq<char>, Seq<char>)> {
    match a.name {
        Some(n) => match a.text {
            Some(v) => if shown_option(n@) && trim(v@).len() > 0 {
                Some((n@, v@))
            } else {
                None
            },
            None => None,
        },
        None => None,
    }
}

/// The options of a variant's attributes, in order.
pub open spec fn picked(attrs: Seq<Attribute>) -> Seq<(Seq<char>, Seq<char>)>
    decreases attrs.len(),
{
    if attrs.len() == 0 {
        Seq::empty()
    } else {
        let before = picked(attrs.drop_last());
        match option_of(attrs.last()) {
            Some(o) => before.push(o),
            None => before,
        }
    }
}

/// A cart line is shown where it has an id and a variant.
pub open spec fn line_shown(l: LineItem) -> bool {
    l.id is Some && l.variant is Some
}

/// The cart lines shown, in order.
pub open spec fn shown_lines(ls: Seq<LineItem>) -> Seq<LineItem>
    decreases ls.len(),
{
    if ls.len() == 0 {
        Seq::empty()
    } else {
        let before = shown_lines(ls.drop_last());
        if line_shown(ls.last()) {
            before.push(ls.last())
        } else {
            before
        }
    }
}

/// What a shown cart line becomes.
pub open spec fn line_of(l: LineItem, c: CartLine) -> bool {
    &&& l.id matches Some(id) && c.id@ == id@
    &&& l.variant matches Some(v) && c.keycode@ == or_empty(v.sku) && view_pairs(c.options@)
        == picked(v.attributes@)
    &&& c.name@ == or_empty(l.name)
    &&& c.quantity == count_or(l.quantity, 0)
    &&& c.unit_price == unit_price_of(l.price)
    &&& c.total == price_of(l.total_price)
    &&& opt_str(c.seller) == seller_of(l.custom)
}

/// What a cart answer becomes: missing ids and versions read as empty and
/// zero, amounts as prices, and each line with an id and a variant.
pub open spec fn cart_of(body: CartBody, c: Cart) -> bool {
    &&& c.id@ == or_empty(body.id)
    &&& c.version == count_or(body.version, 0)
    &&& c.shipping == shipping_price(body.shipping_info)
    &&& opt_str(c.shipping_method) == shipping_method(body.shipping_info)
    &&& c.total == price_of(body.total_price)
    &&& opt_str(c.collect_store_id) == opt_str(body.selected_cnc_store_id)
    &&& c.lines@.len() == shown_lines(body.line_items@).len()
    &&& forall|i: int|
        0 <= i < c.lines@.len() ==> line_of(shown_lines(body.line_items@)[i], #[trigger] c.lines@[i])
}

/// A copy of an optional string.
fn copy_opt(s: &Option<String>) -> (r: Option<String>)
    ensures
        opt_str(r) == opt_str(*s),
{
    match s {
        Some(t) => Some(owned(t.as_str())),
        None => None,
    }
}

/// An optional string's text, or nothing.
fn text_or_empty(s: &Option<String>) -> (r: String)
    ensures
        r@ == or_empty(*s),
{
    match s {
        Some(t) => owned(t.as_str()),
        None => String::new(),
    }
}

/// The price an amount stands for.
pub fn price(m: Option<Money>) -> (r: Option<Price>)
    ensures
        r == price_of(m),
{
    match m {
        Some(money) => match money.cent_amount {
            Some(c) => Some(Price::cents(c)),
            None => None,
        },
        None => None,
    }
}

/// The options worth showing among a variant's attributes.
pub fn options(attrs: &Vec<Attribute>) -> (r: Vec<(String, String)>)
    ensures
        view_pairs(r@) == picked(attrs@),
{
    let mut r: Vec<(String, String)> = Vec::new();
    let mut i: usize = 0;
    while i < attrs.len()
        invariant
            i <= attrs.len(),
            view_pairs(r@) == picked(attrs@.take(i as int)),
        decreases attrs.len() - i,
    {
        let a = &attrs[i];
        proof {
            assert(attrs@.take(i + 1).drop_last() =~= attrs@.take(i as int));
            assert(attrs@.take(i + 1).last() == attrs@[i as int]);
        }
        match (&a.name, &a.text) {
            (Some(n), Some(v)) => {
                let vc = chars_of(v.as_str());
                let t = trim_exec(&vc);
                if (eq_str(n.as_str(), "Size") || eq_str(n.as_str(), "Colour")) && t.len() > 0 {
                    let ghost before = r@;
                    r.push((owned(n.as_str()), owned(v.as_str())));
                    proof {
                        assert(view_pairs(r@) =~= view_pairs(before).push((n@, v@)));
                    }
                }
            },
            _ => {},
        }
        i += 1;
    }
    proof {
        assert(attrs@.take(attrs@.len() as int) =~= attrs@);
    }
    r
}

/// What a shown cart line becomes.
fn cart_line(l: &LineItem) -> (c: CartLine)
    requires
        line_shown(*l),
    ensures
        line_of(*l, c),
{
    let id = text_or_empty(&l.id);
    let v = l.variant.as_ref().unwrap();
    let unit_price = match &l.price {
        Some(p) => price(p.value),
        None => None,
    };
    let seller = match &l.custom {
        Some(c) => match &c.fields {
            Some(f) => copy_opt(&f.seller_name),
            None => None,
        },
        None => None,
    };
    CartLine {
        id,
        keycode: text_or_empty(&v.sku),
        name: text_or_empty(&l.name),
        quantity: match l.quantity {
            Some(q) => q,
            None => 0,
        },
        unit_price,
        total: price(l.total_price),
        seller,
        options: options(&v.attributes),
    }
}

/// A cart as the gateway answered it, as a shopper is shown it: the id and
/// version (empty and zero where missing), the shipping rate and method, the
/// total, the collect store, and each line that has an id and a variant,
/// with its `Size` and `Colour` where they are not blank.
pub fn cart(body: CartBody) -> (c: Cart)
    ensures
        cart_of(body, c),
{
    let ls = &body.line_items;
    let mut lines: Vec<CartLine> = Vec::new();
    let mut i: usize = 0;
    while i < ls.len()
        invariant
            i <= ls.len(),
            lines@.len() == shown_lines(ls@.take(i as int)).len(),
            forall|j: int|
                0 <= j < lines@.len() ==> line_of(shown_lines(ls@.take(i as int))[j], #[trigger] lines@[j]),
        decreases ls.len() - i,
    {
        let l = &ls[i];
        proof {
            assert(ls@.take(i + 1).drop_last() =~= ls@.take(i as int));
            assert(ls@.take(i + 1).last() == ls@[i as int]);
        }
        if l.id.is_some() && l.variant.is_some() {
            let line = cart_line(l);
            lines.push(line);
        }
        i += 1;
    }
    proof {
        assert(ls@.take(ls@.len() as int) =~= ls@);
    }
    let shipping = match &body.shipping_info {
        Some(s) => match &s.shipping_rate {
            Some(rate) => price(rate.price),
            None => None,
        },
        None => None,
    };
    let shipping_method = match &body.shipping_info {
        Some(s) => copy_opt(&s.shipping_method_name),
        None => None,
    };
    Cart {
        id: text_or_empty(&body.id),
        version: match body.version {
            Some(v) => v,
            None => 0,
        },
        shipping,
        shipping_method,
        total: price(body.total_price),
        collect_store_id: copy_opt(&body.selected_cnc_store_id),
        lines,
    }
}

/// A wishlist line is shown where it has an id and a variant.
pub open spec fn item_shown(l: WishlistLine) -> bool {
    l.id is Some && l.variant is Some
}

/// The wishlist lines shown, in order.
pub open spec fn shown_items(ls: Seq<WishlistLine>) -> Seq<WishlistLine>
    decreases ls.len(),
{
    if ls.len() == 0 {
        Seq::empty()
    } else {
        let before = shown_items(ls.drop_last());
        if item_shown(ls.last()) {
            before.push(ls.last())
        } else {
            before
        }
    }
}

/// What a shown wishlist line becomes: a missing quantity is one.
pub open spec fn item_of(l: WishlistLine, w: WishlistItem) -> bool {
    &&& l.id matches Some(id) && w.id@ == id@
    &&& l.variant matches Some(v) && w.keycode@ == or_empty(v.sku) && w.price == price_of(
        v.shopping_list_price,
    )
    &&& opt_str(w.name) == opt_str(l.name)
    &&& w.quantity == count_or(l.quantity, 1)
}

/// What a wishlist answer becomes. A shopper who has never saved anything
/// has no list at all, which is an empty wishlist rather than a missing one.
pub open spec fn wishlist_of(body: Option<WishlistBody>, w: Wishlist) -> bool {
    match body {
        None => w.id is None && w.version is None && w.items@.len() == 0,
        Some(b) => {
            &&& opt_str(w.id) == opt_str(b.id)
            &&& w.version == b.version
            &&& w.items@.len() == shown_items(b.line_items@).len()
            &&& forall|i: int|
                0 <= i < w.items@.len() ==> item_of(shown_items(b.line_items@)[i], #[trigger] w.items@[i])
        },
    }
}

/// What a shown wishlist line becomes.
fn wishlist_item(l: &WishlistLine) -> (w: WishlistItem)
    requires
        item_shown(*l),
    ensures
        item_of(*l, w),
{
    let v = l.variant.as_ref().unwrap();
    WishlistItem {
        id: text_or_empty(&l.id),
        keycode: text_or_empty(&v.sku),
        name: copy_opt(&l.name),
        quantity: match l.quantity {
            Some(q) => q,
            None => 1,
        },
        price: price(v.shopping_list_price),
    }
}

/// A wishlist as the gateway answered it: each line with an id and a
/// variant, and an empty list where there is none.
pub fn wishlist(body: Option<WishlistBody>) -> (w: Wishlist)
    ensures
        wishlist_of(body, w),
{
    let b = match &body {
        None => {
            return Wishlist { id: None, version: None, items: Vec::new() };
        },
        Some(b) => b,
    };
    let ls = &b.line_items;
    let mut items: Vec<WishlistItem> = Vec::new();
    let mut i: usize = 0;
    while i < ls.len()
        invariant
            i <= ls.len(),
            items@.len() == shown_items(ls@.take(i as int)).len(),
            forall|j: int|
                0 <= j < items@.len() ==> item_of(shown_items(ls@.take(i as int))[j], #[trigger] items@[j]),
        decreases ls.len() - i,
    {
        let l = &ls[i];
        proof {
            assert(ls@.take(i + 1).drop_last() =~= ls@.take(i as int));
            assert(ls@.take(i + 1).last() == ls@[i as int]);
        }
        if l.id.is_some() && l.variant.is_some() {
            let item = wishlist_item(l);
            items.push(item);
        }
        i += 1;
    }
    proof {
        assert(ls@.take(ls@.len() as int) =~= ls@);
    }
    Wishlist { id: copy_opt(&b.id), version: b.version, items }
}

/// The store a stock row names: the collect fulfilment's, else the
/// in-store location's.
pub open spec fn stock_store(l: Location) -> Option<Seq<char>> {
    let by_fulfilment = match l.fulfilment {
        Some(f) => opt_str(f.location_id),
        None => None,
    };
    match by_fulfilment {
        Some(id) => Some(id),
        None => match l.location {
            Some(r) => opt_str(r.location_id),
            None => None,
        },
    }
}

/// How many are available, zero where it is not said.
pub open spec fn stock_available(l: Location) -> i64 {
    match l.fulfilment {
        Some(f) => match f.stock {
            Some(s) => count_or(s.available, 0),
            None => 0,
        },
        None => 0,
    }
}

/// Whether the store is a buddy location, no where it is not said.
pub open spec fn stock_buddy(l: Location) -> bool {
    match l.fulfilment {
        Some(f) => match f.is_buddy_location {
            Some(b) => b,
            None => false,
        },
        None => false,
    }
}

/// The places, in order, of the locations that name a store.
pub open spec fn stock_rows(ls: Seq<Location>) -> Seq<int>
    decreases ls.len(),
{
    if ls.len() == 0 {
        Seq::empty()
    } else {
        let before = stock_rows(ls.drop_last());
        if stock_store(ls.last()) is Some {
            before.push(ls.len() - 1)
        } else {
            before
        }
    }
}

/// The locations of a collect-shaped channel: its first entry's.
pub open spec fn first_locations(cs: Seq<CncStock>) -> Seq<Location> {
    if cs.len() > 0 {
        cs[0].locations@
    } else {
        Seq::empty()
    }
}

/// The locations of a channel that may be missing.
pub open spec fn channel_locations(channel: Option<&Vec<CncStock>>) -> Seq<Location> {
    match channel {
        Some(c) => first_locations(c@),
        None => Seq::empty(),
    }
}

/// What a location that names a store becomes.
pub open spec fn stock_of(l: Location, row: int, s: StoreStock) -> bool {
    &&& stock_store(l) == Some(s.store_id@)
    &&& s.name is None
    &&& s.available == stock_available(l)
    &&& s.buddy == stock_buddy(l)
    &&& s.row == row
}

/// The store a location names.
fn store_of(l: &Location) -> (r: Option<String>)
    ensures
        opt_str(r) == stock_store(*l),
{
    let by_fulfilment = match &l.fulfilment {
        Some(f) => copy_opt(&f.location_id),
        None => None,
    };
    match by_fulfilment {
        Some(id) => Some(id),
        None => match &l.location {
            Some(r) => copy_opt(&r.location_id),
            None => None,
        },
    }
}

/// The rows a list of locations gives: one for each that names a store.
pub open spec fn stock_list(ls: Seq<Location>, r: Seq<StoreStock>) -> bool {
    &&& r.len() == stock_rows(ls).len()
    &&& forall|i: int| 0 <= i < r.len() ==> stock_of(ls[stock_rows(ls)[i]], stock_rows(ls)[i], #[trigger] r[i])
}

/// The per-store rows out of a collect-shaped channel, in the gateway's
/// order (nearest first): each location that names a store, with how many
/// are available and whether it is a buddy location.
pub fn store_stock(channel: Option<&Vec<CncStock>>) -> (r: Vec<StoreStock>)
    ensures
        stock_list(channel_locations(channel), r@),
{
    let mut r: Vec<StoreStock> = Vec::new();
    let c = match channel {
        Some(c) => c,
        None => { return r; },
    };
    if c.len() == 0 {
        return r;
    }
    let ls = &c[0].locations;
    let ghost all = channel_locations(channel);
    assert(ls@ == all);
    let mut i: usize = 0;
    while i < ls.len()
        invariant
            i <= ls.len(),
            ls@ == all,
            r@.len() == stock_rows(all.take(i as int)).len(),
            forall|j: int|
                0 <= j < r@.len() ==> 0 <= #[trigger] stock_rows(all.take(i as int))[j] < i,
            forall|j: int|
                0 <= j < r@.len() ==> stock_of(
                    all[stock_rows(all.take(i as int))[j]],
                    stock_rows(all.take(i as int))[j],
                    #[trigger] r@[j],
                ),
        decreases ls.len() - i,
    {
        let l = &ls[i];
        proof {
            assert(all.take(i + 1).drop_last() =~= all.take(i as int));
            assert(all.take(i + 1).last() == all[i as int]);
        }
        match store_of(l) {
            Some(store_id) => {
                let available = match &l.fulfilment {
                    Some(f) => match &f.stock {
                        Some(s) => match s.available {
                            Some(a) => a,
                            None => 0,
                        },
                        None => 0,
                    },
                    None => 0,
                };
                let buddy = match &l.fulfilment {
                    Some(f) => match f.is_buddy_location {
                        Some(b) => b,
                        None => false,
                    },
                    None => false,
                };
                r.push(StoreStock { store_id, name: None, available, buddy, row: i });
            },
            None => {},
        }
        i += 1;
    }
    proof {
        assert(all.take(all.len() as int) =~= all);
    }
    r
}

/// The host a URL names, as the `url` crate parses it.
pub uninterp spec fn url_host(url: Seq<char>) -> Option<Seq<char>>;

/// `url::Url::parse` and then `host_str`: the host of a URL that parses and
/// has one, else nothing.
#[verifier::external_body]
fn parsed_host(url: &str) -> (r: Option<String>)
    ensures
        opt_str(r) == url_host(url@),
{
    url::Url::parse(url).ok().and_then(|u| u.host_str().map(str::to_string))
}

/// The host of a URL, for narrating a call; the URL itself where it names
/// no host.
pub fn host_of(url: &str) -> (r: String)
    ensures
        r@ == match url_host(url@) {
            Some(h) => h,
            None => url@,
        },
{
    match parsed_host(url) {
        Some(h) => h,
        None => owned(url),
    }
}

/// A postcode suggestion is kept where it names a postcode.
pub open spec fn postcode_kept(p: PostcodeSuggestion) -> bool {
    p.postcode is Some
}

/// The suggestions kept, in order.
pub open spec fn kept_postcodes(ps: Seq<PostcodeSuggestion>) -> Seq<PostcodeSuggestion>
    decreases ps.len(),
{
    if ps.len() == 0 {
        Seq::empty()
    } else {
        let before = kept_postcodes(ps.drop_last());
        if postcode_kept(ps.last()) {
            before.push(ps.last())
        } else {
            before
        }
    }
}

/// What a kept suggestion becomes.
pub open spec fn postcode_of(p: PostcodeSuggestion, q: Postcode) -> bool {
    &&& opt_str(p.postcode) == Some(q.postcode@)
    &&& opt_str(q.suburb) == opt_str(p.suburb)
    &&& opt_str(q.state) == opt_str(p.state)
    &&& q.metro == p.is_metro_region_for_free_shipping
}

/// The postcodes the gateway suggests, each that names one, in order.
pub fn postcodes(data: &PostcodeData) -> (r: Vec<Postcode>)
    ensures
        r@.len() == kept_postcodes(data.suggestions@).len(),
        forall|i: int| 0 <= i < r@.len() ==> postcode_of(kept_postcodes(data.suggestions@)[i], #[trigger] r@[i]),
{
    let ps = &data.suggestions;
    let mut r: Vec<Postcode> = Vec::new();
    let mut i: usize = 0;
    while i < ps.len()
        invariant
            i <= ps.len(),
            r@.len() == kept_postcodes(ps@.take(i as int)).len(),
            forall|j: int| 0 <= j < r@.len() ==> postcode_of(kept_postcodes(ps@.take(i as int))[j], #[trigger] r@[j]),
        decreases ps.len() - i,
    {
        let p = &ps[i];
        proof {
            assert(ps@.take(i + 1).drop_last() =~= ps@.take(i as int));
            assert(ps@.take(i + 1).last() == ps@[i as int]);
        }
        match &p.postcode {
            Some(code) => {
                r.push(Postcode {
                    postcode: owned(code.as_str()),
                    suburb: copy_opt(&p.suburb),
                    state: copy_opt(&p.state),
                    metro: p.is_metro_region_for_free_shipping,
                });
            },
            None => {},
        }
        i += 1;
    }
    proof {
        assert(ps@.take(ps@.len() as int) =~= ps@);
    }
    r
}

/// The first channel's stock, where the channel answered one.
pub open spec fn first_stock(v: Option<Vec<ChannelStock>>) -> Option<i64> {
    match v {
        Some(cs) => if cs@.len() > 0 {
            match cs@[0].stock {
                Some(st) => st.available,
                None => None,
            }
        } else {
            None
        },
        None => None,
    }
}

/// The pool the first channel draws from.
pub open spec fn first_pool(v: Option<Vec<ChannelStock>>) -> Option<Seq<char>> {
    match v {
        Some(cs) => if cs@.len() > 0 {
            opt_str(cs@[0].pool_name)
        } else {
            None
        },
        None => None,
    }
}

/// The first collect channel's total.
pub open spec fn collect_total(v: Option<Vec<CncStock>>) -> Option<i64> {
    match v {
        Some(cs) => if cs@.len() > 0 {
            match cs@[0].stock {
                Some(t) => t.total_available,
                None => None,
            }
        } else {
            None
        },
        None => None,
    }
}

/// The locations of a channel that may be missing, as it arrived.
pub open spec fn held_locations(v: Option<Vec<CncStock>>) -> Seq<Location> {
    match v {
        Some(cs) => first_locations(cs@),
        None => Seq::empty(),
    }
}

/// What an availability answer comes to for a keycode near a postcode: no
/// result is a shape error; otherwise the postcode the gateway settled on
/// (the one asked about where it names none), its region, and per channel
/// what [`Availability`] says, with a channel that is missing read as empty.
pub open spec fn availability_of(
    keycode: Seq<char>,
    postcode: Seq<char>,
    data: AvailabilityData,
    r: Result<Availability, Error>,
) -> bool {
    match data.result {
        None => r matches Err(Error::Shape(m)) && m@ == "the gateway returned no availability"@,
        Some(res) => match r {
            Ok(a) => {
                &&& a.keycode@ == keycode
                &&& a.postcode@ == match res.postcode {
                    Some(p) => p@,
                    None => postcode,
                }
                &&& opt_str(a.region) == opt_str(res.region)
                &&& match res.availability {
                    Some(f) => {
                        &&& a.home_delivery == first_stock(f.home_delivery)
                        &&& opt_str(a.pool) == first_pool(f.home_delivery)
                        &&& a.express == first_stock(f.express)
                        &&& a.click_and_collect == collect_total(f.click_and_collect)
                        &&& stock_list(held_locations(f.click_and_collect), a.stores@)
                        &&& stock_list(held_locations(f.in_store), a.in_store@)
                    },
                    None => {
                        &&& a.home_delivery is None && a.pool is None && a.express is None
                        &&& a.click_and_collect is None
                        &&& a.stores@.len() == 0 && a.in_store@.len() == 0
                    },
                }
            },
            Err(_) => false,
        },
    }
}

/// The first channel's stock.
fn first_stock_of(v: &Option<Vec<ChannelStock>>) -> (r: Option<i64>)
    ensures
        r == first_stock(*v),
{
    match v {
        Some(cs) => if cs.len() > 0 {
            match &cs[0].stock {
                Some(st) => st.available,
                None => None,
            }
        } else {
            None
        },
        None => None,
    }
}

/// The stores of a channel that may be missing.
fn stores_of(v: &Option<Vec<CncStock>>) -> (r: Vec<StoreStock>)
    ensures
        stock_list(held_locations(*v), r@),
{
    match v {
        Some(cs) => store_stock(Some(cs)),
        None => store_stock(None),
    }
}

/// Where a product can be had near a postcode, as the gateway answered.
pub fn availability(keycode: &str, postcode: &str, data: &AvailabilityData) -> (r: Result<Availability, Error>)
    ensures
        availability_of(keycode@, postcode@, *data, r),
{
    let res = match &data.result {
        Some(res) => res,
        None => {
            return Err(Error::Shape(owned("the gateway returned no availability")));
        },
    };
    let settled = match &res.postcode {
        Some(p) => owned(p.as_str()),
        None => owned(postcode),
    };
    match &res.availability {
        Some(f) => {
            let pool = match &f.home_delivery {
                Some(cs) => if cs.len() > 0 {
                    copy_opt(&cs[0].pool_name)
                } else {
                    None
                },
                None => None,
            };
            let click_and_collect = match &f.click_and_collect {
                Some(cs) => if cs.len() > 0 {
                    match &cs[0].stock {
                        Some(t) => t.total_available,
                        None => None,
                    }
                } else {
                    None
                },
                None => None,
            };
            Ok(Availability {
                keycode: owned(keycode),
                postcode: settled,
                region: copy_opt(&res.region),
                home_delivery: first_stock_of(&f.home_delivery),
                pool,
                express: first_stock_of(&f.express),
                click_and_collect,
                stores: stores_of(&f.click_and_collect),
                in_store: stores_of(&f.in_store),
            })
        },
        None => {
            let stores = store_stock(None);
            let in_store = store_stock(None);
            Ok(Availability {
                keycode: owned(keycode),
                postcode: settled,
                region: copy_opt(&res.region),
                home_delivery: None,
                pool: None,
                express: None,
                click_and_collect: None,
                stores,
                in_store,
            })
        },
    }
}

/// An address line as it is shown: trimmed, and gone where blank.
pub open spec fn line_part(l: Option<String>) -> Seq<Seq<char>> {
    match l {
        Some(t) => if trim(t@).len() > 0 {
            seq![trim(t@)]
        } else {
            Seq::empty()
        },
        None => Seq::empty(),
    }
}

/// A trading day is kept where it names its day.
pub open spec fn trading_days(hs: Seq<TradingHours>) -> Seq<(Seq<char>, Seq<char>)>
    decreases hs.len(),
{
    if hs.len() == 0 {
        Seq::empty()
    } else {
        let before = trading_days(hs.drop_last());
        match hs.last().week_day {
            Some(d) => before.push((d@, or_empty(hs.last().hours))),
            None => before,
        }
    }
}

/// Trading days as characters.
pub open spec fn day_views(ds: Seq<TradingDay>) -> Seq<(Seq<char>, Seq<char>)> {
    ds.map_values(|d: TradingDay| (d.day@, d.hours@))
}

/// What a store answer comes to for an id: none is no such store;
/// otherwise the name trimmed (they arrive padded), the three address lines
/// trimmed with the blank ones dropped, and each trading day that names its
/// day.
pub open spec fn store_answer(id: Seq<char>, data: LocationData, r: Result<Store, Error>) -> bool {
    match data.location {
        None => r matches Err(Error::NoSuchStore(s)) && s@ == id,
        Some(d) => match r {
            Ok(st) => {
                &&& st.id@ == id
                &&& st.name@ == trim(or_empty(d.public_name))
                &&& opt_str(st.phone) == opt_str(d.phone_number)
                &&& strs(st.address@) == line_part(d.address1) + line_part(d.address2) + line_part(d.address3)
                &&& opt_str(st.city) == opt_str(d.city)
                &&& opt_str(st.state) == opt_str(d.state)
                &&& opt_str(st.postcode) == opt_str(d.postcode)
                &&& day_views(st.hours@) == trading_days(d.trading_hours@)
            },
            Err(_) => false,
        },
    }
}

/// An optional string trimmed, as text.
fn trimmed(s: &Option<String>) -> (r: String)
    ensures
        r@ == trim(or_empty(*s)),
{
    let t = text_or_empty(s);
    let cs = chars_of(t.as_str());
    let v = trim_exec(&cs);
    string_of(&v)
}

/// Adds an address line, trimmed, unless it is blank.
fn push_line(lines: &mut Vec<String>, l: &Option<String>)
    ensures
        strs(final(lines)@) == strs(old(lines)@) + line_part(*l),
{
    match l {
        Some(t) => {
            let cs = chars_of(t.as_str());
            let v = trim_exec(&cs);
            if v.len() > 0 {
                let ghost before = lines@;
                lines.push(string_of(&v));
                proof {
                    assert(strs(lines@) =~= strs(before) + line_part(*l));
                }
            } else {
                assert(strs(lines@) =~= strs(lines@) + line_part(*l));
            }
        },
        None => {
            assert(strs(lines@) =~= strs(lines@) + line_part(*l));
        },
    }
}

/// One store, as the gateway described it.
pub fn store(id: &str, data: &LocationData) -> (r: Result<Store, Error>)
    ensures
        store_answer(id@, *data, r),
{
    let d = match &data.location {
        Some(d) => d,
        None => {
            return Err(Error::NoSuchStore(owned(id)));
        },
    };
    let mut address: Vec<String> = Vec::new();
    assert(strs(address@) =~= Seq::<Seq<char>>::empty());
    push_line(&mut address, &d.address1);
    push_line(&mut address, &d.address2);
    push_line(&mut address, &d.address3);
    assert(Seq::<Seq<char>>::empty() + line_part(d.address1) =~= line_part(d.address1));
    let hs = &d.trading_hours;
    let mut hours: Vec<TradingDay> = Vec::new();
    let mut i: usize = 0;
    while i < hs.len()
        invariant
            i <= hs.len(),
            day_views(hours@) == trading_days(hs@.take(i as int)),
        decreases hs.len() - i,
    {
        let h = &hs[i];
        proof {
            assert(hs@.take(i + 1).drop_last() =~= hs@.take(i as int));
            assert(hs@.take(i + 1).last() == hs@[i as int]);
        }
        match &h.week_day {
            Some(day) => {
                let ghost before = hours@;
                hours.push(TradingDay { day: owned(day.as_str()), hours: text_or_empty(&h.hours) });
                proof {
                    assert(day_views(hours@) =~= day_views(before).push((day@, or_empty(h.hours))));
                }
            },
            None => {},
        }
        i += 1;
    }
    proof {
        assert(hs@.take(hs@.len() as int) =~= hs@);
    }
    Ok(Store {
        id: owned(id),
        name: trimmed(&d.public_name),
        phone: copy_opt(&d.phone_number),
        address,
        city: copy_opt(&d.city),
        state: copy_opt(&d.state),
        postcode: copy_opt(&d.postcode),
        hours,
    })
}

/// A customer's name from its parts: both joined by a space and trimmed,
/// or whichever one there is.
pub open spec fn full_name(first: Option<String>, last: Option<String>) -> Option<Seq<char>> {
    match first {
        Some(f) => match last {
            Some(l) => Some(trim(f@ + " "@ + l@)),
            None => Some(f@),
        },
        None => match last {
            Some(l) => Some(l@),
            None => None,
        },
    }
}

/// What a customer answer comes to: nobody there is not signed in.
pub open spec fn customer_of(data: CustomerData, r: Result<Customer, Error>) -> bool {
    match data.me {
        Some(me) => match me.customer {
            Some(c) => match r {
                Ok(cu) => opt_str(cu.id) == opt_str(c.id) && opt_str(cu.email) == opt_str(c.email)
                    && opt_str(cu.name) == full_name(c.first_name, c.last_name),
                Err(_) => false,
            },
            None => r matches Err(Error::NotSignedIn),
        },
        None => r matches Err(Error::NotSignedIn),
    }
}

/// The signed-in customer.
pub fn customer(data: &CustomerData) -> (r: Result<Customer, Error>)
    ensures
        customer_of(*data, r),
{
    let c = match &data.me {
        Some(me) => match &me.customer {
            Some(c) => c,
            None => {
                return Err(Error::NotSignedIn);
            },
        },
        None => {
            return Err(Error::NotSignedIn);
        },
    };
    let name = match (&c.first_name, &c.last_name) {
        (Some(f), Some(l)) => {
            let mut v = chars_of(f.as_str());
            extend_str(&mut v, " ");
            extend_str(&mut v, l.as_str());
            let t = trim_exec(&v);
            Some(string_of(&t))
        },
        (Some(n), None) => Some(owned(n.as_str())),
        (None, Some(n)) => Some(owned(n.as_str())),
        (None, None) => None,
    };
    Ok(Customer { id: copy_opt(&c.id), email: copy_opt(&c.email), name })
}

/// The host an API URL names, as a challenge reports it.
pub open spec fn host_text(url: Seq<char>) -> Seq<char> {
    match url_host(url) {
        Some(h) => h,
        None => url,
    }
}

/// Whether an outcome is the challenge for the gateway at `api`.
pub open spec fn challenged<T>(api: Seq<char>, r: Result<T, Error>) -> bool {
    r matches Err(Error::Challenged { host }) && host@ == host_text(api)
}

/// Whether a status is a success.
pub open spec fn success(status: u16) -> bool {
    200 <= status < 300
}

/// Whether an answer got past the bot manager and the rate limit, to be
/// read as GraphQL.
pub open spec fn past_gate(admitted: bool, status: u16, body: Seq<char>) -> bool {
    admitted && !challenge_body(body) && status != 429 && !(status == 403 && trim(body).len() == 0)
}

/// What the first error of an answer comes to: an expired session, a cart
/// changed between read and write, or the operation's own error.
pub open spec fn first_error_of<T>(operation: &'static str, code: Option<Seq<char>>, message: Seq<char>, r: Result<T, Error>) -> bool {
    if code == Some("UNAUTHENTICATED"@) {
        r matches Err(Error::SessionExpired)
    } else if code == Some("ConcurrentModification"@) || (contains(message, "version"@) && contains(
        message,
        "mismatch"@,
    )) {
        r matches Err(Error::CartConflict)
    } else {
        r matches Err(Error::Graphql { operation: o, message: m }) && o == operation && m@ == message
    }
}

/// The first error's code decides before its words: `UNAUTHENTICATED` is
/// an expired session and nothing else is; `ConcurrentModification`, or
/// words naming a version mismatch, is a cart changed under the write; any
/// other error is the operation's own, carrying its message.
pub proof fn lemma_first_error_kinds<T>(operation: &'static str, code: Option<Seq<char>>, message: Seq<char>, r: Result<T, Error>)
    requires
        first_error_of(operation, code, message, r),
    ensures
        code == Some("UNAUTHENTICATED"@) <==> r matches Err(Error::SessionExpired),
        code == Some("ConcurrentModification"@) ==> r matches Err(Error::CartConflict),
        code != Some("UNAUTHENTICATED"@) && contains(message, "version"@) && contains(message, "mismatch"@)
            ==> r matches Err(Error::CartConflict),
        (r matches Err(Error::CartConflict)) ==> code == Some("ConcurrentModification"@) || (contains(
            message,
            "version"@,
        ) && contains(message, "mismatch"@)),
        !(r matches Err(Error::SessionExpired)) && !(r matches Err(Error::CartConflict)) ==> (r matches Err(
            Error::Graphql { operation: o, message: m },
        ) && o == operation && m@ == message),
{
    reveal_strlit("UNAUTHENTICATED");
    reveal_strlit("ConcurrentModification");
    assert("UNAUTHENTICATED"@ != "ConcurrentModification"@) by {
        assert("UNAUTHENTICATED"@.len() == 15);
        assert("ConcurrentModification"@.len() == 22);
    }
}

/// What a decoded answer comes to: its first error, else its data, else
/// an error saying neither came.
pub open spec fn envelope_of<T>(operation: &'static str, env: GqlEnvelope<T>, r: Result<T, Error>) -> bool {
    if env.errors@.len() > 0 {
        first_error_of(operation, opt_str(env.errors@[0].code), or_empty(env.errors@[0].message), r)
    } else {
        match env.data {
            Some(d) => r == Ok::<T, Error>(d),
            None => r matches Err(Error::Graphql { operation: o, message: m }) && o == operation && m@
                == "the gateway answered with neither data nor an error"@,
        }
    }
}

/// What one GraphQL call came to, given whether the session was admitted,
/// the gateway's URL, and the status, `Retry-After` and body that came back
/// with the body decoded (or what the decoder said where it did not).
///
/// A session that is not admitted is refused before any request is spent.
/// Akamai answers a challenge as a `429` or `403` with a marker, which is
/// neither rate limiting nor a permission problem, or as a bare `403`. A
/// body that does not decode is an HTTP failure where the status failed,
/// and a decode failure otherwise.
pub fn gql_outcome<T>(
    operation: &'static str,
    admitted: bool,
    api: &str,
    status: u16,
    retry_after: Option<&str>,
    body: &str,
    envelope: Result<GqlEnvelope<T>, String>,
) -> (r: Result<T, Error>)
    ensures
        !admitted ==> challenged(api@, r),
        admitted && challenge_body(body@) ==> challenged(api@, r),
        admitted && !challenge_body(body@) && status == 429 ==> (r matches Err(Error::RateLimited { retry_after: s })
            && s == match retry_after {
            Some(v) => parse_u64(v@),
            None => None,
        }),
        admitted && !challenge_body(body@) && status != 429 && status == 403 && trim(body@).len() == 0
            ==> challenged(api@, r),
        past_gate(admitted, status, body@) ==> match envelope {
            Err(detail) => if success(status) {
                r matches Err(Error::Decode { context: c, detail: d }) && c@ == "reading the answer to "@
                    + operation@ && d@ == detail@
            } else {
                r matches Err(Error::Http { status: s, body: b }) && s == Some(status) && b@ == body@
            },
            Ok(env) => envelope_of(operation, env, r),
        },
{
    if !admitted || is_challenge_body(body) {
        return Err(Error::Challenged { host: host_of(api) });
    }
    if status == 429 {
        let secs = match retry_after {
            Some(v) => parse_u64_exec(v),
            None => None,
        };
        return Err(Error::RateLimited { retry_after: secs });
    }
    let cs = chars_of(body);
    let t = trim_exec(&cs);
    if status == 403 && t.len() == 0 {
        return Err(Error::Challenged { host: host_of(api) });
    }
    let env = match envelope {
        Err(detail) => {
            if 200 <= status && status < 300 {
                let mut c = chars_of("reading the answer to ");
                extend_str(&mut c, operation);
                return Err(Error::Decode { context: string_of(&c), detail });
            }
            return Err(Error::Http { status: Some(status), body: string_of(&cs) });
        },
        Ok(env) => env,
    };
    if env.errors.len() > 0 {
        let e0 = &env.errors[0];
        let message = text_or_empty(&e0.message);
        let unauthenticated = match &e0.code {
            Some(c) => eq_str(c.as_str(), "UNAUTHENTICATED"),
            None => false,
        };
        if unauthenticated {
            return Err(Error::SessionExpired);
        }
        let concurrent = match &e0.code {
            Some(c) => eq_str(c.as_str(), "ConcurrentModification"),
            None => false,
        };
        let mc = chars_of(message.as_str());
        let version = chars_of("version");
        let mismatch = chars_of("mismatch");
        if concurrent || (contains_exec(&mc, &version) && contains_exec(&mc, &mismatch)) {
            return Err(Error::CartConflict);
        }
        return Err(Error::Graphql { operation, message });
    }
    match env.data {
        Some(d) => Ok(d),
        None => Err(Error::Graphql {
            operation,
            message: owned("the gateway answered with neither data nor an error"),
        }),
    }
}

} // verus!
