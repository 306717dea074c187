//! What a Kmart shopper is shown.

use vstd::prelude::*;

verus! {

/// A price, in cents.
#[derive(Clone, Copy, Debug, PartialEq, Eq, Structural)]
pub struct Price {
    pub cents: i64,
}

impl Price {
    pub fn cents(cents: i64) -> (p: Price)
        ensures
            p.cents == cents,
    {
        Price { cents }
    }
}

/// A line of a cart, with the variant options worth showing.
#[derive(Debug)]
pub struct CartLine {
    pub id: String,
    pub keycode: String,
    pub name: String,
    pub quantity: i64,
    pub unit_price: Option<Price>,
    pub total: Option<Price>,
    pub seller: Option<String>,
    pub options: Vec<(String, String)>,
}

#[derive(Debug)]
pub struct Cart {
    pub id: String,
    pub version: i64,
    pub shipping: Option<Price>,
    pub shipping_method: Option<String>,
    pub total: Option<Price>,
    pub collect_store_id: Option<String>,
    pub lines: Vec<CartLine>,
}

#[derive(Debug)]
pub struct WishlistItem {
    pub id: String,
    pub keycode: String,
    pub name: Option<String>,
    pub quantity: i64,
    pub price: Option<Price>,
}

#[derive(Debug)]
pub struct Wishlist {
    pub id: Option<String>,
    pub version: Option<i64>,
    pub items: Vec<WishlistItem>,
}

/// A store's stock of a product. `row` is the place of the store in the
/// channel's answer, which is where its distance is read.
#[derive(Debug)]
pub struct StoreStock {
    pub store_id: String,
    pub name: Option<String>,
    pub available: i64,
    pub buddy: bool,
    pub row: usize,
}

/// A postcode the gateway knows, with where it is.
#[derive(Debug)]
pub struct Postcode {
    pub postcode: String,
    pub suburb: Option<String>,
    pub state: Option<String>,
    pub metro: Option<bool>,
}

/// Where a product can be had near a postcode: the first home-delivery
/// channel's stock and pool, the first express channel's stock, the
/// click-and-collect total, and the stores of the collect and in-store
/// channels.
#[derive(Debug)]
pub struct Availability {
    pub keycode: String,
    pub postcode: String,
    pub region: Option<String>,
    pub home_delivery: Option<i64>,
    pub pool: Option<String>,
    pub express: Option<i64>,
    pub click_and_collect: Option<i64>,
    pub stores: Vec<StoreStock>,
    pub in_store: Vec<StoreStock>,
}

/// One day a store trades, and its hours.
#[derive(Debug)]
pub struct TradingDay {
    pub day: String,
    pub hours: String,
}

/// A store, as a shopper is shown it.
#[derive(Debug)]
pub struct Store {
    pub id: String,
    pub name: String,
    pub phone: Option<String>,
    pub address: Vec<String>,
    pub city: Option<String>,
    pub state: Option<String>,
    pub postcode: Option<String>,
    pub hours: Vec<TradingDay>,
}

/// The signed-in customer.
#[derive(Debug)]
pub struct Customer {
    pub id: Option<String>,
    pub email: Option<String>,
    pub name: Option<String>,
}

} // verus!
