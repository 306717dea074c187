//! The gateway's answers, as far as they are read: every field may be
//! missing, and a missing one is `None`.

use vstd::prelude::*;

verus! {

/// An amount of money, in cents.
#[derive(Clone, Copy, Debug)]
pub struct Money {
    pub cent_amount: Option<i64>,
}

pub struct ShippingRate {
    pub price: Option<Money>,
}

pub struct ShippingInfo {
    pub shipping_rate: Option<ShippingRate>,
    pub shipping_method_name: Option<String>,
}

/// One attribute of a variant's merchandising record: its name, and its
/// value as text.
pub struct Attribute {
    pub name: Option<String>,
    pub text: Option<String>,
}

pub struct Variant {
    pub sku: Option<String>,
    pub attributes: Vec<Attribute>,
    pub shopping_list_price: Option<Money>,
}

pub struct LinePrice {
    pub value: Option<Money>,
}

pub struct CustomFields {
    pub seller_name: Option<String>,
}

pub struct Custom {
    pub fields: Option<CustomFields>,
}

/// A line of a cart.
pub struct LineItem {
    pub id: Option<String>,
    pub name: Option<String>,
    pub quantity: Option<i64>,
    pub variant: Option<Variant>,
    pub price: Option<LinePrice>,
    pub total_price: Option<Money>,
    pub custom: Option<Custom>,
}

/// A cart as the gateway answers it.
pub struct CartBody {
    pub id: Option<String>,
    pub version: Option<i64>,
    pub shipping_info: Option<ShippingInfo>,
    pub total_price: Option<Money>,
    pub selected_cnc_store_id: Option<String>,
    pub line_items: Vec<LineItem>,
}

/// A line of a wishlist.
pub struct WishlistLine {
    pub id: Option<String>,
    pub name: Option<String>,
    pub quantity: Option<i64>,
    pub variant: Option<Variant>,
}

/// A wishlist as the gateway answers it.
pub struct WishlistBody {
    pub id: Option<String>,
    pub version: Option<i64>,
    pub line_items: Vec<WishlistLine>,
}

pub struct StockCount {
    pub available: Option<i64>,
}

/// How a store can hand the product over.
pub struct Fulfilment {
    pub location_id: Option<String>,
    pub stock: Option<StockCount>,
    pub is_buddy_location: Option<bool>,
}

pub struct LocationRef {
    pub location_id: Option<String>,
}

/// One store in a stock answer. Collect names the store on `fulfilment`, and
/// in-store only on `location`; either is the same id.
pub struct Location {
    pub fulfilment: Option<Fulfilment>,
    pub location: Option<LocationRef>,
}

/// How many a channel has in all.
pub struct CncTotal {
    pub total_available: Option<i64>,
}

/// A click-and-collect or in-store channel: its total, and its stores,
/// nearest first.
pub struct CncStock {
    pub stock: Option<CncTotal>,
    pub locations: Vec<Location>,
}

/// A delivery channel's stock, and the pool it is drawn from.
pub struct ChannelStock {
    pub stock: Option<StockCount>,
    pub pool_name: Option<String>,
}

/// Each way a product can be had; a channel the gateway does not answer for
/// is `None`, and one it answers with nothing is empty.
pub struct Fulfilments {
    pub home_delivery: Option<Vec<ChannelStock>>,
    pub express: Option<Vec<ChannelStock>>,
    pub click_and_collect: Option<Vec<CncStock>>,
    pub in_store: Option<Vec<CncStock>>,
}

pub struct AvailabilityResult {
    pub postcode: Option<String>,
    pub region: Option<String>,
    pub availability: Option<Fulfilments>,
}

/// An availability answer.
pub struct AvailabilityData {
    pub result: Option<AvailabilityResult>,
}

/// One postcode the gateway suggests.
pub struct PostcodeSuggestion {
    pub postcode: Option<String>,
    pub suburb: Option<String>,
    pub state: Option<String>,
    pub is_metro_region_for_free_shipping: Option<bool>,
}

/// A postcode answer.
pub struct PostcodeData {
    pub suggestions: Vec<PostcodeSuggestion>,
}

/// One day of a store's trading hours.
pub struct TradingHours {
    pub week_day: Option<String>,
    pub hours: Option<String>,
}

/// A store as the gateway describes it. Its coordinates are left to the
/// caller, being floating point.
pub struct LocationDetail {
    pub public_name: Option<String>,
    pub phone_number: Option<String>,
    pub address1: Option<String>,
    pub address2: Option<String>,
    pub address3: Option<String>,
    pub city: Option<String>,
    pub state: Option<String>,
    pub postcode: Option<String>,
    pub trading_hours: Vec<TradingHours>,
}

/// A store answer.
pub struct LocationData {
    pub location: Option<LocationDetail>,
}

/// The signed-in customer's record.
pub struct CustomerRecord {
    pub id: Option<String>,
    pub email: Option<String>,
    pub first_name: Option<String>,
    pub last_name: Option<String>,
}

/// Who `me` is; `None` where nobody is signed in.
pub struct CustomerMe {
    pub customer: Option<CustomerRecord>,
}

/// A customer answer.
pub struct CustomerData {
    pub me: Option<CustomerMe>,
}

/// One error of a GraphQL answer: its message, and its extension code.
pub struct GqlError {
    pub message: Option<String>,
    pub code: Option<String>,
}

/// A GraphQL answer: its errors, and its data where it came.
pub struct GqlEnvelope<T> {
    pub errors: Vec<GqlError>,
    pub data: Option<T>,
}

} // verus!
