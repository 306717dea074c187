use shopping_apis::kmart::client::{
    availability, cart, customer, gql_outcome, host_of, postcodes, price, store, store_stock, wishlist,
};
use shopping_apis::kmart::domain::Price;
use shopping_apis::kmart::error::{is_challenge_body, Error};
use shopping_apis::kmart::session::{
    refresh_refused, refreshed, renew_step, sign_in_password, unrenewable, RenewStep, Tokens,
};
use shopping_apis::kmart::wire::{
    Attribute, AvailabilityData, AvailabilityResult, CartBody, ChannelStock, CncStock, CncTotal, Custom,
    CustomFields, CustomerData, CustomerMe, CustomerRecord, Fulfilment, Fulfilments, GqlEnvelope, GqlError,
    LineItem, LinePrice, Location, LocationData, LocationDetail, LocationRef, Money, PostcodeData,
    PostcodeSuggestion, ShippingInfo, ShippingRate, StockCount, TradingHours, Variant, WishlistBody,
    WishlistLine,
};

fn cents(c: i64) -> Option<Money> {
    Some(Money { cent_amount: Some(c) })
}

fn s(t: &str) -> Option<String> {
    Some(t.to_string())
}

fn attr(name: &str, value: &str) -> Attribute {
    Attribute { name: s(name), text: s(value) }
}

fn variant(sku: &str, attributes: Vec<Attribute>) -> Variant {
    Variant { sku: s(sku), attributes, shopping_list_price: cents(1500) }
}

fn line(id: Option<String>, v: Option<Variant>) -> LineItem {
    LineItem {
        id,
        name: s("Towel"),
        quantity: Some(2),
        variant: v,
        price: Some(LinePrice { value: cents(1000) }),
        total_price: cents(2000),
        custom: Some(Custom { fields: Some(CustomFields { seller_name: s("Kmart") }) }),
    }
}

#[test]
fn a_cart_keeps_its_amounts_in_cents_and_only_the_options_worth_showing() {
    let body = CartBody {
        id: s("cart-1"),
        version: Some(7),
        shipping_info: Some(ShippingInfo {
            shipping_rate: Some(ShippingRate { price: cents(800) }),
            shipping_method_name: s("Standard"),
        }),
        total_price: cents(2800),
        selected_cnc_store_id: s("1234"),
        line_items: vec![
            line(
                s("line-1"),
                Some(variant(
                    "43210",
                    vec![
                        attr("Size", "Large"),
                        attr("TaxRate", "15"),
                        attr("Colour", "   "),
                        Attribute { name: None, text: s("Blue") },
                        attr("Colour", "Blue"),
                    ],
                )),
            ),
            line(None, Some(variant("99", vec![]))),
            line(s("line-3"), None),
        ],
    };
    let c = cart(body);
    assert_eq!(c.id, "cart-1");
    assert_eq!(c.version, 7);
    assert_eq!(c.shipping, Some(Price { cents: 800 }));
    assert_eq!(c.shipping_method.as_deref(), Some("Standard"));
    assert_eq!(c.total, Some(Price { cents: 2800 }));
    assert_eq!(c.collect_store_id.as_deref(), Some("1234"));
    assert_eq!(c.lines.len(), 1, "a line with no id or no variant is not shown");
    let l = &c.lines[0];
    assert_eq!(l.id, "line-1");
    assert_eq!(l.keycode, "43210");
    assert_eq!(l.name, "Towel");
    assert_eq!(l.quantity, 2);
    assert_eq!(l.unit_price, Some(Price { cents: 1000 }));
    assert_eq!(l.total, Some(Price { cents: 2000 }));
    assert_eq!(l.seller.as_deref(), Some("Kmart"));
    assert_eq!(
        l.options,
        vec![("Size".to_string(), "Large".to_string()), ("Colour".to_string(), "Blue".to_string())]
    );
}

#[test]
fn an_empty_cart_answer_reads_as_empty_and_zero() {
    let c = cart(CartBody {
        id: None,
        version: None,
        shipping_info: None,
        total_price: Some(Money { cent_amount: None }),
        selected_cnc_store_id: None,
        line_items: vec![],
    });
    assert_eq!(c.id, "");
    assert_eq!(c.version, 0);
    assert_eq!(c.shipping, None);
    assert_eq!(c.total, None);
    assert!(c.lines.is_empty());
    assert_eq!(price(cents(-5)), Some(Price { cents: -5 }));
}

#[test]
fn a_signed_out_wishlist_is_an_empty_one() {
    let w = wishlist(None);
    assert!(w.items.is_empty());
    assert_eq!(w.id, None);
    assert_eq!(w.version, None);
}

#[test]
fn a_wishlist_line_with_no_quantity_is_one() {
    let w = wishlist(Some(WishlistBody {
        id: s("list"),
        version: Some(3),
        line_items: vec![
            WishlistLine { id: s("w1"), name: None, quantity: None, variant: Some(variant("555", vec![])) },
            WishlistLine { id: s("w2"), name: s("Mug"), quantity: Some(4), variant: None },
        ],
    }));
    assert_eq!(w.id.as_deref(), Some("list"));
    assert_eq!(w.version, Some(3));
    assert_eq!(w.items.len(), 1);
    assert_eq!(w.items[0].id, "w1");
    assert_eq!(w.items[0].keycode, "555");
    assert_eq!(w.items[0].name, None);
    assert_eq!(w.items[0].quantity, 1);
    assert_eq!(w.items[0].price, Some(Price { cents: 1500 }));
}

#[test]
fn collect_rows_name_the_store_either_way_and_keep_their_place() {
    let channel = vec![CncStock {
        stock: None,
        locations: vec![
            Location {
                fulfilment: Some(Fulfilment {
                    location_id: s("1001"),
                    stock: Some(StockCount { available: Some(5) }),
                    is_buddy_location: Some(true),
                }),
                location: None,
            },
            Location { fulfilment: None, location: None },
            Location {
                fulfilment: Some(Fulfilment { location_id: None, stock: None, is_buddy_location: None }),
                location: Some(LocationRef { location_id: s("1002") }),
            },
        ],
    }];
    let rows = store_stock(Some(&channel));
    assert_eq!(rows.len(), 2);
    assert_eq!(rows[0].store_id, "1001");
    assert_eq!(rows[0].available, 5);
    assert!(rows[0].buddy);
    assert_eq!(rows[0].row, 0);
    assert_eq!(rows[0].name, None);
    assert_eq!(rows[1].store_id, "1002");
    assert_eq!(rows[1].available, 0);
    assert!(!rows[1].buddy);
    assert_eq!(rows[1].row, 2);
}

#[test]
fn an_empty_channel_and_a_missing_one_both_read_as_nothing() {
    assert!(store_stock(None).is_empty());
    let empty: Vec<CncStock> = vec![];
    assert!(store_stock(Some(&empty)).is_empty());
}

#[test]
fn a_call_is_narrated_by_its_host() {
    assert_eq!(host_of("https://api.kmart.co.nz/graphql?op=x"), "api.kmart.co.nz");
    assert_eq!(host_of("not a url"), "not a url");
}

fn envelope(errors: Vec<GqlError>, data: Option<u8>) -> Result<GqlEnvelope<u8>, String> {
    Ok(GqlEnvelope { errors, data })
}

fn error(code: Option<&str>, message: Option<&str>) -> GqlError {
    GqlError { code: code.map(str::to_string), message: message.map(str::to_string) }
}

const API: &str = "https://api.kmart.co.nz/gateway/graphql";

#[test]
fn an_unadmitted_session_is_refused_before_anything_is_read() {
    match gql_outcome("getDetails", false, API, 200, None, "{}", envelope(vec![], Some(1))) {
        Err(Error::Challenged { host }) => assert_eq!(host, "api.kmart.co.nz"),
        other => panic!("{other:?}"),
    }
}

#[test]
fn a_challenge_is_neither_a_rate_limit_nor_a_permission_problem() {
    let marked = r#"{"cpr_chlge":"true"}"#;
    assert!(is_challenge_body(marked));
    assert!(matches!(
        gql_outcome("getDetails", true, API, 429, Some("30"), marked, Err("x".into())),
        Err::<u8, Error>(Error::Challenged { .. })
    ));
    assert!(matches!(
        gql_outcome("getDetails", true, API, 403, None, "  \n", Err("x".into())),
        Err::<u8, Error>(Error::Challenged { .. })
    ));
    match gql_outcome("getDetails", true, API, 429, Some("30"), "slow down", Err::<GqlEnvelope<u8>, String>("x".into())) {
        Err(Error::RateLimited { retry_after }) => assert_eq!(retry_after, Some(30)),
        other => panic!("{other:?}"),
    }
    match gql_outcome("getDetails", true, API, 429, Some("soon"), "", Err::<GqlEnvelope<u8>, String>("x".into())) {
        Err(Error::RateLimited { retry_after }) => assert_eq!(retry_after, None),
        other => panic!("{other:?}"),
    }
}

#[test]
fn an_answer_that_does_not_decode_is_blamed_on_the_status_when_it_failed() {
    match gql_outcome("getDetails", true, API, 500, None, "oops", Err::<GqlEnvelope<u8>, String>("eof".into())) {
        Err(Error::Http { status, body }) => {
            assert_eq!(status, Some(500));
            assert_eq!(body, "oops");
        }
        other => panic!("{other:?}"),
    }
    match gql_outcome("getDetails", true, API, 200, None, "oops", Err::<GqlEnvelope<u8>, String>("eof".into())) {
        Err(Error::Decode { context, detail }) => {
            assert_eq!(context, "reading the answer to getDetails");
            assert_eq!(detail, "eof");
        }
        other => panic!("{other:?}"),
    }
}

#[test]
fn a_graphql_error_code_is_read_off_the_extensions() {
    let got = gql_outcome("getDetails", true, API, 200, None, "{}", envelope(vec![error(Some("UNAUTHENTICATED"), Some("nope"))], None));
    assert!(matches!(got, Err(Error::SessionExpired)));
    let got = gql_outcome("updateMyBag", true, API, 200, None, "{}", envelope(vec![error(Some("ConcurrentModification"), None)], None));
    assert!(matches!(got, Err(Error::CartConflict)));
    let got = gql_outcome(
        "updateMyBag",
        true,
        API,
        200,
        None,
        "{}",
        envelope(vec![error(None, Some("Object version 3 mismatch, expected 4"))], Some(1)),
    );
    assert!(matches!(got, Err(Error::CartConflict)));
    match gql_outcome("updateMyBag", true, API, 200, None, "{}", envelope(vec![error(Some("BAD"), Some("no")), error(Some("UNAUTHENTICATED"), None)], Some(1))) {
        Err(Error::Graphql { operation, message }) => {
            assert_eq!(operation, "updateMyBag");
            assert_eq!(message, "no");
        }
        other => panic!("{other:?}"),
    }
}

#[test]
fn the_data_is_the_answer_and_an_empty_envelope_says_so() {
    assert!(matches!(gql_outcome("getDetails", true, API, 200, None, "{}", envelope(vec![], Some(7))), Ok(7)));
    match gql_outcome("getDetails", true, API, 200, None, "{}", envelope(vec![], None)) {
        Err(Error::Graphql { message, .. }) => {
            assert_eq!(message, "the gateway answered with neither data nor an error")
        }
        other => panic!("{other:?}"),
    }
    assert_eq!(Error::RateLimited { retry_after: Some(5) }.message(), "Kmart is rate-limiting this client; it asked for 5s before the next request");
    assert!(Error::SessionExpired.is_lapsed());
    assert!(!Error::CartConflict.is_lapsed());
}

#[test]
fn postcodes_without_a_postcode_are_dropped() {
    let data = PostcodeData {
        suggestions: vec![
            PostcodeSuggestion { postcode: s("1010"), suburb: s("Auckland Central"), state: s("NI"), is_metro_region_for_free_shipping: Some(true) },
            PostcodeSuggestion { postcode: None, suburb: s("Nowhere"), state: None, is_metro_region_for_free_shipping: None },
        ],
    };
    let got = postcodes(&data);
    assert_eq!(got.len(), 1);
    assert_eq!(got[0].postcode, "1010");
    assert_eq!(got[0].state.as_deref(), Some("NI"), "feeds the catalogue filter");
    assert_eq!(got[0].metro, Some(true));
}

#[test]
fn availability_reads_each_channel_first_and_collect_by_its_total() {
    let data = AvailabilityData {
        result: Some(AvailabilityResult {
            postcode: None,
            region: s("AKL"),
            availability: Some(Fulfilments {
                home_delivery: Some(vec![ChannelStock { stock: Some(StockCount { available: Some(0) }), pool_name: s("NO POOL FOUND") }]),
                express: Some(vec![]),
                click_and_collect: Some(vec![CncStock {
                    stock: Some(CncTotal { total_available: Some(12) }),
                    locations: vec![Location {
                        fulfilment: Some(Fulfilment { location_id: s("1001"), stock: Some(StockCount { available: Some(12) }), is_buddy_location: None }),
                        location: None,
                    }],
                }]),
                in_store: None,
            }),
        }),
    };
    let a = availability("43210", "1010", &data).expect("answered");
    assert_eq!(a.keycode, "43210");
    assert_eq!(a.postcode, "1010", "the one asked about, where the gateway names none");
    assert_eq!(a.region.as_deref(), Some("AKL"));
    assert_eq!(a.home_delivery, Some(0));
    assert_eq!(a.pool.as_deref(), Some("NO POOL FOUND"));
    assert_eq!(a.express, None);
    assert_eq!(a.click_and_collect, Some(12));
    assert_eq!(a.stores.len(), 1);
    assert!(a.in_store.is_empty());
    assert!(matches!(availability("1", "1010", &AvailabilityData { result: None }), Err(Error::Shape(_))));
}

#[test]
fn a_store_is_shown_trimmed_with_its_blank_lines_dropped() {
    let data = LocationData {
        location: Some(LocationDetail {
            public_name: s("Sylvia Park Nz "),
            phone_number: s("09 000 0000"),
            address1: s(" 286 Mount Wellington Highway "),
            address2: s("   "),
            address3: None,
            city: s("Auckland"),
            state: s("AUK"),
            postcode: s("1060"),
            trading_hours: vec![
                TradingHours { week_day: s("Monday"), hours: s("8am-10pm") },
                TradingHours { week_day: None, hours: s("never") },
                TradingHours { week_day: s("Tuesday"), hours: None },
            ],
        }),
    };
    let st = store("1001", &data).expect("found");
    assert_eq!(st.id, "1001");
    assert_eq!(st.name, "Sylvia Park Nz");
    assert_eq!(st.address, vec!["286 Mount Wellington Highway".to_string()]);
    assert_eq!(st.hours.len(), 2);
    assert_eq!(st.hours[0].day, "Monday");
    assert_eq!(st.hours[1].hours, "");
    assert!(matches!(store("9", &LocationData { location: None }), Err(Error::NoSuchStore(id)) if id == "9"));
}

#[test]
fn a_customer_name_is_joined_from_whatever_parts_there_are() {
    let me = |first: Option<&str>, last: Option<&str>| CustomerData {
        me: Some(CustomerMe {
            customer: Some(CustomerRecord { id: s("c1"), email: s("a@b.nz"), first_name: first.map(str::to_string), last_name: last.map(str::to_string) }),
        }),
    };
    assert_eq!(customer(&me(Some("Ada"), Some("Lovelace"))).unwrap().name.as_deref(), Some("Ada Lovelace"));
    assert_eq!(customer(&me(Some("Ada"), Some(""))).unwrap().name.as_deref(), Some("Ada"));
    assert_eq!(customer(&me(None, Some("Lovelace"))).unwrap().name.as_deref(), Some("Lovelace"));
    assert_eq!(customer(&me(None, None)).unwrap().name, None);
    assert!(matches!(customer(&CustomerData { me: None }), Err(Error::NotSignedIn)));
    assert!(matches!(customer(&CustomerData { me: Some(CustomerMe { customer: None }) }), Err(Error::NotSignedIn)));
}

#[test]
fn a_renewal_starts_with_the_cheapest_source() {
    let held = Some(Tokens { access: "a".into(), refresh: s("r"), expires_at: Some(10) });
    assert!(matches!(renew_step(&held, false), RenewStep::Use));
    assert!(matches!(renew_step(&held, true), RenewStep::Refresh(r) if r == "r"));
    let bare = Some(Tokens { access: "a".into(), refresh: None, expires_at: None });
    assert!(matches!(renew_step(&bare, true), RenewStep::SignIn));
    assert!(matches!(renew_step(&None, false), RenewStep::SignIn));
}

#[test]
fn a_grant_that_does_not_rotate_keeps_the_old_refresh_token() {
    let fresh = Tokens { access: "new".into(), refresh: None, expires_at: Some(99) };
    let t = refreshed(fresh, "old");
    assert_eq!(t.access, "new");
    assert_eq!(t.refresh.as_deref(), Some("old"));
    let rotated = refreshed(Tokens { access: "n".into(), refresh: s("rotated"), expires_at: None }, "old");
    assert_eq!(rotated.refresh.as_deref(), Some("rotated"));
}

#[test]
fn a_dead_end_says_whether_a_session_was_ever_held() {
    assert!(matches!(unrenewable(true), Error::SessionExpired));
    assert!(matches!(unrenewable(false), Error::NotSignedIn));
    assert!(refresh_refused(Error::SessionExpired, true).is_ok());
    assert!(matches!(refresh_refused(Error::CartConflict, false), Err(Error::CartConflict)));
    assert_eq!(sign_in_password(true, true, s("pw")).unwrap(), "pw");
    assert!(matches!(sign_in_password(true, true, None), Err(Error::SessionExpired)));
    assert!(matches!(sign_in_password(false, false, s("pw")), Err(Error::NotSignedIn)));
}
