use shopping_apis::farmers::auth::{form_error, login_form, login_outcome, navigation, synchronizer_token};
use shopping_apis::farmers::client::{
    after_gated, after_retry, after_warm_up, cart_add_params, cart_page_token, cart_remove_params, cart_update_form,
    category_for_path, client_id, client_id_from, fetch_outcome, found_category,
    is_sign_in_redirect, is_the_same_person, lapsed, not_found, page_outcome, post_outcome,
    priced_sku, signed_in_account, signed_in_answer, stock_params, wishlist_add_form,
    wishlist_add_outcome, AccountStep, Client, Retry, WarmRetry, WarmStep,
};
use shopping_apis::farmers::domain::{
    Account, Amount, Cart, CartLine, Category, CategoryRef, Hit, Image, Product, Store, StoreStock,
    Variant, VariationValue,
};
use shopping_apis::farmers::endpoints::{encode, query_string, Endpoints};
use shopping_apis::farmers::error::{from_http, is_challenge_page, is_deny_page, Error};
use shopping_apis::farmers::extract::{account, cart, orders, says_empty, store_stock, wishlists};
use shopping_apis::farmers::http::{client_spec, client_spec_for, profile, EMULATION};
use shopping_apis::farmers::search::{autocomplete, sort, Query, SortOrder};
use shopping_apis::farmers::session::{is_warmth, keep, Session, StoredSession, SESSION_COOKIE};
use shopping_apis::farmers::stores::{is_region, region, region_name, REGIONS};
use shopping_apis::farmers::wire::{
    account as wire_account, id_of, Attribute, AutocompleteEnvelope, DefaultCategory, HitData,
    PathEntry, Price, Promotion, Redirect, RedirectData, SearchResponse, Sent, VariationAttribute,
    WireCategory, WireFacet, WireFacetOption, WireHit, WireImage, WireProduct, WireSuggestion,
    WireVariation,
};
use shopping_apis::json::Json;

fn with(pairs: &[(&str, &str)]) -> Session {
    Session::from_cookies(pairs.iter().map(|(k, v)| (k.to_string(), v.to_string())).collect())
}

const GUEST_SECURE: &str = "__Host-SecureSessionID-tvisitor";
const ACCOUNT_SECURE: &str = "__Host-SecureSessionID-paccount";

// ---- auth ----

#[test]
fn the_form_posts_exactly_what_the_page_does() {
    let page = r#"<form><input type="hidden" name="SynchronizerToken" value="tok123"></form>"#;
    let form = login_form(200, None, page, "a@b.invalid", "pw").expect("a form");
    let names: Vec<&str> = form.iter().map(|(k, _)| k.as_str()).collect();
    assert_eq!(names.len(), 4);
    assert!(names.contains(&"login"), "the submit button is a field");
    assert_eq!(
        names,
        ["SynchronizerToken", "ShopLoginForm_Login", "ShopLoginForm_Password", "login"]
    );
    assert_eq!(form[0].1, "tok123");
    assert_eq!(form[3].1, "Login");
}

#[test]
fn a_sign_in_page_that_redirects_says_the_session_is_still_signed_in() {
    match login_form(302, Some("/account".into()), "", "a", "b") {
        Err(Error::LoginRefused { step, detail }) => {
            assert_eq!(step, "sign-in page");
            assert!(detail.contains("redirected to /account"), "{detail}");
        }
        other => panic!("{other:?}"),
    }
    match login_form(302, None, "", "a", "b") {
        Err(Error::LoginRefused { detail, .. }) => assert!(detail.contains("somewhere else")),
        other => panic!("{other:?}"),
    }
}

#[test]
fn a_sign_in_page_without_a_token_is_not_posted_into() {
    match login_form(200, None, "<html>nothing</html>", "a", "b") {
        Err(Error::LoginRefused { detail, .. }) => {
            assert!(detail.contains("no SynchronizerToken"), "{detail}")
        }
        other => panic!("{other:?}"),
    }
    assert!(matches!(
        login_form(200, None, "WAF_Deny_Page", "a", "b"),
        Err(Error::Denied { warmed: false })
    ));
}

#[test]
fn a_refused_password_is_reported_in_the_pages_own_words() {
    let body = r#"<div class="error-message">  The email address or
        password is incorrect. </div>"#;
    match login_outcome(200, body, with(&[]), "a@b.invalid") {
        Err(Error::LoginRefused { step, detail }) => {
            assert_eq!(step, "password");
            assert_eq!(detail, ": The email address or password is incorrect.");
        }
        other => panic!("{other:?}"),
    }
    match login_outcome(200, "<html></html>", with(&[]), "a@b.invalid") {
        Err(Error::NoSession { detail }) => assert!(detail.contains("answered 200"), "{detail}"),
        other => panic!("{other:?}"),
    }
    let signed = login_outcome(302, "", with(&[(ACCOUNT_SECURE, "x")]), "  a@b.invalid ")
        .expect("signed in");
    assert_eq!(signed.email.as_deref(), Some("a@b.invalid"));
}

// ---- client ----

#[test]
fn a_client_id_looks_like_the_one_the_site_generates() {
    let id = client_id();
    assert_eq!(id.len(), 36, "{id}");
    assert_eq!(id.matches('-').count(), 4, "{id}");
    assert!(id.chars().all(|c| c.is_ascii_hexdigit() || c == '-'), "{id}");
}

#[test]
fn a_client_id_is_made_of_the_clock_it_was_read_from() {
    let id = client_id_from(0x0123_4567_89ab_cdef_0011_2233_4455_6677);
    assert_eq!(id, "45762310-89ab-4def-8011-223344556677");
    assert_eq!(client_id_from(0), "00000000-0000-4000-8000-000000000000");
}

#[test]
fn a_missing_product_is_named_only_when_the_site_said_404() {
    let missing = not_found(
        Error::Http { status: Some(404), body: String::new() },
        Error::NoSuchProduct("x".into()),
    );
    assert!(matches!(missing, Error::NoSuchProduct(_)));
    let failed = not_found(
        Error::Http { status: Some(500), body: String::new() },
        Error::NoSuchProduct("x".into()),
    );
    assert!(matches!(failed, Error::Http { .. }));
    assert!(matches!(
        not_found(Error::Denied { warmed: false }, Error::NoSuchProduct("x".into())),
        Error::Denied { .. }
    ));
}

#[test]
fn a_fresh_client_has_not_warmed_even_with_a_restored_session() {
    let session = with(&[("_abck", "ABC~-1~x")]);
    let mut client = Client::new(Endpoints::defaults(), session);
    assert!(client.session().warmed(), "the cookies are there");
    assert_eq!(client.warm_step(), WarmStep::Warm, "this process has not");
    assert_eq!(client.warm_step(), WarmStep::Done, "and never twice");
}

#[test]
fn a_warmer_takes_a_stored_abck_at_its_word() {
    let mut client = Client::new(Endpoints::defaults(), with(&[("_abck", "A~-1~x")])).with_warmer(true);
    assert!(client.can_warm());
    assert_eq!(client.warm_step(), WarmStep::KeepStored);
}

#[test]
fn a_warm_up_that_hands_out_no_abck_is_a_refusal() {
    let mut client = Client::new(Endpoints::defaults(), with(&[]));
    client.warm_step();
    assert!(matches!(client.warmed_by_page("<html>home</html>"), Err(Error::Denied { warmed: false })));
    assert_eq!(client.warm_step(), WarmStep::Warm, "a refused warm-up does not count");
    client.absorb(&vec![("_abck".into(), "A~-1~x".into())]);
    assert!(client.warmed_by_page("<html>home</html>").is_ok());
    assert_eq!(client.warm_step(), WarmStep::Done);
}

#[test]
fn a_warmers_cookies_replace_the_akamai_set_and_nothing_else() {
    let mut client = Client::new(
        Endpoints::defaults(),
        with(&[(ACCOUNT_SECURE, "me"), ("_abck", "OLD"), ("bm_mi", "stale")]),
    );
    let filed = client
        .warmed_by_hand(vec![("_abck".into(), "NEW".into()), (SESSION_COOKIE.into(), "theirs".into())])
        .expect("warm");
    assert!(filed.is_none(), "no store was given");
    let s = client.session();
    assert_eq!(s.get("_abck"), Some("NEW"));
    assert_eq!(s.get("bm_mi"), None);
    assert_eq!(s.get(SESSION_COOKIE), None);
    assert!(client.is_signed_in());
    assert!(matches!(client.warmed_by_hand(vec![]), Err(Error::Denied { .. })));
}

#[test]
fn an_account_call_renews_or_refuses_before_spending_a_request() {
    let client = Client::new(Endpoints::defaults(), with(&[]));
    assert_eq!(client.account_step(), AccountStep::Refuse);
    let client = Client::new(Endpoints::defaults(), with(&[(ACCOUNT_SECURE, "x")]));
    assert_eq!(client.account_step(), AccountStep::Ready);
    assert!(!signed(&client.anonymous()));
}

fn signed(s: &Session) -> bool {
    s.account()
}

#[test]
fn a_redirect_to_the_sign_in_page_is_a_lapse() {
    assert!(is_sign_in_redirect("https://www.farmers.co.nz/LOGIN?x=1"));
    assert!(is_sign_in_redirect("/x?TargetPipeline=ViewOrders"));
    assert!(!is_sign_in_redirect("/account"));
    assert!(matches!(
        page_outcome("orders", 302, Some("/login".into()), String::new(), true),
        Err(Error::SessionExpired)
    ));
    assert!(matches!(
        page_outcome("orders", 302, Some("/login".into()), String::new(), false),
        Err(Error::NotSignedIn)
    ));
    match page_outcome("orders", 302, Some("/elsewhere".into()), String::new(), false) {
        Err(Error::Shape(m)) => assert_eq!(m, "orders was redirected somewhere unexpected: /elsewhere"),
        other => panic!("{other:?}"),
    }
    assert_eq!(page_outcome("orders", 200, None, "<p>ok</p>".into(), false).unwrap(), "<p>ok</p>");
    assert!(matches!(
        page_outcome("orders", 500, None, "boom".into(), false),
        Err(Error::Http { status: Some(500), .. })
    ));
}

#[test]
fn a_post_answering_302_is_an_answer() {
    assert_eq!(post_outcome(302, "moved".into()).unwrap(), "moved");
    assert!(matches!(post_outcome(403, "Access Denied".into()), Err(Error::Denied { .. })));
    assert!(matches!(post_outcome(429, "{\"cpr_chlge\":\"true\"}".into()), Err(Error::Challenged)));
    assert!(matches!(post_outcome(500, "x".into()), Err(Error::Http { .. })));
    assert!(fetch_outcome("{}").is_ok());
    assert!(matches!(fetch_outcome("<div class=\"sec-if-cpt-container\">"), Err(Error::Challenged)));
}

#[test]
fn a_second_denial_says_a_warm_up_was_tried() {
    assert!(matches!(after_retry(Error::Denied { warmed: false }), Error::Denied { warmed: true }));
    assert!(matches!(after_retry(Error::Challenged), Error::Challenged));
    assert!(matches!(lapsed(true), Error::SessionExpired));
    assert!(matches!(lapsed(false), Error::NotSignedIn));
}

#[test]
fn the_same_person_is_recognised_without_case_or_space() {
    let mut a = Account::default();
    a.email = Some(" Shopper@Example.Invalid ".into());
    assert!(is_the_same_person(&a, &with(&[]), "shopper@example.invalid"));
    let nobody = Account::default();
    assert!(!is_the_same_person(&nobody, &with(&[]), "shopper@example.invalid"));
    let filed = with(&[]).with_email(Some("shopper@example.invalid".into()));
    assert!(is_the_same_person(&nobody, &filed, "SHOPPER@example.invalid"));
}

// ---- domain ----

#[test]
fn a_flattened_tree_carries_the_names_above_each_node() {
    let tree = Category {
        id: "51-03".into(),
        name: "Men".into(),
        children: vec![Category {
            id: "51-0303".into(),
            name: "Sleepwear".into(),
            children: vec![Category {
                id: "51-030302".into(),
                name: "Robes".into(),
                ..Default::default()
            }],
            ..Default::default()
        }],
        ..Default::default()
    };
    let flat = tree.flatten();
    assert_eq!(flat.len(), 3);
    assert_eq!(flat[0].0, Vec::<String>::new());
    assert_eq!(flat[2].0, vec!["Men".to_string(), "Sleepwear".to_string()]);
    assert_eq!(flat[2].1.id, "51-030302");
}

#[test]
fn an_account_with_half_a_name_still_has_one() {
    let mut a = Account { signed_in: true, ..Default::default() };
    assert_eq!(a.name(), None);
    a.first_name = Some("Ada".into());
    assert_eq!(a.name().as_deref(), Some("Ada"));
    a.last_name = Some("Lovelace".into());
    assert_eq!(a.name().as_deref(), Some("Ada Lovelace"));
}

#[test]
fn a_variant_is_labelled_by_what_makes_it_different() {
    let v = Variant {
        sku: "6867065002".into(),
        name: None,
        values: vec![
            VariationValue { axis: "Colour".into(), value: "Grey".into() },
            VariationValue { axis: "Size".into(), value: "L-XL".into() },
        ],
        in_stock: Some(true),
        available_stock: Some(31),
        default: true,
    };
    assert_eq!(v.label(), "Colour Grey, Size L-XL");
}

// ---- endpoints ----

#[test]
fn a_rest_path_carries_the_locale_as_a_matrix_parameter() {
    let e = Endpoints::defaults();
    assert_eq!(
        e.rest("/products/6867065002"),
        "https://www.farmers.co.nz/INTERSHOP/rest/WFS/Farmers-Shop-Site/-;loc=en_NZ/products/6867065002"
    );
}

#[test]
fn a_pipeline_path_orders_its_segments_differently_from_the_rest_base() {
    let e = Endpoints::defaults();
    assert_eq!(
        e.pipeline("ViewUserAccount-ProcessLogin"),
        "https://www.farmers.co.nz/INTERSHOP/web/WFS/Farmers-Shop-Site/en_NZ/-/NZD/ViewUserAccount-ProcessLogin"
    );
}

#[test]
fn a_search_url_carries_the_key_the_storefront_publishes() {
    let e = Endpoints::defaults();
    let url = e.constructor("/search/robe", "a-client-id", 1);
    assert!(url.starts_with("https://ac.cnstrc.com/search/robe?"), "{url}");
    assert!(url.contains("key=key_wafe8wrKCXfPyWKw"), "{url}");
    assert!(url.contains("i=a-client-id"), "{url}");
}

#[test]
fn the_account_pages_are_the_short_urls_rather_than_pipelines() {
    let e = Endpoints::defaults();
    assert_eq!(e.cart_page(), "https://www.farmers.co.nz/cart");
    assert_eq!(e.orders_page(), "https://www.farmers.co.nz/orders");
    assert_eq!(e.wishlists_page(), "https://www.farmers.co.nz/wishlists");
}

#[test]
fn endpoints_an_overridden_origin_loses_its_trailing_slash() {
    let e = Endpoints::defaults()
        .with_origin("http://127.0.0.1:9999/")
        .with_search("http://127.0.0.1:9998/");
    assert!(e.rest("/products/1").starts_with("http://127.0.0.1:9999/INTERSHOP"));
    assert!(e.constructor("/search/x", "c", 1).starts_with("http://127.0.0.1:9998/search/x?"));
}

#[test]
fn an_image_url_is_absolute_whichever_half_of_the_site_sent_it() {
    let e = Endpoints::defaults();
    assert_eq!(
        e.media("/INTERSHOP/static/a.jpg"),
        "https://www.farmers.co.nz/INTERSHOP/static/a.jpg"
    );
    assert_eq!(
        e.media("https://www.farmers.co.nz:443/INTERSHOP/static/a.jpg"),
        "https://www.farmers.co.nz:443/INTERSHOP/static/a.jpg"
    );
}

#[test]
fn a_query_string_encodes_values_and_keeps_the_order_it_was_given() {
    let params = [
        ("filters[manufacturername]".to_string(), "Karen Walker".to_string()),
        ("page".to_string(), "2".to_string()),
    ]
    .to_vec();
    assert_eq!(query_string(&params), "filters%5Bmanufacturername%5D=Karen%20Walker&page=2");
}

#[test]
fn encoding_escapes_every_byte_of_a_multibyte_character() {
    assert_eq!(encode("ū"), "%C5%AB");
    assert_eq!(encode("a-b_c.d~e"), "a-b_c.d~e");
    assert_eq!(e_page(), "https://www.farmers.co.nz/men/robe");
}

fn e_page() -> String {
    Endpoints::defaults().page("//men/robe")
}

// ---- error ----

#[test]
fn a_deny_page_is_recognised_by_its_body_because_its_status_is_success() {
    assert!(is_deny_page(
        "<HTML><HEAD><TITLE>Access Denied</TITLE></HEAD><BODY>WAF_Deny_Page</BODY></HTML>"
    ));
    assert!(!is_deny_page(r#"{"sku":"6867065002","name":"a robe"}"#));
}

#[test]
fn a_product_that_merely_mentions_access_is_not_a_deny_page() {
    let body = format!(r#"{{{}"name":"Access Denied"}}"#, r#""pad":"xxxxxxxxxxxxxxxx","#.repeat(300));
    assert!(body.len() > 4096, "the fixture has to overflow the window");
    assert!(!is_deny_page(&body), "the marker is past the first 4KB");
}

#[test]
fn a_multibyte_body_shorter_than_the_window_is_not_sliced_mid_character() {
    assert!(!is_deny_page("piñata ✨"));
}

#[test]
fn the_interstitial_is_recognised_and_a_403_deny_is_reclassified() {
    assert!(is_challenge_page("<div id=\"sec-if-cpt-container\"></div>"));
    assert!(!is_challenge_page("{}"));
    assert!(matches!(from_http(Some(403), "Access Denied".into()), Error::Denied { warmed: false }));
    assert!(matches!(from_http(Some(429), "{\"cpr_chlge\":\"true\"}".into()), Error::Challenged));
    assert!(matches!(from_http(Some(429), "slow down".into()), Error::Http { status: Some(429), .. }));
    let e = Error::Denied { warmed: true };
    assert!(e.is_denied());
    assert!(!e.is_lapsed());
    assert!(!e.needs_login());
    assert!(Error::NotSignedIn.is_lapsed());
    assert!(Error::LoginRefused { step: "password", detail: String::new() }.needs_login());
}

// ---- extract ----

#[test]
fn the_account_header_says_who_is_signed_in() {
    let html = r#"<li class="users ajax-login-status">
        <span id="header-login-icon" class="glyphicon-user my-account-logged-in"></span>
        <script>$(document).ready(function(){
        DDTrackingEvents.identityUserEvent('shopper@example.invalid','Ada','Lovelace' )
        })</script></li>"#;
    let account = account(html);
    assert!(account.signed_in);
    assert_eq!(account.email.as_deref(), Some("shopper@example.invalid"));
    assert_eq!(account.name().as_deref(), Some("Ada Lovelace"));
}

#[test]
fn a_signed_out_header_is_not_given_a_name_by_a_stale_script() {
    let html = r#"<span class="my-account-logged-out"></span>
        <script>DDTrackingEvents.identityUserEvent('someone@example.invalid','A','B')</script>"#;
    let account = account(html);
    assert!(!account.signed_in);
    assert_eq!(account.email, None);
    assert_eq!(account.name(), None);
}

#[test]
fn an_anonymous_header_has_no_identity_call_at_all() {
    let html = r#"<span class="my-account-logged-out"></span>
        <script>DDTrackingEvents.anonymousUserEvent();</script>"#;
    assert_eq!(account(html), Account::default());
}

// ---- http ----

const PROFILES: [&str; 4] = ["Chrome137", "Firefox133", "Firefox139", "Safari18_5"];

#[test]
fn http_a_profile_is_found_however_its_name_is_punctuated() {
    assert_eq!(profile("firefox139", &PROFILES), Some("Firefox139"));
    assert_eq!(profile("Firefox_139", &PROFILES), Some("Firefox139"));
    assert_eq!(profile("FIREFOX-139", &PROFILES), Some("Firefox139"));
}

#[test]
fn an_unknown_name_is_none_rather_than_a_silent_default() {
    assert_eq!(profile("netscape", &PROFILES), None);
    assert_eq!(profile("firefox", &PROFILES), None);
    assert_eq!(profile("", &PROFILES), None);
}

// ---- search ----

#[test]
fn the_two_directions_of_one_sort_are_told_apart_by_name() {
    assert_eq!(sort("price"), Some(("productsalepricegross", SortOrder::Ascending)));
    assert_eq!(sort("price-desc"), Some(("productsalepricegross", SortOrder::Descending)));
    assert_eq!(sort("PRICE"), Some(("productsalepricegross", SortOrder::Ascending)));
    assert_eq!(sort("nonsense"), None);
}

#[test]
fn a_search_url_counts_pages_from_one_although_this_crate_counts_from_zero() {
    let e = Endpoints::defaults();
    let url = Query::new().page(0).search(&e, "robe", "c", 1);
    assert!(url.contains("&page=1"), "{url}");
    let url = Query::new().page(2).search(&e, "robe", "c", 1);
    assert!(url.contains("&page=3"), "{url}");
}

#[test]
fn a_brands_group_id_keeps_the_slash_that_makes_it_one() {
    let e = Endpoints::defaults();
    let url = Query::new().browse(&e, "Brands/Chisel", "c", 1);
    assert!(url.contains("/browse/group_id/Brands/Chisel?"), "{url}");
    let url = Query::new().search(&e, "blue shirt", "c", 1);
    assert!(url.contains("/search/blue%20shirt?"), "{url}");
}

#[test]
fn filters_and_a_known_sort_are_sent_and_an_unknown_sort_is_dropped() {
    let e = Endpoints::defaults();
    let url = Query::new()
        .filter("manufacturername", "Karen Walker")
        .sorted_by(Some("price".into()))
        .search(&e, "coat", "c", 1);
    assert!(url.contains("filters%5Bmanufacturername%5D=Karen%20Walker"), "{url}");
    assert!(url.contains("sort_by=productsalepricegross"), "{url}");
    assert!(url.contains("sort_order=ascending"), "{url}");
    let url = Query::new().sorted_by(Some("cheapest".into())).search(&e, "robe", "c", 1);
    assert!(!url.contains("sort_by"), "{url}");
    let url = autocomplete(&e, "rob", "a-client", 3);
    assert!(url.starts_with("https://ac.cnstrc.com/autocomplete/rob?"), "{url}");
}

// ---- session ----

#[test]
fn a_visitors_secure_session_is_not_an_account_even_though_it_looks_like_one() {
    assert!(!with(&[(GUEST_SECURE, "abc"), (SESSION_COOKIE, "s")]).account());
    assert!(with(&[(ACCOUNT_SECURE, "abc")]).account());
    assert!(!with(&[(ACCOUNT_SECURE, "")]).account(), "an empty value is a deletion");
}

#[test]
fn the_akamai_flag_is_read_but_not_enforced() {
    let s = with(&[("_abck", "0123456789ABCDEF0123456789ABCDEF~-1~opaque")]);
    assert!(s.warmed());
    assert_eq!(s.validation(), Some(-1));
    assert_eq!(with(&[("_abck", "ABC~0~xyz")]).validation(), Some(0));
    assert_eq!(with(&[("_abck", "nonsense")]).validation(), None);
    assert!(!Session::default().warmed());
}

#[test]
fn session_signing_out_keeps_the_warm_up_it_did_not_pay_for() {
    let mut s = with(&[
        (ACCOUNT_SECURE, "abc"),
        (GUEST_SECURE, "def"),
        (SESSION_COOKIE, "s"),
        ("_abck", "ABC~-1~xyz"),
        ("bm_sz", "zzz"),
    ]);
    s.email = Some("shopper@example.invalid".into());
    s.sign_out();
    assert!(!s.account());
    assert_eq!(s.email, None);
    assert_eq!(s.get(SESSION_COOKIE), None);
    assert!(s.warmed(), "the warm-up survives a logout");
    assert_eq!(s.get("bm_sz"), Some("zzz"));
}

#[test]
fn a_warm_up_replaces_the_warmth_and_touches_nothing_else() {
    let mut s = with(&[
        (ACCOUNT_SECURE, "the-account"),
        (SESSION_COOKIE, "the-signed-in-session"),
        ("_abck", "LAPSED~-1~x"),
        ("bm_mi", "stale"),
    ]);
    s.rewarm(
        [
            ("_abck", "FRESH~-1~x"),
            ("bm_sz", "fresh"),
            (SESSION_COOKIE, "the-browsers-own-visit"),
            (GUEST_SECURE, "the-browsers-own-visitor"),
        ]
        .iter()
        .map(|(k, v)| (k.to_string(), v.to_string()))
        .collect(),
    );
    assert!(s.account(), "still signed in");
    assert_eq!(s.get(SESSION_COOKIE), Some("the-signed-in-session"));
    assert_eq!(s.get(GUEST_SECURE), None, "the browser's visit stays there");
    assert_eq!(s.get("_abck"), Some("FRESH~-1~x"));
    assert_eq!(s.get("bm_sz"), Some("fresh"));
    assert_eq!(s.get("bm_mi"), None);
}

#[test]
fn an_expiring_cookie_is_removed_rather_than_stored_empty() {
    let mut s = with(&[(ACCOUNT_SECURE, "abc")]);
    s.absorb(&vec![(ACCOUNT_SECURE.to_string(), String::new())]);
    assert!(!s.account());
    let mut s = with(&[(ACCOUNT_SECURE, "abc")]);
    s.absorb(&vec![(ACCOUNT_SECURE.to_string(), "\"\"".to_string())]);
    assert!(!s.account());
    s.absorb(&vec![("bm_sz".to_string(), "v".to_string())]);
    assert_eq!(s.get("bm_sz"), Some("v"));
}

#[test]
fn cookies_are_sent_as_one_header_and_never_printed() {
    let s = with(&[(SESSION_COOKIE, "abc"), ("_abck", "secret-value")]);
    assert_eq!(s.header().as_deref(), Some("_abck=secret-value; sid=abc"));
    let text = s.describe();
    assert!(text.contains("_abck"), "names are fine");
    assert!(!text.contains("secret-value"), "{text}");
    assert!(Session::default().header().is_none());
}

#[test]
fn only_the_cookies_worth_keeping_reach_the_credential_store() {
    let s = with(&[
        ("_abck", "a"),
        (SESSION_COOKIE, "b"),
        (ACCOUNT_SECURE, "c"),
        ("ssViewedProducts", "6867065002"),
        ("ConstructorioID_client_id", "an-id"),
    ]);
    let stored = StoredSession::of(&s);
    assert_eq!(stored.cookies.len(), 3);
    assert!(!stored.cookies.iter().any(|(k, _)| k == "ssViewedProducts"));
}

#[test]
fn a_filed_session_reads_back_with_its_account_and_its_warmth() {
    let session = with(&[(ACCOUNT_SECURE, "abc"), ("_abck", "ABC~-1~x")])
        .with_email(Some("shopper@example.invalid".into()));
    let back = StoredSession::of(&session).session();
    assert!(back.account());
    assert!(back.warmed());
    assert_eq!(back.email.as_deref(), Some("shopper@example.invalid"));
    assert_eq!(back.names(), vec![ACCOUNT_SECURE.to_string(), "_abck".to_string()], "in byte order");
}

#[test]
fn warmth_and_keeping_are_named_as_the_storefront_names_them() {
    assert!(is_warmth("_abck"));
    assert!(is_warmth("AKA_A2"));
    assert!(!is_warmth(SESSION_COOKIE));
    assert!(keep(GUEST_SECURE));
    assert!(keep("pgid-Farmers-Shop-Site"));
    assert!(!keep("ssViewedProducts"));
}

// ---- stores ----

#[test]
fn a_region_is_found_by_its_code_or_by_its_name() {
    assert_eq!(region("AUK"), Some("AUK"));
    assert_eq!(region("auk"), Some("AUK"));
    assert_eq!(region("Auckland"), Some("AUK"));
    assert_eq!(region("auckland"), Some("AUK"));
}

#[test]
fn a_macron_and_an_apostrophe_are_not_required_at_a_keyboard() {
    assert_eq!(region("Hawke's Bay"), Some("HKB"));
    assert_eq!(region("hawkes bay"), Some("HKB"));
    assert_eq!(region("Manawatū-Whanganui"), Some("MWT"));
    assert_eq!(region("manawatu whanganui"), Some("MWT"));
}

#[test]
fn an_unknown_region_is_none_rather_than_a_guess() {
    assert_eq!(region("Tasman"), None, "no Farmers store, so no code");
    assert_eq!(region("Sydney"), None);
    assert_eq!(region(""), None);
    assert_eq!(region("  "), None);
}

#[test]
fn a_code_can_be_checked_and_named() {
    assert!(is_region("CAN"));
    assert!(is_region("can"));
    assert!(!is_region("XYZ"));
    assert_eq!(region_name("OTA"), Some("Otago"));
    assert_eq!(region_name("XYZ"), None);
}

#[test]
fn every_code_round_trips_through_both_lookups() {
    for (code, name) in REGIONS {
        assert_eq!(region(code), Some(code), "{code}");
        assert_eq!(region(name), Some(code), "{name}");
        assert_eq!(region_name(code), Some(name));
    }
}

// ---- wire ----

#[test]
fn a_cross_reference_gives_up_its_id() {
    assert_eq!(
        id_of("Farmers-Shop-Site/-;loc=en_NZ/categories/51-030302").as_deref(),
        Some("51-030302")
    );
    assert_eq!(id_of("").as_deref(), None);
    assert_eq!(id_of("a/b/").as_deref(), Some("b"));
}

#[test]
fn a_search_hit_separates_the_master_from_what_can_be_bought() {
    let w = WireHit {
        value: Some("Chisel Fleece Robe".into()),
        data: Some(HitData {
            id: Some("6867065".into()),
            url: Some("/robe".into()),
            sku: vec!["6867065".into(), "6867065001".into(), "6867065002".into()],
            image_url: None,
            manufacturername: Some("Chisel".into()),
            stockstatus: None,
            group_ids: vec!["51-03".into()],
        }),
    };
    let h = w.into_hit().expect("a hit");
    assert_eq!(h.sku, "6867065");
    assert_eq!(h.variants, vec!["6867065001".to_string(), "6867065002".to_string()]);
    assert_eq!(h.brand.as_deref(), Some("Chisel"));
    assert!(WireHit { value: None, data: None }.into_hit().is_none());
    assert!(wire_account(true).signed_in);
}

// ---- extract: store stock ----

/// Two stores, trimmed from a live available-stores answer.
const STORES: &str = r##"
<div class="panel-heading">
<div class="store__name"><span>Newmarket</span>
<a href="#store1"><div class="view-store-details">Store Details </div></a></div>
<div class="store-stock">In Stock</div>
</div>
<div id="store1" class="panel-collapse store-infobox collapse"><div class="row">
<div class="store-address col-sm-6">
<div class="store-city"><span class="store-pin"></span> Newmarket</div>
<div class="store-details">309 Broadway<br/>
Newmarket&nbsp;</div>
<div class="store-phone">Ph: <a href="tel:09 441 3654">09 441 3654</a></div>
</div>
<div class="store-hours col-sm-6">
<div class="store-hour-row"><div class="sday">Monday</div><div class="stime">9:00 a.m. - 7:00 p.m.</div></div>
<div class="store-hour-row"><div class="sday">Sunday </div><div class="stime">10:00 a.m. - 7:00 p.m.</div></div>
</div>
</div></div>
<div class="panel-heading">
<div class="store__name"><span>Albany</span></div>
<div class="store-stock">Not In Stock</div>
</div>
<div id="store2" class="panel-collapse store-infobox collapse"><div class="row">
<div class="store-address col-sm-6"><div class="store-details">Don McKinnon Drive</div></div>
</div></div>"##;

#[test]
fn every_store_in_the_fragment_is_read_with_its_verdict() {
    let stock = store_stock(STORES);
    assert_eq!(stock.len(), 2);
    assert_eq!(stock[0].store.name, "Newmarket");
    assert!(stock[0].available());
    assert_eq!(stock[1].store.name, "Albany");
    assert!(!stock[1].available());
}

#[test]
fn a_two_line_address_comes_back_as_one_line_without_the_padding() {
    let stock = store_stock(STORES);
    assert_eq!(stock[0].store.address.as_deref(), Some("309 Broadway Newmarket"));
    assert_eq!(stock[0].store.phone.as_deref(), Some("09 441 3654"));
}

#[test]
fn the_heading_and_the_detail_panel_are_paired_by_position() {
    let stock = store_stock(STORES);
    assert_eq!(stock[1].store.address.as_deref(), Some("Don McKinnon Drive"));
    assert_eq!(stock[0].store.hours.len(), 2);
    assert_eq!(stock[0].store.hours[1].0, "Sunday");
}

#[test]
fn a_store_with_no_detail_panel_is_still_reported() {
    let stock = store_stock(
        r#"<div class="panel-heading"><div class="store__name"><span>Riccarton</span></div>
           <div class="store-stock">In Stock</div></div>"#,
    );
    assert_eq!(stock.len(), 1);
    assert_eq!(stock[0].store.address, None);
    assert!(stock[0].store.hours.is_empty());
}

#[test]
fn markup_that_is_not_the_expected_fragment_yields_nothing_rather_than_failing() {
    assert!(store_stock("<html><body>Access Denied</body></html>").is_empty());
    assert!(store_stock("").is_empty());
}

#[test]
fn opening_times_keep_the_order_the_page_lists_them_in() {
    let stock = store_stock(STORES);
    assert_eq!(
        stock[0].store.hours,
        vec![
            ("Monday".to_string(), "9:00 a.m. - 7:00 p.m.".to_string()),
            ("Sunday".to_string(), "10:00 a.m. - 7:00 p.m.".to_string()),
        ]
    );
    assert_eq!(stock[1].status, "Not In Stock");
}

#[test]
fn an_account_with_nothing_in_it_is_told_apart_from_markup_that_moved() {
    let none = r#"<div class="col-md-9"><h1>Order History</h1>
                  <p>You do not have any Orders</p></div>"#;
    assert!(says_empty(none, "orders"));
    assert!(!says_empty(none, "wish lists"));

    let lists = r#"<div class="section"><p class="flush">Currently you don't have
                   any wish lists.</p></div>"#;
    assert!(says_empty(lists, "wish lists"));

    assert!(!says_empty("<table><tr><td>12345</td></tr></table>", "orders"));
}

#[test]
fn a_long_paragraph_that_mentions_having_any_is_not_an_empty_state() {
    let long = format!("<p>You do not have any orders {}</p>", "x".repeat(200));
    assert!(!says_empty(&long, "orders"));
}

#[test]
fn a_form_post_is_sent_as_a_navigation_rather_than_as_an_xhr() {
    let endpoints = Endpoints::defaults();
    let headers = navigation(&endpoints, Some("https://www.farmers.co.nz/login"));
    let get = |name: &str| headers.iter().find(|(k, _)| k == name).map(|(_, v)| v.as_str());
    assert_eq!(get("sec-fetch-mode"), Some("navigate"));
    assert_eq!(get("sec-fetch-dest"), Some("document"));
    assert_eq!(get("referer"), Some("https://www.farmers.co.nz/login"));
    assert_eq!(get("origin"), Some("https://www.farmers.co.nz"));
    let own = navigation(&endpoints, None);
    assert_eq!(own[1], ("referer".to_string(), "https://www.farmers.co.nz".to_string()));
}

fn wire_category(id: &str, description: Option<&str>, subs: Vec<WireCategory>) -> WireCategory {
    WireCategory {
        id: Some(id.into()),
        name: Some("Brand".into()),
        description: description.map(str::to_string),
        attributes: vec![Attribute { name: "URLRewrite".into(), value: Json::Str("brand".into()) }],
        has_online_products: false,
        online_products_count_in_sub_categories: Some(29893),
        sub_categories: subs,
    }
}

#[test]
fn a_categorys_internal_note_is_not_shown_as_its_description() {
    let c = wire_category("Brands", Some("DO NOT DELETE - Farmers Catalog for Brands"), vec![])
        .into_category();
    assert_eq!(c.description, None);
    assert_eq!(c.path.as_deref(), Some("brand"));
    assert_eq!(c.product_count, Some(29893));
}

#[test]
fn a_category_keeps_a_real_description_and_its_subcategories_in_order() {
    let c = wire_category(
        "51",
        Some("Clothing for men"),
        vec![wire_category("51-03", Some(""), vec![]), wire_category("51-04", None, vec![])],
    )
    .into_category();
    assert_eq!(c.description.as_deref(), Some("Clothing for men"));
    let ids: Vec<&str> = c.children.iter().map(|k| k.id.as_str()).collect();
    assert_eq!(ids, ["51-03", "51-04"]);
    assert_eq!(c.children[0].description, None, "a blank description is none");
}

// ---- extract: the basket ----

/// A two-line mini cart, trimmed from a live answer, its ids made fake.
const MINICART: &str = r##"
<div id="mini-cart-container"><a id="cart-tag" href="#miniCart">
<span id="mini-cart-count">3 items</span><span id="mini-cart-separator"> / </span>
<span id="mini-cart-total" class="mini-cart-price">$309.97</span></a>
<div class="mini-cart collapse" id="miniCart"
data-currency="NZD"
data-cart-id="notarealcartid00000001"
cart-total="$269.53"
data-cart-grand-total="$309.97"
data-cart-subtotal="$309.97">
<div class="product-rows-block"><div class="slider">
<div class="product-row quick-cart-row">
<div class="category-path hidden">Kitchen &amp; Dining &gt;&gt; Cookware</div>
<div class="mini-product-img"><a href="https://www.farmers.co.nz/kitchen-dining/a-stockpot-6718307">
<img class="product-image" alt="A stockpot product photo"/></a></div>
<div class="mini-product-info"><div class="mini-product-title"><div class="row">
<div class="col-xs-9"><a href="https://www.farmers.co.nz/kitchen-dining/a-stockpot-6718307"
title="Baccarat iD3 Stainless Steel Stockpot with Lid, 24cm">Baccarat iD3 Stainless Steel Stockpot with Lid, 24cm</a></div>
<div class="col-xs-3"><a class="ico-remove-item"
onclick="QuickCart.removeItem.call(['https://www.farmers.co.nz/INTERSHOP/web/WFS/Farmers-Shop-Site/en_NZ/-/NZD/ViewMiniCart-RemoveItemFromMinicart?RemovePLI=notarealpli0000000001','https://www.farmers.co.nz/INTERSHOP/web/WFS/Farmers-Shop-Site/en_NZ/-/NZD/ViewMiniCart-Status','https://www.farmers.co.nz/cart'])"
data-remove-pli-minicart="6718307"></a></div></div></div>
<div class="cart-pli-data"><span>Quantity:</span><span class="product-quantity">2</span></div>
<div class="product-price" data-sales-price="$219.99" data-list-price="$239.99">
<div><div class="total-price">$439.98</div></div></div>
</div></div>
<div class="product-row quick-cart-row">
<div class="mini-product-img"><a href="https://www.farmers.co.nz/men/robes/chisel-fleece-robe-charcoal-6867065002"></a></div>
<div class="mini-product-info"><div class="mini-product-title"><div class="row">
<div class="col-xs-9"><a href="https://www.farmers.co.nz/men/robes/chisel-fleece-robe-charcoal-6867065002">Chisel Fleece Robe, Charcoal</a></div>
<div class="col-xs-3"><a class="ico-remove-item"
onclick="QuickCart.removeItem.call(['https://www.farmers.co.nz/INTERSHOP/web/WFS/Farmers-Shop-Site/en_NZ/-/NZD/ViewMiniCart-RemoveItemFromMinicart?RemovePLI=notarealpli0000000002','x','y'])"
data-remove-pli-minicart="6867065002"></a></div></div></div>
<div class="cart-pli-data"><span>Quantity:</span><span class="product-quantity">1</span></div>
<div class="cart-pli-data"><span>Colour:</span>Grey<br></div>
<div class="cart-pli-data"><span>Size:</span>L-XL</div>
<div class="product-price" data-sales-price="$89.99" data-list-price="$89.99">
<div><div class="total-price">$89.99</div></div></div>
</div></div>
</div></div></div></div>"##;

/// An amount as the page quotes it, read the way a price is read: digits,
/// dots and a leading minus; text with no digits is no amount.
fn money(text: &Option<String>) -> Option<f64> {
    let t = text.as_deref()?.trim();
    let digits: String = t.chars().filter(|c| c.is_ascii_digit() || *c == '.').collect();
    if digits.is_empty() {
        return None;
    }
    let v: f64 = digits.parse().ok()?;
    Some(if t.starts_with('-') { -v } else { v })
}

fn amount(text: &Option<String>) -> f64 {
    money(text).expect("an amount")
}

#[test]
fn the_basket_is_read_out_of_the_mini_cart_fragment() {
    let cart = cart(MINICART);
    assert_eq!(cart.id.as_deref(), Some("notarealcartid00000001"));
    assert_eq!(cart.currency.as_deref(), Some("NZD"));
    assert_eq!(cart.count, Some(3));
    assert_eq!(amount(&cart.subtotal), 309.97);
    assert_eq!(amount(&cart.grand_total), 309.97);
    assert_eq!(amount(&cart.total), 269.53);
    assert_eq!(cart.lines.len(), 2);
}

#[test]
fn a_line_carries_the_id_that_changing_it_is_addressed_by() {
    let cart = cart(MINICART);
    assert_eq!(cart.lines[0].id, "notarealpli0000000001");
    assert_eq!(cart.lines[1].id, "notarealpli0000000002");
    assert_eq!(cart.nth(1).map(|l| l.id.as_str()), Some("notarealpli0000000001"));
}

#[test]
fn a_line_is_not_addressed_by_its_sku_because_two_lines_can_share_one() {
    let cart = cart(MINICART);
    assert_eq!(cart.lines[0].sku.as_deref(), Some("6718307"));
    assert_ne!(cart.lines[0].sku.as_deref(), Some(cart.lines[0].id.as_str()));
}

#[test]
fn a_line_keeps_its_quantity_prices_and_what_makes_it_different() {
    let cart = cart(MINICART);
    let pot = &cart.lines[0];
    assert_eq!(pot.quantity, Some(2));
    assert_eq!(amount(&pot.unit_price), 219.99);
    assert_eq!(amount(&pot.list_price), 239.99);
    assert_eq!(amount(&pot.total), 439.98);
    assert!(pot.options.is_empty(), "a stockpot has no size");

    let robe = &cart.lines[1];
    assert_eq!(robe.label(), "Colour Grey, Size L-XL");
    assert_eq!(cart.units(), 3);
}

#[test]
fn quantity_is_not_mistaken_for_a_variation() {
    let cart = cart(MINICART);
    assert!(
        !cart.lines[1].options.iter().any(|o| o.axis == "Quantity"),
        "{:?}",
        cart.lines[1].options
    );
    assert_eq!(cart.lines[1].options.len(), 2);
}

#[test]
fn an_empty_basket_is_a_cart_with_no_lines_rather_than_nothing() {
    let empty = r#"<div id="mini-cart-container"><span id="mini-cart-count">0 items</span>
        <div class="mini-cart" id="miniCart" data-currency="NZD" data-cart-id=""
        data-cart-subtotal="">Your cart is currently empty.</div></div>"#;
    let cart = cart(empty);
    assert!(cart.is_empty());
    assert_eq!(cart.count, Some(0));
    assert_eq!(cart.units(), 0);
    assert_eq!(cart.id, None, "a blank attribute is absent rather than empty");
    assert_eq!(money(&cart.subtotal), None);
}

#[test]
fn a_cart_counts_units_from_its_rows_rather_than_trusting_the_header() {
    let line = |id: &str, qty: i64| CartLine { id: id.into(), quantity: Some(qty), ..Default::default() };
    let cart = Cart { count: Some(99), lines: vec![line("a", 2), line("b", 1)], ..Default::default() };
    assert_eq!(cart.units(), 3, "the rows are the evidence");
    assert!(!cart.is_empty());
    assert_eq!(cart.line("b").map(|l| l.id.as_str()), Some("b"));
    assert!(cart.line("nope").is_none());
}

#[test]
fn a_cart_line_is_addressable_by_the_number_a_listing_showed() {
    let line = |id: &str| CartLine { id: id.into(), ..Default::default() };
    let cart = Cart { lines: vec![line("first"), line("second")], ..Default::default() };
    assert_eq!(cart.nth(1).map(|l| l.id.as_str()), Some("first"));
    assert_eq!(cart.nth(2).map(|l| l.id.as_str()), Some("second"));
    assert!(cart.nth(3).is_none());
    assert!(cart.nth(0).is_none(), "counting from 1, so 0 is a mistake rather than the first row");
}

#[test]
fn a_row_without_a_remove_link_is_not_a_line() {
    let html = r#"<div class="product-row"><a href="https://x/a-12345">A</a></div>
        <div class="product-row"><a class="ico-remove-item" onclick="f('x?RemovePLI=abc_1-2&y')"></a>
        <a class="product-image" href="https://www.farmers.co.nz/a/thing-998877/" title="Thing"></a>
        <div class="product-quantity"> 4 </div></div>"#;
    let c = cart(html);
    assert_eq!(c.lines.len(), 1);
    assert_eq!(c.lines[0].id, "abc_1-2");
    assert_eq!(c.lines[0].sku.as_deref(), Some("998877"), "read off the URL when no attribute says");
    assert_eq!(c.lines[0].name.as_deref(), Some("Thing"), "the link's title when no text names it");
    assert_eq!(c.lines[0].quantity, Some(4));
    assert_eq!(c.count, None);
}

#[test]
fn an_order_row_gives_its_number_without_the_hash() {
    let html = r#"<table class="order-history"><tbody>
        <tr><td># 12345</td><td class="date">1 May 2025</td><td class="status">Shipped</td>
            <td class="total">$20.00</td><td><a href="/orders/12345">View</a></td></tr>
        <tr><td>  </td><td class="status">Lost</td></tr>
        </tbody></table>"#;
    let os = orders(html);
    assert_eq!(os.len(), 1, "a row with no number is not an order");
    assert_eq!(os[0].number, "12345");
    assert_eq!(os[0].placed.as_deref(), Some("1 May 2025"));
    assert_eq!(os[0].status.as_deref(), Some("Shipped"));
    assert_eq!(money(&os[0].total), Some(20.0));
    assert_eq!(os[0].url.as_deref(), Some("/orders/12345"));
    assert!(orders("<p>You do not have any Orders</p>").is_empty());
}

#[test]
fn a_saved_list_carries_its_name_its_flags_and_its_products() {
    let html = r#"<ul><li class="wishlist-entry" data-wishlist-id="w1"><h3>Birthday</h3>
        <span class="badge">preferred</span>
        <div class="product-tile"><a href="https://www.farmers.co.nz/men/robes/robe-6867065002">Robe</a>
        <span class="price">$89.99</span></div></li>
        <li class="wishlist-entry" id="w2"><h3>Later</h3></li></ul>"#;
    let ls = wishlists(html);
    assert_eq!(ls.len(), 2);
    assert_eq!(ls[0].id.as_deref(), Some("w1"));
    assert_eq!(ls[0].name, "Birthday");
    assert!(ls[0].preferred);
    assert!(!ls[0].public);
    assert_eq!(ls[0].items.len(), 1);
    assert_eq!(ls[0].items[0].sku.as_deref(), Some("6867065002"));
    assert_eq!(ls[0].items[0].name.as_deref(), Some("Robe"));
    assert_eq!(money(&ls[0].items[0].price), Some(89.99));
    assert_eq!(ls[1].id.as_deref(), Some("w2"), "the element id stands in");
    assert!(ls[1].items.is_empty());
}

// ---- wire: products and variations ----

fn price(value: &str) -> Option<Price> {
    Some(Price { value: Some(value.into()), currency: Some("NZD".into()) })
}

fn attr(name: &str, value: &str) -> VariationAttribute {
    VariationAttribute { name: Some(name.into()), value: Some(Sent::Text(value.into())) }
}

/// A product record with nothing in it, as `{}` decodes.
fn bare_product() -> WireProduct {
    WireProduct {
        sku: None,
        product_name: None,
        name: None,
        short_description: None,
        long_description: None,
        manufacturer: None,
        list_price: None,
        sale_price: None,
        min_sale_price: None,
        max_sale_price: None,
        in_stock: None,
        available_stock: None,
        product_master: None,
        product_master_sku: None,
        images: vec![],
        default_category: None,
        variable_variation_attributes: vec![],
        variation_attribute_values: vec![],
        promotions: vec![],
        average_rating: None,
        number_of_reviews: None,
        ready_for_shipment_min: None,
        ready_for_shipment_max: None,
    }
}

/// The variant record the storefront sends for one size of a robe.
fn variant_record() -> WireProduct {
    WireProduct {
        sku: Some("6867065002".into()),
        product_name: Some("Chisel Fleece Robe, Charcoal".into()),
        manufacturer: Some("Chisel".into()),
        in_stock: Some(true),
        available_stock: Some(Json::Number { text: "31".into(), zero: false }),
        product_master: Some(false),
        product_master_sku: Some("6867065".into()),
        average_rating: Some("0.0".into()),
        number_of_reviews: Some(0),
        ready_for_shipment_min: Some(3),
        ready_for_shipment_max: Some(7),
        list_price: price("89.99"),
        sale_price: price("69.99"),
        images: vec![
            WireImage {
                effective_url: Some("/a_W110_H143.jpg".into()),
                type_id: Some("S".into()),
                image_actual_width: None,
                image_actual_height: None,
                primary_image: true,
            },
            WireImage {
                effective_url: Some("/a_W1200_H1565.jpg".into()),
                type_id: Some("ZOOM".into()),
                image_actual_width: None,
                image_actual_height: None,
                primary_image: true,
            },
        ],
        default_category: Some(DefaultCategory {
            category_path: vec![
                PathEntry { name: Some("Men".into()), id: Some("51-03".into()) },
                PathEntry { name: Some("Robes".into()), id: Some("51-030302".into()) },
            ],
        }),
        variable_variation_attributes: vec![attr("Colour", "Grey"), attr("Size", "L-XL")],
        promotions: vec![Promotion { title: Some("Spend & Save".into()) }],
        ..bare_product()
    }
}

/// An amount's number, for a check on what a renderer would print.
fn amount_value(m: &Amount) -> f64 {
    m.value.parse().expect("a number")
}

#[test]
fn a_variant_carries_everything_a_listing_needs() {
    let p = variant_record().into_product();
    assert_eq!(p.sku, "6867065002");
    assert_eq!(p.brand.as_deref(), Some("Chisel"));
    assert_eq!(p.available_stock, Some(31));
    assert_eq!(p.master_sku.as_deref(), Some("6867065"));
    assert!(!p.master);
    let was = amount_value(p.list_price.as_ref().unwrap());
    let now = amount_value(p.price().unwrap());
    assert_eq!(format!("${:.2}", was - now), "$20.00");
    assert_eq!(p.breadcrumb(), "Men > Robes");
    assert_eq!(p.image().map(|i| i.url.as_str()), Some("/a_W1200_H1565.jpg"));
    assert_eq!(p.promotions, vec!["Spend & Save".to_string()]);
    assert_eq!(p.ships_in, Some((3, 7)));
    let labels: Vec<String> =
        p.variation_values.iter().map(|v| format!("{} {}", v.axis, v.value)).collect();
    assert_eq!(labels, ["Colour Grey", "Size L-XL"]);
}

#[test]
fn an_unrated_product_carries_the_rating_as_sent() {
    // `0.0` is how the backend says nobody has rated it; the record keeps the
    // text and a renderer reads it.
    let p = variant_record().into_product();
    assert_eq!(p.rating.as_deref(), Some("0.0"));
    assert_eq!(p.review_count, Some(0));
}

#[test]
fn available_stock_parses_whether_it_arrives_as_a_number_or_a_string() {
    let as_number = WireProduct {
        available_stock: Some(Json::Number { text: "31".into(), zero: false }),
        ..bare_product()
    };
    assert_eq!(as_number.into_product().available_stock, Some(31));
    let as_string = WireProduct { available_stock: Some(Json::Str("14".into())), ..bare_product() };
    assert_eq!(as_string.into_product().available_stock, Some(14));
    let as_fraction = WireProduct {
        available_stock: Some(Json::Number { text: "2.5".into(), zero: false }),
        ..bare_product()
    };
    assert_eq!(as_fraction.into_product().available_stock, None);
    let as_truth = WireProduct { available_stock: Some(Json::Bool(true)), ..bare_product() };
    assert_eq!(as_truth.into_product().available_stock, None);
}

#[test]
fn a_variation_takes_its_code_from_the_only_place_it_appears() {
    let v = WireVariation {
        uri: Some("Farmers-Shop-Site/-;loc=en_NZ/products/6867065001".into()),
        title: Some("Chisel Fleece Robe, Charcoal".into()),
        attributes: vec![Attribute { name: "defaultVariation".into(), value: Json::Bool(true) }],
        variable_variation_attribute_values: vec![attr("Size", "S-M")],
        in_stock: Some(true),
        available_stock: Some(Json::Str("14".into())),
    };
    let v = v.into_variant().expect("has a uri");
    assert_eq!(v.sku, "6867065001");
    assert!(v.default);
    assert_eq!(v.available_stock, Some(14));
    assert_eq!(v.label(), "Size S-M");
}

#[test]
fn a_variation_with_no_cross_reference_is_dropped_rather_than_given_a_blank_code() {
    let v = WireVariation {
        uri: None,
        title: Some("x".into()),
        attributes: vec![],
        variable_variation_attribute_values: vec![],
        in_stock: None,
        available_stock: None,
    };
    assert!(v.into_variant().is_none());
}

#[test]
fn a_variation_is_not_the_default_unless_it_says_so() {
    let v = WireVariation {
        uri: Some("p/6867065003".into()),
        title: None,
        attributes: vec![Attribute { name: "defaultVariation".into(), value: Json::Str("true".into()) }],
        variable_variation_attribute_values: vec![
            VariationAttribute { name: Some("Size".into()), value: Some(Sent::Printed("12".into())) },
            VariationAttribute { name: Some("Colour".into()), value: Some(Sent::Null) },
            VariationAttribute { name: None, value: Some(Sent::Text("Red".into())) },
        ],
        in_stock: None,
        available_stock: None,
    };
    let v = v.into_variant().expect("has a uri");
    assert!(!v.default, "only a true boolean marks the default");
    assert_eq!(v.label(), "Size 12");
}

#[test]
fn an_answer_missing_every_optional_field_still_parses() {
    let p = bare_product().into_product();
    assert_eq!(p.sku, "");
    assert!(p.price().is_none());
    assert!(p.images.is_empty());
    assert!(!p.master);
}

#[test]
fn a_master_takes_its_own_values_when_it_has_no_variable_ones() {
    let p = WireProduct {
        product_master: Some(true),
        name: Some("Robe".into()),
        short_description: Some(String::new()),
        variation_attribute_values: vec![attr("Size", "S-M")],
        min_sale_price: Some(Price { value: Some("59.99".into()), currency: None }),
        images: vec![WireImage {
            effective_url: None,
            type_id: Some("ZOOM".into()),
            image_actual_width: None,
            image_actual_height: None,
            primary_image: true,
        }],
        default_category: Some(DefaultCategory {
            category_path: vec![PathEntry { name: Some("Men".into()), id: None }],
        }),
        ..bare_product()
    }
    .into_product();
    assert!(p.master);
    assert_eq!(p.name.as_deref(), Some("Robe"), "the plain name when there is no product name");
    assert_eq!(p.short_description, None, "a blank description is none");
    assert_eq!(p.variation_values.len(), 1);
    assert_eq!(p.min_price.as_ref().map(|m| m.currency.as_str()), Some("NZD"));
    assert!(p.images.is_empty(), "a picture with no address is skipped");
    assert!(p.category_path.is_empty(), "a step with no id is skipped");
    assert_eq!(p.ships_in, None);
}

#[test]
fn the_biggest_picture_wins_and_a_product_may_have_none() {
    let pic = |url: &str, size: &str| Image {
        url: url.into(),
        size: Some(size.into()),
        width: None,
        height: None,
        primary: true,
    };
    let p = Product { images: vec![pic("/s.jpg", "S"), pic("/z.jpg", "ZOOM")], ..Default::default() };
    assert_eq!(p.image().map(|i| i.url.as_str()), Some("/z.jpg"));
    assert!(Product::default().image().is_none());
}

#[test]
fn a_product_with_only_a_ticket_price_still_has_a_price() {
    let p = Product {
        list_price: Some(Amount { value: "10.0".into(), currency: "NZD".into() }),
        ..Default::default()
    };
    assert_eq!(p.price().map(amount_value), Some(10.0));
    assert!(p.sale_price.is_none(), "nothing to compare against");
}

#[test]
fn a_breadcrumb_joins_the_path_root_first() {
    let p = Product {
        category_path: vec![
            CategoryRef { id: "51".into(), name: "Men".into() },
            CategoryRef { id: "51-03".into(), name: "Sleepwear, Robes & Slippers".into() },
        ],
        ..Default::default()
    };
    assert_eq!(p.breadcrumb(), "Men > Sleepwear, Robes & Slippers");
    assert_eq!(Product::default().breadcrumb(), "");
}

// ---- client: following a redirect, pricing a hit ----

fn node(id: &str, path: Option<&str>, children: Vec<Category>) -> Category {
    Category { id: id.into(), name: id.into(), path: path.map(Into::into), children, ..Default::default() }
}

#[test]
fn a_redirect_is_followed_into_the_category_that_serves_its_path() {
    let tree = vec![
        node("51", Some("men"), vec![node("51-03", Some("men/robes"), vec![])]),
        node(
            "60",
            Some("toys"),
            vec![node("60-01", None, vec![]), node("60-02", Some("toys/LEGO-construction"), vec![])],
        ),
        node("61", Some("toys/lego-construction"), vec![]),
    ];
    assert_eq!(
        category_for_path(&tree, "/toys/lego-construction").as_deref(),
        Some("60-02"),
        "depth first, ignoring case and the slashes at the ends"
    );
    assert_eq!(category_for_path(&tree, "men/robes/").as_deref(), Some("51-03"));
    assert_eq!(category_for_path(&tree, "//men//").as_deref(), Some("51"));
    assert_eq!(category_for_path(&tree, "/brand-landing"), None, "a landing page has no category");
    assert_eq!(category_for_path(&Vec::new(), "/men"), None);
}

#[test]
fn a_hit_is_priced_by_its_first_variant_rather_than_its_master() {
    let hit = |sku: &str, variants: &[&str]| Hit {
        sku: sku.into(),
        name: String::new(),
        brand: None,
        url: None,
        image: None,
        stock_status: None,
        variants: variants.iter().map(|v| v.to_string()).collect(),
        categories: vec![],
    };
    assert_eq!(priced_sku(&hit("6867065", &["6867065001", "6867065002"])), "6867065001");
    assert_eq!(priced_sku(&hit("1234567", &[])), "1234567");
}

// ---- module behaviour, by the names the module's own tests use ----

#[test]
fn a_redirect_is_carried_rather_than_read_as_an_empty_result() {
    let response = SearchResponse {
        results: vec![],
        total_num_results: 0,
        facets: vec![],
        redirect: Some(Redirect {
            data: Some(RedirectData { url: Some("/toys/lego-construction".into()) }),
        }),
    };
    let listing = response.into_listing(0);
    assert!(listing.hits.is_empty());
    assert_eq!(listing.redirect.as_deref(), Some("/toys/lego-construction"));
}

#[test]
fn a_hidden_facet_is_not_offered() {
    let response = SearchResponse {
        results: vec![],
        total_num_results: 0,
        facets: vec![
            WireFacet {
                name: Some("manufacturername".into()),
                display_name: Some("Brand".into()),
                hidden: false,
                options: vec![WireFacetOption {
                    value: Some("Chisel".into()),
                    display_name: Some("Chisel".into()),
                    count: 26,
                }],
            },
            WireFacet {
                name: Some("internal".into()),
                display_name: Some("Internal".into()),
                hidden: true,
                options: vec![],
            },
        ],
        redirect: None,
    };
    let listing = response.into_listing(0);
    assert_eq!(listing.facets.len(), 1);
    assert_eq!(listing.facets[0].display_name, "Brand");
    assert_eq!(listing.facets[0].options[0].count, 26);
}

#[test]
fn suggestions_keep_the_section_they_came_from() {
    let e = AutocompleteEnvelope {
        sections: vec![
            ("Products".into(), vec![WireSuggestion { value: Some("Whistle Sleep Printed Robe".into()) }]),
            ("Search Suggestions".into(), vec![WireSuggestion { value: Some("robe".into()) }]),
        ],
    };
    let s = e.into_suggestions();
    assert_eq!(s.len(), 2);
    assert!(s.iter().any(|s| s.section == "Products"));
}

#[test]
fn a_term_with_a_space_is_encoded_into_the_path() {
    let url = Query::new().search(&Endpoints::defaults(), "blue shirt", "c", 1);
    assert!(url.contains("/search/blue%20shirt?"), "{url}");
}

#[test]
fn a_category_id_browses_by_the_same_id_intershop_uses() {
    let url = Query::new().browse(&Endpoints::defaults(), "51-0303", "c", 1);
    assert!(url.contains("/browse/group_id/51-0303?"), "{url}");
}

#[test]
fn filters_are_bracketed_the_way_the_service_reads_them() {
    let url = Query::new()
        .filter("manufacturername", "Karen Walker")
        .filter("stockstatus", "In stock")
        .search(&Endpoints::defaults(), "coat", "c", 1);
    assert!(url.contains("filters%5Bmanufacturername%5D=Karen%20Walker"), "{url}");
    assert!(url.contains("filters%5Bstockstatus%5D=In%20stock"), "{url}");
}

#[test]
fn a_known_sort_is_sent_and_an_unknown_one_is_dropped() {
    let url = Query::new().sorted_by(Some("price".into())).search(&Endpoints::defaults(), "robe", "c", 1);
    assert!(url.contains("sort_by=productsalepricegross"), "{url}");
    assert!(url.contains("sort_order=ascending"), "{url}");
    let url =
        Query::new().sorted_by(Some("cheapest".into())).search(&Endpoints::defaults(), "robe", "c", 1);
    assert!(!url.contains("sort_by"), "{url}");
}

#[test]
fn every_call_carries_the_credentials_the_service_requires() {
    let url = Query::new().search(&Endpoints::defaults(), "robe", "a-client", 3);
    assert!(url.contains("key=key_wafe8wrKCXfPyWKw"), "{url}");
    assert!(url.contains("i=a-client"), "{url}");
    assert!(url.contains("s=3"), "{url}");
    let url = autocomplete(&Endpoints::defaults(), "rob", "a-client", 3);
    assert!(url.starts_with("https://ac.cnstrc.com/autocomplete/rob?"), "{url}");
    assert!(url.contains("i=a-client"), "{url}");
}

#[test]
fn a_denial_is_not_reported_as_an_authentication_problem() {
    let e = Error::Denied { warmed: true };
    assert!(e.is_denied());
    assert!(!e.is_lapsed());
    assert!(!e.needs_login());
    assert!(e.message().contains("after a fresh warm-up"), "{}", e.message());
}

#[test]
fn a_first_denial_does_not_claim_a_warm_up_was_tried() {
    let e = Error::Denied { warmed: false };
    assert!(!e.message().contains("warm-up"), "{}", e.message());
    assert_eq!(e.message(), "Farmers' bot protection refused this request");
}

#[test]
fn being_signed_out_and_being_refused_a_password_are_different_questions() {
    assert!(Error::NotSignedIn.is_lapsed());
    assert!(!Error::NotSignedIn.needs_login());
    assert!(Error::LoginRefused { step: "password", detail: String::new() }.needs_login());
    assert_eq!(Error::NotSignedIn.message(), "not signed in to Farmers");
}

#[test]
fn an_error_says_what_went_wrong_in_the_words_a_person_reads() {
    assert_eq!(
        Error::LoginRefused { step: "password", detail: ": wrong".into() }.message(),
        "the sign-in page refused the password: wrong"
    );
    assert_eq!(Error::NoSuchRegion("Mars".into()).message(), "no region called Mars");
    assert_eq!(
        Error::NotInPage { what: "the basket".into(), detail: String::new() }.message(),
        "the basket was not found in the page"
    );
    assert_eq!(Error::Http { status: Some(503), body: String::new() }.message(), "the server answered HTTP 503");
    assert_eq!(Error::Http { status: None, body: String::new() }.message(), "the server could not be reached");
}

#[test]
fn a_page_with_no_token_is_reported_rather_than_posted_to_blind() {
    assert_eq!(synchronizer_token("<html>Access Denied</html>"), None);
    assert_eq!(synchronizer_token(r#"<input name="SynchronizerToken" value=""/>"#), None);
}

#[test]
fn the_form_token_is_read_off_the_sign_in_page() {
    let html = r#"<form name="LoginUserForm" method="post">
        <input type="hidden" name="SynchronizerToken" value="0123456789abcdef01234567"/>
        <input name="ShopLoginForm_Login" value=""/></form>"#;
    assert_eq!(synchronizer_token(html).as_deref(), Some("0123456789abcdef01234567"));
}

#[test]
fn the_sites_own_words_for_a_refused_sign_in_are_kept() {
    let html = r#"<div class="error-message">The email address or password is incorrect.</div>"#;
    assert_eq!(form_error(html).as_deref(), Some("The email address or password is incorrect."));
    assert_eq!(form_error("<div>nothing wrong here</div>"), None);
}

#[test]
fn stock_is_read_off_the_negative_because_the_positive_varies() {
    let store = Store { name: String::new(), address: None, phone: None, hours: vec![] };
    let stock = |s: &str| StoreStock { store: store.clone(), status: s.into() };
    assert!(stock("In Stock").available());
    assert!(stock("In Stock - Limited").available());
    assert!(!stock("Not In Stock").available());
    assert!(!stock("not in stock").available());
}

#[test]
fn a_denial_is_not_mistaken_for_a_missing_product() {
    assert!(matches!(
        not_found(Error::Denied { warmed: false }, Error::NoSuchProduct("x".into())),
        Error::Denied { .. }
    ));
}

#[test]
fn a_filed_session_does_not_print_its_values() {
    let filed = StoredSession {
        email: Some("shopper@example.invalid".into()),
        cookies: vec![("_abck".into(), "secret-abck".into()), ("sid".into(), "secret-sid".into())],
        obtained_at: 42,
    };
    let text = filed.describe();
    assert_eq!(
        text,
        "StoredSession { email: Some(\"shopper@example.invalid\"), cookies: [\"_abck\", \"sid\"], obtained_at: 42 }"
    );
    assert!(!text.contains("secret"));
}

#[test]
fn a_category_answer_without_an_id_is_no_such_category() {
    match found_category(Category::default(), " 51-99 ") {
        Err(Error::NoSuchCategory(id)) => assert_eq!(id, "51-99"),
        other => panic!("{other:?}"),
    }
    let c = found_category(node("51", None, vec![]), "51").expect("found");
    assert_eq!(c.id, "51");
}

#[test]
fn a_region_that_does_not_exist_fails_before_any_request_is_made() {
    match stock_params("6867065002", "Atlantis") {
        Err(Error::NoSuchRegion(r)) => assert_eq!(r, "Atlantis"),
        other => panic!("{other:?}"),
    }
    let ps = stock_params(" 6867065002 ", "hawkes bay").expect("a region");
    let pairs: Vec<(&str, &str)> = ps.iter().map(|(k, v)| (k.as_str(), v.as_str())).collect();
    assert_eq!(
        pairs,
        [("CountryCode", "NZ"), ("NoShippingFilter", "true"), ("SKU", "6867065002"), ("State", "HKB")]
    );
}

// ---- the basket and the saved lists: what is sent, and what comes back ----

fn pairs(ps: &[(String, String)]) -> Vec<(&str, &str)> {
    ps.iter().map(|(k, v)| (k.as_str(), v.as_str())).collect()
}

#[test]
fn adding_to_the_basket_sends_what_the_product_pages_form_sends() {
    let ps = cart_add_params(" 6867065002 ", 2, &vec![("Size-DisplayName".into(), "L-XL".into())]);
    assert_eq!(
        pairs(&ps),
        [
            ("SKU", "6867065002"),
            ("VariationAttribute_Size-DisplayName", "L-XL"),
            ("Quantity_6867065002", "2"),
            ("addToCartBehavior", "expresscart"),
        ]
    );
    let at_least_one = cart_add_params("1", -3, &vec![]);
    assert_eq!(pairs(&at_least_one)[1], ("Quantity_1", "1"), "a quantity below one adds one");
}

#[test]
fn removing_a_line_is_addressed_by_the_line_id_and_not_the_sku() {
    assert_eq!(pairs(&cart_remove_params(" notarealpli01 ")), [("RemovePLI", "notarealpli01")]);
}

#[test]
fn changing_a_quantity_takes_the_token_from_the_cart_page_first() {
    let page = r#"<form><input name="SynchronizerToken" value="a-cart-token"/></form>"#;
    let token = cart_page_token(page).expect("a token");
    assert_eq!(token, "a-cart-token");
    let form = cart_update_form(&token, &vec![("notarealpli01".into(), 5), ("other".into(), -1)], Some("SAVE10"));
    assert_eq!(
        pairs(&form),
        [
            ("SynchronizerToken", "a-cart-token"),
            ("submitval", ""),
            ("Quantity_notarealpli01", "5"),
            ("Quantity_other", "0"),
            ("promotionCode", "SAVE10"),
            ("update", ""),
        ]
    );
    assert_eq!(pairs(&cart_update_form("t", &vec![], None))[2], ("promotionCode", ""));
}

#[test]
fn a_cart_page_with_no_token_is_reported_rather_than_posted_to_blind() {
    match cart_page_token("<html>no form here</html>") {
        Err(Error::NotInPage { what, detail }) => {
            assert_eq!(what, "the cart form token");
            assert_eq!(detail, ", so the basket cannot be updated");
        },
        other => panic!("{other:?}"),
    }
}

#[test]
fn a_wishlist_add_that_was_answered_with_the_sign_in_page_is_not_a_success() {
    let page = r#"<a id="redirect" href="https://www.farmers.co.nz/login?LoginToUse=wishlists">Please login.</a>"#;
    assert!(matches!(wishlist_add_outcome(page), Err(Error::SessionExpired)));
    assert!(wishlist_add_outcome("<div>saved</div>").is_ok());
    assert_eq!(
        pairs(&wishlist_add_form("6867065002")),
        [
            ("SKU", "6867065002"),
            ("Quantity_6867065002", "1"),
            ("addToCartBehavior", "expresscart"),
            ("addToWishlistProduct", ""),
        ]
    );
}

#[test]
fn signing_in_again_leaves_a_working_session_alone() {
    let session = with(&[(ACCOUNT_SECURE, "abc")]);
    let account = |signed_in: bool, email: &str| Account {
        signed_in,
        email: Some(email.into()),
        first_name: None,
        last_name: None,
    };
    let kept = signed_in_answer(account(true, "Shopper@Example.invalid"), &session, " shopper@example.invalid ");
    assert!(kept.is_some(), "the same person, whatever the case and space");
    assert!(signed_in_answer(account(true, "other@example.invalid"), &session, "shopper@example.invalid").is_none());
    assert!(signed_in_answer(account(false, "shopper@example.invalid"), &session, "shopper@example.invalid").is_none());
    let fallback = signed_in_account(Err(Error::Challenged), " shopper@example.invalid ");
    assert!(fallback.signed_in);
    assert_eq!(fallback.email.as_deref(), Some("shopper@example.invalid"));
}

#[test]
fn the_client_keeps_the_sign_in_redirect_for_itself() {
    let spec = client_spec();
    assert_eq!(spec.profile, EMULATION);
    assert_eq!(spec.profile, "Firefox139");
    assert!(!spec.follows_redirects);
    let other = client_spec_for("Safari18_5");
    assert_eq!(other.profile, "Safari18_5");
    assert!(!other.follows_redirects);
}

#[test]
fn a_warm_up_drops_an_old_aka_a2_it_does_not_bring() {
    let mut s = with(&[
        (SESSION_COOKIE, "the-signed-in-session"),
        ("AKA_A2", "old"),
        ("_abck", "LAPSED~-1~x"),
    ]);
    s.rewarm(vec![("_abck".to_string(), "FRESH~-1~x".to_string())]);
    assert_eq!(s.get("AKA_A2"), None);
    assert_eq!(s.get("_abck"), Some("FRESH~-1~x"));
    assert_eq!(s.get(SESSION_COOKIE), Some("the-signed-in-session"));
    s.rewarm(vec![("AKA_A2".to_string(), "new".to_string()), ("bm_sz".to_string(), String::new())]);
    assert_eq!(s.get("AKA_A2"), Some("new"));
    assert_eq!(s.get("_abck"), None);
    assert_eq!(s.get("bm_sz"), None);
}

#[test]
fn a_window_that_would_end_inside_a_character_is_cut_back_to_it() {
    // 4095 bytes of padding, then a three-byte character across byte 4096.
    let mut body = "x".repeat(4095);
    body.push('✨');
    body.push_str("Access Denied");
    assert!(!is_deny_page(&body));
    let mut early = "Access Denied".to_string();
    early.push_str(&"y".repeat(4082));
    early.push('✨');
    assert!(is_deny_page(&early));
    let mut challenge = "sec-if-cpt-container".to_string();
    challenge.push_str(&"z".repeat(4074));
    challenge.push('é');
    assert!(is_challenge_page(&challenge));
}

fn percent_decoded(s: &str) -> Vec<u8> {
    let b = s.as_bytes();
    let mut out = Vec::new();
    let mut i = 0;
    while i < b.len() {
        if b[i] == b'%' && i + 2 < b.len() {
            let hex = std::str::from_utf8(&b[i + 1..i + 3]).unwrap();
            out.push(u8::from_str_radix(hex, 16).unwrap());
            i += 3;
        } else {
            out.push(b[i]);
            i += 1;
        }
    }
    out
}

#[test]
fn decoding_an_encoded_component_gives_its_bytes_back() {
    for v in ["a b", "Hawke's Bay", "Manawatū-Whanganui", "50%/off?&=", "~._-"] {
        let e = encode(v);
        assert!(e.chars().all(|c| c.is_ascii_alphanumeric() || "-_.~%".contains(c)), "{e}");
        assert_eq!(percent_decoded(&e), v.as_bytes());
    }
}

#[test]
fn a_denied_call_is_warmed_and_tried_once_more() {
    let first: Result<String, Error> = Err(Error::Denied { warmed: false });
    assert!(matches!(after_gated(true, first), Retry::WarmAndRetry));
    let second: Result<String, Error> = Err(Error::Denied { warmed: false });
    assert!(matches!(after_gated(false, second), Retry::Answer(Err(Error::Denied { warmed: true }))));
    assert!(matches!(after_gated(true, Ok("body".to_string())), Retry::Answer(Ok(b)) if b == "body"));
    let other: Result<String, Error> = Err(Error::Challenged);
    assert!(matches!(after_gated(true, other), Retry::Answer(Err(Error::Challenged))));
}

#[test]
fn a_refused_warm_up_forgets_the_stored_cookies_once() {
    assert!(matches!(after_warm_up(true, Err(Error::Denied { warmed: false })), WarmRetry::ForgetAndWarm));
    assert!(matches!(
        after_warm_up(false, Err(Error::Denied { warmed: false })),
        WarmRetry::Answer(Err(Error::Denied { warmed: false }))
    ));
    assert!(matches!(after_warm_up(true, Ok(())), WarmRetry::Answer(Ok(()))));
}
